//! A byte source together with the window that buffers what was read from it.
//!
//! The reader owns both. It does not read from a source that it knows
//! nothing of: the caller does, on the reader's request, and hands the bytes
//! over. Exactly one reader may stand between a source and its user: bytes
//! that one reader has buffered are lost to every other.

use crate::window::{lemma_consume_monotonic, rest_after, ByteWindow, WindowModel};
use vstd::prelude::*;

verus! {

/// The capacity of the window of a reader made by `new`.
pub const DEFAULT_BUF_SIZE: usize = 8192;

/// A source of type `R` with a window of buffered bytes in front of it.
pub struct BufReader<R> {
    pub(crate) inner: R,
    pub(crate) window: ByteWindow,
}

impl<R> View for BufReader<R> {
    type V = WindowModel;

    closed spec fn view(&self) -> WindowModel {
        self.window@
    }
}

impl<R> BufReader<R> {
    /// The reader's invariant: that of its window.
    pub closed spec fn wf(&self) -> bool {
        self.window.wf()
    }

    /// The source behind the window.
    pub closed spec fn source(&self) -> R {
        self.inner
    }

    /// What the reader's view, invariant and source are made of.
    pub(crate) proof fn lemma_parts(&self)
        ensures
            self.wf() == self.window.wf(),
            self@ == self.window@,
            self.source() == self.inner,
    {
    }

    /// A well-formed reader has a well-formed window that holds no more
    /// than an allocation can.
    pub proof fn lemma_wf(&self)
        requires
            self.wf(),
        ensures
            self@.wf(),
            self@.len() <= isize::MAX,
    {
    }

    /// A reader over `inner` with an empty window of the default capacity.
    pub fn new(inner: R) -> (r: Self)
        ensures
            r.wf(),
            r.source() == inner,
            r@ == (WindowModel {
                bytes: Seq::empty(),
                start: 0,
                capacity: DEFAULT_BUF_SIZE as nat,
            }),
    {
        Self::with_capacity(DEFAULT_BUF_SIZE, inner)
    }

    /// A reader over `inner` with an empty window whose storage is reserved
    /// for `capacity` bytes, which are at most `isize::MAX`: no allocation
    /// can be larger. The capacity is a reservation: no later result
    /// depends on it.
    pub fn with_capacity(capacity: usize, inner: R) -> (r: Self)
        requires
            capacity <= isize::MAX,
        ensures
            r.wf(),
            r.source() == inner,
            r@ == (WindowModel { bytes: Seq::empty(), start: 0, capacity: capacity as nat }),
    {
        BufReader { inner, window: ByteWindow::with_capacity(capacity) }
    }

    /// The source, to look at.
    pub fn get_ref(&self) -> (r: &R)
        ensures
            *r == self.source(),
    {
        &self.inner
    }

    /// The source, to work on. Whatever moves its position behind the
    /// reader's back makes the buffered bytes stale.
    pub fn get_mut(&mut self) -> (r: &mut R)
        ensures
            *r == old(self).source(),
            final(self).source() == *final(r),
            final(self)@ == old(self)@,
            final(self).wf() == old(self).wf(),
    {
        &mut self.inner
    }

    /// Gives the source back. The buffered bytes are dropped.
    pub fn into_inner(self) -> (r: R)
        ensures
            r == self.source(),
    {
        self.inner
    }

    /// The unconsumed bytes. Nothing is read to get them.
    pub fn buffer(&self) -> (w: &[u8])
        requires
            self.wf(),
        ensures
            w@ == self@.window(),
    {
        self.window.window()
    }

    /// Takes `nread` bytes from the front of the window, or all of them if
    /// it holds fewer.
    pub fn consume(&mut self, nread: usize)
        requires
            old(self).wf(),
        ensures
            final(self).wf(),
            final(self).source() == old(self).source(),
            final(self)@ == old(self)@.consume(nread as nat),
            final(self)@.window() == rest_after(old(self)@.window(), nread as nat),
    {
        proof {
            lemma_consume_monotonic(self.window@, nread as nat);
        }
        self.window.consume(nread);
    }

    /// Whether a plain read into a buffer of `wanted` bytes goes past the
    /// window, straight to the source: it does where the buffer is at least
    /// as large as what the window holds. The window is cleared after such a
    /// read. A smaller read is served through the window, and what it took is
    /// consumed.
    pub fn bypasses(&self, wanted: usize) -> (b: bool)
        requires
            self.wf(),
        ensures
            b == (wanted >= self@.len()),
    {
        wanted >= self.window.len()
    }
}

} // verus!
