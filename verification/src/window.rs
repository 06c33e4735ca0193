//! The byte window: a block of storage and the range of it that holds bytes
//! which were read and not yet consumed.
//!
//! The storage has a capacity, which is a reservation and no limit. When it
//! is full and consumed bytes lie in front of the unconsumed ones, those are
//! shifted to the front to make room. When the unconsumed bytes alone fill
//! it, the capacity is doubled. Nothing that is appended is ever dropped, and
//! no capacity changes which bytes the window holds.

use crate::fill::{doubled_up_to, lemma_doubled_at_least};
use vstd::prelude::*;
use vstd::slice::slice_subrange;

verus! {

/// The mathematical content of a byte window.
pub struct WindowModel {
    /// Every stored byte, consumed ones included: indices `0..end`.
    pub bytes: Seq<u8>,
    /// Index of the first unconsumed byte.
    pub start: nat,
    /// The bytes that the storage is reserved for.
    pub capacity: nat,
}

/// The capacity that holds `needed` bytes: `capacity` itself where it does,
/// else `capacity` doubled until it does (1 doubled, for a capacity of 0).
pub open spec fn grown(capacity: nat, needed: nat) -> nat {
    if needed <= capacity {
        capacity
    } else {
        doubled_up_to(if capacity == 0 { 1 } else { capacity }, needed)
    }
}

impl WindowModel {
    /// `0 <= start <= end <= capacity`.
    pub open spec fn wf(self) -> bool {
        self.start <= self.bytes.len() <= self.capacity
    }

    /// One past the last valid byte.
    pub open spec fn end(self) -> nat {
        self.bytes.len()
    }

    /// The unconsumed bytes, `[start, end)`.
    pub open spec fn window(self) -> Seq<u8> {
        self.bytes.subrange(self.start as int, self.bytes.len() as int)
    }

    /// Number of unconsumed bytes.
    pub open spec fn len(self) -> nat {
        (self.bytes.len() - self.start) as nat
    }

    /// Free storage behind the last valid byte, `[end, capacity)`.
    pub open spec fn room(self) -> nat {
        (self.capacity - self.bytes.len()) as nat
    }

    /// The window after `n` bytes were taken from its front, all of them if
    /// it holds fewer.
    pub open spec fn consume(self, n: nat) -> WindowModel {
        WindowModel {
            start: self.start + if n <= self.len() { n } else { self.len() },
            ..self
        }
    }

    /// The unconsumed bytes moved to the front of the storage.
    pub open spec fn compact(self) -> WindowModel {
        WindowModel { bytes: self.window(), start: 0, ..self }
    }

    /// The window with room for `extra` more bytes: untouched where it has
    /// the room; else compacted, and enlarged where that is not enough.
    pub open spec fn reserve_for(self, extra: nat) -> WindowModel {
        if extra <= self.room() {
            self
        } else {
            WindowModel {
                bytes: self.window(),
                start: 0,
                capacity: grown(self.capacity, self.len() + extra),
            }
        }
    }

    /// The window as it stands before a fill, with room for at least one
    /// byte: compacted if the storage was full, and of twice the capacity
    /// if the unconsumed bytes alone filled it.
    pub open spec fn make_room(self) -> WindowModel {
        self.reserve_for(1)
    }

    /// The empty window over the same storage.
    pub open spec fn clear(self) -> WindowModel {
        WindowModel { bytes: Seq::empty(), start: 0, ..self }
    }

    /// The window after `data` was appended, all of it.
    pub open spec fn append(self, data: Seq<u8>) -> WindowModel {
        WindowModel {
            bytes: self.reserve_for(data.len()).bytes + data,
            ..self.reserve_for(data.len())
        }
    }
}

/// What is left of the bytes `shown` once the first `n` of them were taken,
/// all of them if they are fewer.
pub open spec fn rest_after(shown: Seq<u8>, n: nat) -> Seq<u8> {
    if n <= shown.len() {
        shown.skip(n as int)
    } else {
        Seq::empty()
    }
}

/// Consuming moves `start` forward by exactly the bytes taken and by nothing
/// else: the bytes stay where they are, and the window afterwards is the old
/// one without its first `n` bytes. Where bytes were taken, `start` grows
/// strictly.
pub proof fn lemma_consume_monotonic(w: WindowModel, n: nat)
    requires
        w.wf(),
    ensures
        w.consume(n).wf(),
        w.consume(n).bytes == w.bytes,
        w.consume(n).capacity == w.capacity,
        n <= w.len() ==> w.consume(n).start == w.start + n,
        n > w.len() ==> w.consume(n).start == w.end(),
        n > 0 && w.len() > 0 ==> w.consume(n).start > w.start,
        w.consume(n).window() == rest_after(w.window(), n),
        w.consume(n).len() + n == w.len() || w.consume(n).len() == 0,
{
    assert(w.consume(n).window() =~= rest_after(w.window(), n));
}

/// Reserving room changes where the unconsumed bytes lie and how many the
/// storage is reserved for, and not which they are; the room is there
/// afterwards; and the capacity is less than twice what is needed, unless
/// it was more before.
pub proof fn lemma_reserve_keeps_window(w: WindowModel, extra: nat)
    requires
        w.wf(),
    ensures
        w.reserve_for(extra).wf(),
        w.reserve_for(extra).window() == w.window(),
        w.reserve_for(extra).room() >= extra,
        w.reserve_for(extra).capacity >= w.capacity,
        w.reserve_for(extra).capacity == w.capacity || w.reserve_for(extra).capacity < 2 * (
        w.len() + extra),
{
    let needed = w.len() + extra;
    if extra > w.room() {
        assert(w.reserve_for(extra).window() =~= w.window());
        if needed > w.capacity {
            lemma_grown(w.capacity, needed);
        }
    }
}

/// A capacity that was enlarged holds what is needed and is less than twice
/// that.
pub proof fn lemma_grown(capacity: nat, needed: nat)
    requires
        needed > capacity,
    ensures
        needed <= grown(capacity, needed) < 2 * needed,
{
    lemma_doubling_overshoots_little(
        if capacity == 0 {
            1
        } else {
            capacity
        },
        needed,
    );
}

/// Doubling from below `n` ends below `2n`.
pub proof fn lemma_doubling_overshoots_little(p: nat, n: nat)
    requires
        0 < p <= n,
    ensures
        n <= doubled_up_to(p, n) < 2 * n || (p == n && doubled_up_to(p, n) == n),
    decreases n - p,
{
    lemma_doubled_at_least(p, n);
    if p < n {
        if 2 * p < n {
            lemma_doubling_overshoots_little(2 * p, n);
        } else {
            assert(doubled_up_to(2 * p, n) == 2 * p);
        }
    }
}

/// Making room changes where the unconsumed bytes lie, and not which they
/// are; there is room afterwards; and the capacity is what it was, unless
/// the unconsumed bytes alone filled the storage: then it is doubled.
pub proof fn lemma_make_room_keeps_window(w: WindowModel)
    requires
        w.wf(),
    ensures
        w.make_room().wf(),
        w.make_room().window() == w.window(),
        w.make_room().room() > 0,
        w.len() < w.capacity ==> w.make_room().capacity == w.capacity,
        w.len() == w.capacity && w.capacity > 0 ==> w.make_room().capacity == 2 * w.capacity,
        w.len() == w.capacity && w.capacity == 0 ==> w.make_room().capacity == 1,
{
    lemma_reserve_keeps_window(w, 1);
    if w.len() == w.capacity && w.capacity > 0 {
        assert(doubled_up_to(w.capacity, w.capacity + 1) == doubled_up_to(
            2 * w.capacity,
            w.capacity + 1,
        ));
    }
}

/// Appending puts the bytes behind the unconsumed ones, all of them.
pub proof fn lemma_append_extends_window(w: WindowModel, data: Seq<u8>)
    requires
        w.wf(),
    ensures
        w.append(data).wf(),
        w.append(data).window() == w.window() + data,
        w.append(data).len() == w.len() + data.len(),
{
    lemma_reserve_keeps_window(w, data.len());
    assert(w.append(data).window() =~= w.reserve_for(data.len()).window() + data);
}

/// A block of storage with a range of unconsumed bytes.
pub struct ByteWindow {
    storage: Vec<u8>,
    start: usize,
    capacity: usize,
}

impl View for ByteWindow {
    type V = WindowModel;

    closed spec fn view(&self) -> WindowModel {
        WindowModel {
            bytes: self.storage@,
            start: self.start as nat,
            capacity: self.capacity as nat,
        }
    }
}

impl ByteWindow {
    /// The window's invariant, which every constructor establishes and every
    /// method keeps: the model is well formed, a machine word counts the
    /// capacity, and the unconsumed bytes are no more than an allocation can
    /// hold.
    pub open spec fn wf(&self) -> bool {
        self@.wf() && self@.capacity <= usize::MAX && self@.len() <= isize::MAX
    }

    /// An empty window over storage reserved for `capacity` bytes, which are
    /// at most `isize::MAX`: no allocation can be larger.
    pub fn with_capacity(capacity: usize) -> (w: ByteWindow)
        requires
            capacity <= isize::MAX,
        ensures
            w.wf(),
            w@ == (WindowModel { bytes: Seq::empty(), start: 0, capacity: capacity as nat }),
    {
        ByteWindow { storage: Vec::with_capacity(capacity), start: 0, capacity }
    }

    /// The unconsumed bytes.
    pub fn window(&self) -> (w: &[u8])
        requires
            self.wf(),
        ensures
            w@ == self@.window(),
    {
        slice_subrange(self.storage.as_slice(), self.start, self.storage.len())
    }

    /// Number of unconsumed bytes.
    pub fn len(&self) -> (n: usize)
        requires
            self.wf(),
        ensures
            n == self@.len(),
    {
        self.storage.len() - self.start
    }

    /// The bytes that the storage is reserved for.
    pub fn capacity(&self) -> (n: usize)
        ensures
            n == self@.capacity,
    {
        self.capacity
    }

    /// Free storage behind the last valid byte.
    pub fn room(&self) -> (n: usize)
        requires
            self.wf(),
        ensures
            n == self@.room(),
    {
        self.capacity - self.storage.len()
    }

    /// Takes `n` bytes from the front of the window, or all of them if it
    /// holds fewer.
    pub fn consume(&mut self, n: usize)
        requires
            old(self).wf(),
        ensures
            final(self).wf(),
            final(self)@ == old(self)@.consume(n as nat),
    {
        let len = self.storage.len() - self.start;
        let taken = if n <= len { n } else { len };
        self.start = self.start + taken;
    }

    /// Forgets every byte, consumed or not.
    pub fn clear(&mut self)
        requires
            old(self).wf(),
        ensures
            final(self).wf(),
            final(self)@ == old(self)@.clear(),
    {
        self.start = 0;
        self.storage.clear();
    }

    /// Shifts the unconsumed bytes to the front of the storage.
    fn compact(&mut self)
        requires
            old(self).wf(),
        ensures
            final(self).wf(),
            final(self)@ == old(self)@.compact(),
    {
        let start = self.start;
        let n = self.storage.len() - start;
        let ghost before = self.storage@;
        if start > 0 {
            let mut i: usize = 0;
            while i < n
                invariant
                    self.start == start,
                    self.capacity == old(self).capacity,
                    self.storage@.len() == before.len(),
                    0 < start <= before.len() <= usize::MAX,
                    n == before.len() - start,
                    i <= n,
                    forall|j: int| 0 <= j < i ==> self.storage@[j] == before[start + j],
                    forall|j: int| i <= j < before.len() ==> self.storage@[j] == before[j],
                decreases n - i,
            {
                let byte = self.storage[start + i];
                self.storage[i] = byte;
                i = i + 1;
            }
            self.storage.truncate(n);
            self.start = 0;
        }
        assert(self.storage@ =~= before.subrange(start as int, before.len() as int));
    }

    /// Makes room for a fill and returns the free storage behind the last
    /// valid byte, which is not zero. A window whose storage is full has
    /// its unconsumed bytes shifted to the front; one whose unconsumed bytes
    /// fill the whole storage gets twice the capacity.
    pub fn ensure_room_for_fill(&mut self) -> (room: usize)
        requires
            old(self).wf(),
        ensures
            final(self).wf(),
            final(self)@ == old(self)@.make_room(),
            final(self)@.window() == old(self)@.window(),
            room == final(self)@.room(),
            room > 0,
    {
        proof {
            lemma_make_room_keeps_window(self@);
        }
        if self.storage.len() == self.capacity {
            self.compact();
            if self.storage.len() == self.capacity {
                self.capacity = if self.capacity == 0 {
                    1
                } else {
                    2 * self.capacity
                };
            }
        }
        self.capacity - self.storage.len()
    }

    /// Appends `data` behind the last valid byte, all of it, making room
    /// first where there is not enough: by shifting the unconsumed bytes to
    /// the front, and by doubling the capacity until it is enough. The
    /// window must not come to hold more than an allocation can.
    pub fn append(&mut self, data: &[u8])
        requires
            old(self).wf(),
            old(self)@.len() + data@.len() <= isize::MAX,
        ensures
            final(self).wf(),
            final(self)@ == old(self)@.append(data@),
            final(self)@.window() == old(self)@.window() + data@,
    {
        proof {
            lemma_append_extends_window(self@, data@);
            lemma_reserve_keeps_window(self@, data@.len());
        }
        let n = data.len();
        if n > self.capacity - self.storage.len() {
            self.compact();
            let needed = self.storage.len() + n;
            if needed > self.capacity {
                let mut cap: usize = if self.capacity == 0 {
                    1
                } else {
                    self.capacity
                };
                let ghost first = cap;
                while cap < needed
                    invariant
                        1 <= cap,
                        needed <= isize::MAX,
                        doubled_up_to(cap as nat, needed as nat) == doubled_up_to(
                            first as nat,
                            needed as nat,
                        ),
                    decreases usize::MAX - cap,
                {
                    cap = 2 * cap;
                }
                self.capacity = cap;
            }
        }
        let ghost reserved = self.storage@;
        let mut i: usize = 0;
        while i < n
            invariant
                self@.start == old(self)@.reserve_for(n as nat).start,
                self@.capacity == old(self)@.reserve_for(n as nat).capacity,
                reserved == old(self)@.reserve_for(n as nat).bytes,
                n == data@.len(),
                reserved.len() + n <= self.capacity,
                i <= n,
                self.storage@ == reserved + data@.subrange(0, i as int),
            decreases n - i,
        {
            self.storage.push(data[i]);
            i = i + 1;
            assert(self.storage@ =~= reserved + data@.subrange(0, i as int));
        }
        assert(data@.subrange(0, n as int) =~= data@);
    }
}

} // verus!
