//! A byte source held in memory, and the parse over it.
//!
//! The source gives its bytes in pieces whose sizes are fixed beforehand, as
//! a stream would that delivers its data in packets. A parse over it needs
//! nothing from outside, so its loop is written out here, and what it
//! returns is what `run` says.

use crate::driver::{advance_model, delivery_of, filled_model, Pending, Step};
use crate::error::Error;
use crate::laws::lemma_fill_fits;
use crate::outcome::ParseOutcome;
use crate::reader::BufReader;
use crate::run::{run, steps_left, Finish, ParserModel, SourceModel};
use crate::window::{lemma_append_extends_window, lemma_make_room_keeps_window};
use vstd::prelude::*;
use vstd::slice::{slice_subrange, slice_to_vec};

verus! {

/// Bytes in memory that are read in pieces of scheduled sizes.
pub struct MemorySource {
    bytes: Vec<u8>,
    pos: usize,
    pieces: Vec<usize>,
    next: usize,
}

impl View for MemorySource {
    type V = SourceModel;

    closed spec fn view(&self) -> SourceModel {
        SourceModel {
            bytes: self.bytes@.skip(self.pos as int),
            reads: Seq::new(
                (self.pieces@.len() - self.next) as nat,
                |i: int| Ok(self.pieces@[self.next + i] as nat),
            ),
        }
    }
}

/// The schedule of reads that brings pieces of these sizes.
pub open spec fn schedule(pieces: Seq<usize>) -> Seq<Result<nat, std::io::Error>> {
    Seq::new(pieces.len(), |i: int| Ok(pieces[i] as nat))
}

impl MemorySource {
    /// The source's invariant: it has read no more than it holds.
    pub closed spec fn wf(&self) -> bool {
        self.pos <= self.bytes@.len() && self.next <= self.pieces@.len()
    }

    /// A source that gives `bytes`, one piece of each size in `pieces` per
    /// read and, once those are used up, whatever is asked for. A piece of
    /// size zero is a read that finds nothing.
    pub fn new(bytes: Vec<u8>, pieces: Vec<usize>) -> (source: MemorySource)
        ensures
            source.wf(),
            source@.bytes == bytes@,
            source@.reads == schedule(pieces@),
    {
        let source = MemorySource { bytes, pos: 0, pieces, next: 0 };
        assert(source@.bytes =~= bytes@);
        assert(source@.reads =~= schedule(pieces@));
        source
    }

    /// How many bytes were not read yet.
    pub fn remaining(&self) -> (n: usize)
        requires
            self.wf(),
        ensures
            n == self@.bytes.len(),
    {
        self.bytes.len() - self.pos
    }

    /// Reads up to `request` bytes: no more than the next piece holds.
    pub fn read(&mut self, request: usize) -> (data: Vec<u8>)
        requires
            old(self).wf(),
        ensures
            final(self).wf(),
            old(self)@.read(request as nat) == Ok::<Seq<u8>, std::io::Error>(data@),
            final(self)@ == old(self)@.after_read(request as nat),
    {
        let left = self.bytes.len() - self.pos;
        let ghost before = self@;
        let at_hand = if self.next < self.pieces.len() {
            let piece = self.pieces[self.next];
            assert(before.reads[0] == Ok::<nat, std::io::Error>(piece as nat));
            self.next = self.next + 1;
            piece
        } else {
            left
        };
        let most = if at_hand <= left {
            at_hand
        } else {
            left
        };
        let n = if request <= most {
            request
        } else {
            most
        };
        assert(n == before.brings(request as nat));
        let data = slice_to_vec(slice_subrange(self.bytes.as_slice(), self.pos, self.pos + n));
        self.pos = self.pos + n;
        assert(data@ =~= before.bytes.subrange(0, n as int));
        assert(self@.bytes =~= before.bytes.skip(n as int));
        assert(self@.reads =~= before.after_read(request as nat).reads);
        data
    }
}

/// The parser answers as `model` does: whatever it returns for a window is
/// what `model` gives for the window's bytes.
pub open spec fn answers_as<O, E, P: Fn(&[u8]) -> ParseOutcome<O, E>>(
    parser: P,
    model: ParserModel<O, E>,
) -> bool {
    forall|window: &[u8], outcome: ParseOutcome<O, E>|
        call_ensures(parser, (window,), outcome) ==> outcome == model(window@)
}

/// Two parses end alike: with the same result, window and source, after
/// however many fills.
pub open spec fn same_end<O, E>(a: Finish<O, E>, b: Finish<O, E>) -> bool {
    a.result == b.result && a.window == b.window && a.source == b.source
}

impl BufReader<MemorySource> {
    /// Runs `parser` on the buffered bytes, reading from the source whenever
    /// the parser asks for more, until the parse ends. For a parser that is
    /// a function of the bytes it is shown, the result, the window and the
    /// source are afterwards what `run` gives for that function. The bytes
    /// of window and source together must be no more than an allocation can
    /// hold.
    pub fn parse<O, E, P: Fn(&[u8]) -> ParseOutcome<O, E>>(&mut self, parser: P) -> (result:
        Result<O, Error<E>>)
        requires
            old(self).wf(),
            old(self).source().wf(),
            old(self)@.len() + old(self).source()@.bytes.len() <= isize::MAX,
            forall|window: &[u8]| call_requires(parser, (window,)),
        ensures
            final(self).wf(),
            final(self).source().wf(),
            forall|model: ParserModel<O, E>|
                answers_as(parser, model) ==> {
                    let whole = #[trigger] run(
                        model,
                        old(self)@,
                        Pending::Ready,
                        old(self).source()@,
                    );
                    &&& result == whole.result
                    &&& final(self)@ == whole.window
                    &&& final(self).source()@ == whole.source
                },
    {
        let ghost w0 = self@;
        let ghost s0 = self.source()@;
        let mut pending = Pending::Ready;
        loop
            invariant
                self.wf(),
                self.source().wf(),
                w0 == old(self)@,
                s0 == old(self).source()@,
                self@.len() + self.source()@.bytes.len() <= isize::MAX,
                forall|window: &[u8]| call_requires(parser, (window,)),
                forall|model: ParserModel<O, E>|
                    answers_as(parser, model) ==> same_end(
                        run(model, self@, pending, self.source()@),
                        #[trigger] run(model, w0, Pending::Ready, s0),
                    ),
            decreases steps_left(pending, self.source()@),
        {
            let ghost w = self@;
            let ghost p = pending;
            let ghost s = self.source()@;
            proof {
                self.lemma_parts();
                self.lemma_wf();
                lemma_make_room_keeps_window(w);
            }
            let outcome = parser(self.buffer());
            let ghost shown = outcome;
            let step = self.advance(pending, outcome);
            let ghost w1 = self@;
            proof {
                self.lemma_parts();
            }
            match step {
                Step::Finished(result) => {
                    proof {
                        assert forall|model: ParserModel<O, E>|
                            answers_as(parser, model) implies result == (#[trigger] run(
                            model,
                            w0,
                            Pending::Ready,
                            s0,
                        )).result && self@ == run(model, w0, Pending::Ready, s0).window
                            && self.source()@ == run(model, w0, Pending::Ready, s0).source by {
                            assert(shown == model(w.window()));
                            let now = run(model, w, p, s);
                            assert(now.result == result && now.window == w1 && now.source == s);
                        }
                    }
                    return result;
                },
                Step::Fill(request) => {
                    let chunk = self.inner.read(request);
                    proof {
                        self.lemma_parts();
                    }
                    let fill: Result<&[u8], std::io::Error> = Ok(chunk.as_slice());
                    let ghost delivery = delivery_of(fill);
                    pending = self.filled(fill);
                    proof {
                        self.lemma_parts();
                        lemma_append_extends_window(w1, chunk@);
                        lemma_fill_fits(w, p, shown);
                        assert(delivery == s.read(request as nat));
                        assert forall|model: ParserModel<O, E>|
                            answers_as(parser, model) implies same_end(
                            run(model, self@, pending, self.source()@),
                            #[trigger] run(model, w0, Pending::Ready, s0),
                        ) by {
                            assert(shown == model(w.window()));
                            let now = run(model, w, p, s);
                            let next = run(model, self@, pending, self.source()@);
                            assert(same_end(now, next));
                        }
                    }
                },
            }
        }
    }
}

} // verus!
