//! The steps of one parse over a buffered source.
//!
//! A parse alternates two kinds of work that the reader does not do itself:
//! running the parser on the window, and reading from the source. The reader
//! decides what comes next. The caller runs the parser on `buffer()` and
//! hands the outcome to `advance`. That call ends the parse or asks for a
//! fill; the caller then reads as many bytes as were asked for, hands what
//! came to `filled`, and runs the parser again. What `filled` returns goes
//! into the next `advance`; the first one of a parse gets `Pending::Ready`.
//!
//! A fill that reports the end of the source, or fails, does not end the
//! parse at once: the parser is run once more on the bytes that are there,
//! and only if it still asks for more does the parse fail.

use crate::error::Error;
use crate::fill::{
    fill_request, fill_size, lemma_fill_size_bounds, parse_fill_request, parse_fill_size,
};
use crate::outcome::ParseOutcome;
use crate::reader::BufReader;
use crate::window::{
    lemma_append_extends_window, lemma_consume_monotonic, lemma_make_room_keeps_window,
    rest_after, WindowModel,
};
use vstd::prelude::*;

verus! {

/// What the last fill of this parse left to be reported.
#[derive(Debug)]
pub enum Pending {
    /// Nothing: no fill was made yet, or the last one brought bytes.
    Ready,
    /// The last fill brought no bytes: the source has ended.
    Eof,
    /// The last fill failed with this error.
    Failed(std::io::Error),
}

/// What the caller of `advance` is to do next.
#[derive(Debug)]
pub enum Step<O, E> {
    /// Read up to this many bytes from the source and hand the result to
    /// `filled`. The number is at least the default chunk.
    Fill(usize),
    /// The parse is over, with this result.
    Finished(Result<O, Error<E>>),
}

/// What a fill brought: the bytes read, none at the end of the source, or the
/// error of the read.
pub type Delivery = Result<Seq<u8>, std::io::Error>;

/// The window and the next step after a parser's outcome.
pub open spec fn advance_model<O, E>(
    w: WindowModel,
    pending: Pending,
    outcome: ParseOutcome<O, E>,
) -> (WindowModel, Step<O, E>) {
    match outcome {
        ParseOutcome::Done(n, value) => (w.consume(n as nat), Step::Finished(Ok(value))),
        ParseOutcome::Recoverable(e) => (w, Step::Finished(Err(Error::Error(e)))),
        ParseOutcome::Fatal(e) => (w, Step::Finished(Err(Error::Failure(e)))),
        ParseOutcome::NeedMore(hint) => match pending {
            Pending::Eof => (w, Step::Finished(Err(Error::Eof))),
            Pending::Failed(e) => (w, Step::Finished(Err(Error::Io(e)))),
            Pending::Ready => (w.make_room(), Step::Fill(parse_fill_size(hint) as usize)),
        },
    }
}

/// The window after a fill, and what the fill left to be reported.
pub open spec fn filled_model(w: WindowModel, delivery: Delivery) -> (WindowModel, Pending) {
    match delivery {
        Ok(data) => (
            w.append(data),
            if data.len() == 0 {
                Pending::Eof
            } else {
                Pending::Ready
            },
        ),
        Err(e) => (w, Pending::Failed(e)),
    }
}

/// The delivery that a fill's result stands for.
pub open spec fn delivery_of(fill: Result<&[u8], std::io::Error>) -> Delivery {
    match fill {
        Ok(data) => Ok(data@),
        Err(e) => Err(e),
    }
}

impl<R> BufReader<R> {
    /// Prepares a single fill: makes room in the window and says how many
    /// bytes to read: the parser's estimate rounded up to a power of two, or
    /// the default chunk without one.
    pub fn request_fill(&mut self, hint: Option<usize>) -> (request: usize)
        requires
            old(self).wf(),
        ensures
            final(self).wf(),
            final(self).source() == old(self).source(),
            final(self)@ == old(self)@.make_room(),
            final(self)@.window() == old(self)@.window(),
            request == fill_size(hint),
            request > 0,
    {
        proof {
            self.lemma_parts();
            lemma_fill_size_bounds(hint);
            lemma_make_room_keeps_window(self.window@);
        }
        self.window.ensure_room_for_fill();
        proof {
            self.lemma_parts();
        }
        fill_request(hint)
    }

    /// Takes the outcome of the parser on `buffer()` and decides the next
    /// step. `Done` consumes what the parser used and ends the parse with
    /// its value; `Recoverable` and `Fatal` end it with the parser's error
    /// and leave the window alone. `NeedMore` ends it where the last fill
    /// reported the end of the source or failed; otherwise it makes room and
    /// asks for a fill of at least the default chunk, whatever the parser's
    /// estimate.
    pub fn advance<O, E>(&mut self, pending: Pending, outcome: ParseOutcome<O, E>) -> (step: Step<
        O,
        E,
    >)
        requires
            old(self).wf(),
        ensures
            final(self).wf(),
            final(self).source() == old(self).source(),
            (final(self)@, step) == advance_model(old(self)@, pending, outcome),
            outcome matches ParseOutcome::Done(used, _) ==> final(self)@.window() == rest_after(
                old(self)@.window(),
                used as nat,
            ),
            !(outcome is Done) ==> final(self)@.window() == old(self)@.window(),
    {
        proof {
            self.lemma_parts();
            lemma_make_room_keeps_window(self.window@);
            if let ParseOutcome::Done(used, _) = outcome {
                lemma_consume_monotonic(self.window@, used as nat);
            }
        }
        let step = match outcome {
            ParseOutcome::Done(n, value) => {
                self.window.consume(n);
                Step::Finished(Ok(value))
            },
            ParseOutcome::Recoverable(e) => Step::Finished(Err(Error::Error(e))),
            ParseOutcome::Fatal(e) => Step::Finished(Err(Error::Failure(e))),
            ParseOutcome::NeedMore(hint) => match pending {
                Pending::Eof => Step::Finished(Err(Error::Eof)),
                Pending::Failed(e) => Step::Finished(Err(Error::Io(e))),
                Pending::Ready => {
                    proof {
                        lemma_fill_size_bounds(hint);
                    }
                    self.window.ensure_room_for_fill();
                    Step::Fill(parse_fill_request(hint))
                },
            },
        };
        proof {
            self.lemma_parts();
        }
        step
    }

    /// Takes what a fill brought. Bytes are appended to the window, all of
    /// them, and the window grows where it must; none means that the source
    /// has ended. An error is kept for the next `advance`. The window must
    /// not come to hold more than an allocation can.
    pub fn filled(&mut self, fill: Result<&[u8], std::io::Error>) -> (pending: Pending)
        requires
            old(self).wf(),
            fill matches Ok(data) ==> old(self)@.len() + data@.len() <= isize::MAX,
        ensures
            final(self).wf(),
            final(self).source() == old(self).source(),
            (final(self)@, pending) == filled_model(old(self)@, delivery_of(fill)),
            fill matches Ok(data) ==> final(self)@.window() == old(self)@.window() + data@,
            fill is Err ==> final(self)@ == old(self)@,
    {
        proof {
            self.lemma_parts();
            if let Ok(data) = fill {
                lemma_append_extends_window(self.window@, data@);
            }
        }
        let pending = match fill {
            Ok(data) => {
                self.window.append(data);
                if data.len() == 0 {
                    Pending::Eof
                } else {
                    Pending::Ready
                }
            },
            Err(e) => Pending::Failed(e),
        };
        proof {
            self.lemma_parts();
        }
        pending
    }
}

} // verus!
