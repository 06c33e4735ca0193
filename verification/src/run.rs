//! A whole parse, as a function of the parser and of what the source gives.
//!
//! The steps of a parse are decided one by one by `advance` and `filled`;
//! the caller's loop strings them together. `run` is that loop written once
//! and for all over a model of the source, so that what holds of every
//! parse can be stated and proved.

use crate::driver::{advance_model, filled_model, Delivery, Pending, Step};
use crate::error::Error;
use crate::outcome::ParseOutcome;
use crate::window::WindowModel;
use vstd::prelude::*;

verus! {

/// A parser, as a function of the bytes it is shown.
pub type ParserModel<O, E> = spec_fn(Seq<u8>) -> ParseOutcome<O, E>;

/// A byte source: the bytes it still has to give, and how it gives them.
pub struct SourceModel {
    /// The bytes that were not read yet.
    pub bytes: Seq<u8>,
    /// What the coming reads find, in order: so many bytes at hand, or an
    /// error. Behind the last entry every read finds all the bytes there
    /// are.
    pub reads: Seq<Result<nat, std::io::Error>>,
}

impl SourceModel {
    /// A source that gives `bytes` as fast as they are asked for.
    pub open spec fn whole(bytes: Seq<u8>) -> SourceModel {
        SourceModel { bytes, reads: Seq::empty() }
    }

    /// How many bytes a read for `request` bytes brings, where it does not
    /// fail: no more than were asked for, are at hand, or are left.
    pub open spec fn brings(self, request: nat) -> nat {
        let at_hand = if self.reads.len() > 0 && self.reads[0] is Ok {
            self.reads[0]->Ok_0
        } else {
            self.bytes.len()
        };
        let most = if at_hand <= self.bytes.len() {
            at_hand
        } else {
            self.bytes.len()
        };
        if request <= most {
            request
        } else {
            most
        }
    }

    /// What a read for `request` bytes brings.
    pub open spec fn read(self, request: nat) -> Delivery {
        if self.reads.len() > 0 && self.reads[0] is Err {
            Err(self.reads[0]->Err_0)
        } else {
            Ok(self.bytes.subrange(0, self.brings(request) as int))
        }
    }

    /// The source after a read for `request` bytes.
    pub open spec fn after_read(self, request: nat) -> SourceModel {
        let reads = if self.reads.len() > 0 {
            self.reads.skip(1)
        } else {
            self.reads
        };
        if self.reads.len() > 0 && self.reads[0] is Err {
            SourceModel { bytes: self.bytes, reads }
        } else {
            SourceModel { bytes: self.bytes.skip(self.brings(request) as int), reads }
        }
    }

    /// Every read that is scheduled brings at least one byte while any is
    /// left, and none fails.
    pub open spec fn steady(self) -> bool {
        forall|i: int|
            0 <= i < self.reads.len() ==> ((#[trigger] self.reads[i]) matches Ok(n) && n > 0)
    }
}

/// A parse that has ended.
pub struct Finish<O, E> {
    /// The window as the parse left it.
    pub window: WindowModel,
    /// What the source has left to give.
    pub source: SourceModel,
    /// The value, or why there is none.
    pub result: Result<O, Error<E>>,
    /// How often the source was read.
    pub fills: nat,
}

/// The fills that a parse can still make at most: one for every byte that
/// the source has left, and one that finds its end.
pub open spec fn steps_left(pending: Pending, source: SourceModel) -> nat {
    source.bytes.len() + if pending is Ready {
        1nat
    } else {
        0nat
    }
}

/// The parse that starts with the window `w`, after a fill that left
/// `pending`, over the source `source`: the parser is run on the window,
/// `advance` decides, the source is read where a fill is asked for, and so on
/// until `advance` ends the parse.
pub open spec fn run<O, E>(
    parser: ParserModel<O, E>,
    w: WindowModel,
    pending: Pending,
    source: SourceModel,
) -> Finish<O, E>
    decreases steps_left(pending, source),
{
    let (w1, step) = advance_model(w, pending, parser(w.window()));
    match step {
        Step::Finished(result) => Finish { window: w1, source, result, fills: 0 },
        Step::Fill(request) => {
            let (w2, pending2) = filled_model(w1, source.read(request as nat));
            let rest = run(parser, w2, pending2, source.after_read(request as nat));
            Finish { fills: rest.fills + 1, ..rest }
        },
    }
}

} // verus!
