//! Seeking a source that has a window of buffered bytes in front of it.
//!
//! The source stands behind the position that the reader's user has reached:
//! ahead of it by the unconsumed bytes of the window. A seek relative to the
//! user's position is therefore a seek of the source by that much less. The
//! reader plans the seeks; the caller performs them and clears the window
//! after each one that succeeded.

use crate::reader::BufReader;
use crate::window::WindowModel;
use vstd::prelude::*;

verus! {

/// Where to seek to.
#[derive(Clone, Copy, Debug, PartialEq, Eq, Structural)]
pub enum SeekFrom {
    /// So many bytes behind the start of the source.
    Start(u64),
    /// So many bytes behind its end.
    End(i64),
    /// So many bytes behind the position that the reader's user has reached.
    Current(i64),
}

/// The seeks of the source that carry out one seek of the reader.
#[derive(Clone, Copy, Debug, PartialEq, Eq, Structural)]
pub enum SeekPlan {
    /// This one seek, with the window cleared after it.
    Direct(SeekFrom),
    /// Two seeks relative to the source's position: the first, by `rewind`,
    /// takes the source back to where the reader's user is, and the window is
    /// cleared after it; the second, by `delta`, goes on from there. If the
    /// second fails, the source stays where the first one left it.
    Realign { rewind: i64, delta: i64 },
}

/// The position that the reader's user has reached in a source that stands
/// at `physical`.
pub open spec fn logical_position(w: WindowModel, physical: int) -> int {
    physical - w.len()
}

/// The plan for a seek to `pos` over the window `w`.
pub open spec fn plan_model(w: WindowModel, pos: SeekFrom) -> SeekPlan {
    match pos {
        SeekFrom::Current(delta) => if delta - w.len() >= i64::MIN {
            SeekPlan::Direct(SeekFrom::Current((delta - w.len()) as i64))
        } else {
            SeekPlan::Realign { rewind: (-(w.len() as int)) as i64, delta }
        },
        _ => SeekPlan::Direct(pos),
    }
}

impl SeekPlan {
    /// The plan moves the source relative to where it stands.
    pub open spec fn is_relative(self) -> bool {
        self is Realign || self matches SeekPlan::Direct(SeekFrom::Current(_))
    }

    /// Where a source that stands at `physical` is after the first seek of a
    /// relative plan.
    pub open spec fn after_first(self, physical: int) -> int {
        match self {
            SeekPlan::Direct(SeekFrom::Current(by)) => physical + by,
            SeekPlan::Realign { rewind, delta } => physical + rewind,
            _ => physical,
        }
    }

    /// Where a source that stands at `physical` is after every seek of a
    /// relative plan.
    pub open spec fn after_all(self, physical: int) -> int {
        match self {
            SeekPlan::Direct(SeekFrom::Current(by)) => physical + by,
            SeekPlan::Realign { rewind, delta } => physical + rewind + delta,
            _ => physical,
        }
    }
}

/// A seek relative to the user's position takes the source to that position
/// plus the offset, however many bytes the window holds; and where the plan
/// has two seeks, the first alone takes the source to the user's position.
/// With offset zero the source ends at the user's position.
pub proof fn lemma_seek_realigns(w: WindowModel, physical: int, delta: i64)
    requires
        w.wf(),
        w.len() <= i64::MAX,
    ensures
        plan_model(w, SeekFrom::Current(delta)).is_relative(),
        plan_model(w, SeekFrom::Current(delta)).after_all(physical) == logical_position(
            w,
            physical,
        ) + delta,
        plan_model(w, SeekFrom::Current(delta)) is Realign ==> plan_model(
            w,
            SeekFrom::Current(delta),
        ).after_first(physical) == logical_position(w, physical),
        delta == 0 ==> plan_model(w, SeekFrom::Current(delta)).after_all(physical)
            == logical_position(w, physical),
{
}

/// Two windows in front of one source, whose users have reached the same
/// position, send the source to the same place, whatever each holds.
pub proof fn lemma_seek_ignores_buffering(
    a: WindowModel,
    physical_a: int,
    b: WindowModel,
    physical_b: int,
    delta: i64,
)
    requires
        a.wf(),
        b.wf(),
        a.len() <= i64::MAX,
        b.len() <= i64::MAX,
        logical_position(a, physical_a) == logical_position(b, physical_b),
    ensures
        plan_model(a, SeekFrom::Current(delta)).after_all(physical_a) == plan_model(
            b,
            SeekFrom::Current(delta),
        ).after_all(physical_b),
{
    lemma_seek_realigns(a, physical_a, delta);
    lemma_seek_realigns(b, physical_b, delta);
}

impl<R> BufReader<R> {
    /// Plans the seeks of the source for a seek of the reader to `pos`. A
    /// seek from the start or the end goes to the source as it is. A seek
    /// from the current position is made shorter by the unconsumed bytes;
    /// where that leaves the range of offsets, the plan has two seeks.
    pub fn plan_seek(&self, pos: SeekFrom) -> (plan: SeekPlan)
        requires
            self.wf(),
        ensures
            plan == plan_model(self@, pos),
    {
        proof {
            self.lemma_parts();
        }
        match pos {
            SeekFrom::Current(delta) => {
                let remainder = self.window.len() as i64;
                match delta.checked_sub(remainder) {
                    Some(by) => SeekPlan::Direct(SeekFrom::Current(by)),
                    None => SeekPlan::Realign { rewind: -remainder, delta },
                }
            },
            _ => SeekPlan::Direct(pos),
        }
    }

    /// Forgets every buffered byte, consumed or not: what a seek of the
    /// source that succeeded asks for.
    pub fn clear(&mut self)
        requires
            old(self).wf(),
        ensures
            final(self).wf(),
            final(self).source() == old(self).source(),
            final(self)@ == old(self)@.clear(),
    {
        proof {
            self.lemma_parts();
        }
        self.window.clear();
        proof {
            self.lemma_parts();
        }
    }
}

} // verus!
