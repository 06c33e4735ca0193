//! What a parser reports of a window of bytes.

use crate::error::Error;
use vstd::prelude::*;

verus! {

/// The answer of a parser to the unconsumed bytes it was shown.
#[derive(Debug)]
pub enum ParseOutcome<O, E> {
    /// A value was parsed from the first bytes of the window, as many as the
    /// first field says.
    Done(usize, O),
    /// The window does not start any value that the parser accepts.
    Recoverable(E),
    /// The parser gave up for good.
    Fatal(E),
    /// The window starts a value and ends before the value does. The field,
    /// where there is one, estimates how many bytes are missing.
    NeedMore(Option<usize>),
}

/// What an outcome asks of a reader, whatever buffer it keeps: to consume
/// so many bytes and return the value, to return the parser's error, or,
/// with `None`, to read more and run the parser again.
pub open spec fn settled<O, E>(outcome: ParseOutcome<O, E>) -> Result<
    Option<(usize, O)>,
    Error<E>,
> {
    match outcome {
        ParseOutcome::Done(used, value) => Ok(Some((used, value))),
        ParseOutcome::Recoverable(e) => Err(Error::Error(e)),
        ParseOutcome::Fatal(e) => Err(Error::Failure(e)),
        ParseOutcome::NeedMore(_) => Ok(None),
    }
}

impl<O, E> ParseOutcome<O, E> {
    /// What the outcome asks of a reader that keeps a buffer of its own: to
    /// consume so many bytes and return the value, to return the parser's
    /// error, or, with `None`, to read more and run the parser again.
    pub fn into_result(self) -> (r: Result<Option<(usize, O)>, Error<E>>)
        ensures
            r == settled(self),
    {
        match self {
            ParseOutcome::Done(used, value) => Ok(Some((used, value))),
            ParseOutcome::Recoverable(e) => Err(Error::Error(e)),
            ParseOutcome::Fatal(e) => Err(Error::Failure(e)),
            ParseOutcome::NeedMore(_) => Ok(None),
        }
    }
}

} // verus!
