//! What a parse over a buffered source can fail with.

use vstd::prelude::*;

verus! {

/// The error of std's I/O functions, carried through as it came.
#[verifier::external_type_specification]
#[verifier::external_body]
pub struct ExIoError(std::io::Error);

/// Why a parse did not give a value.
#[derive(Debug)]
pub enum Error<E> {
    /// The parser rejected the bytes of the window.
    Error(E),
    /// The parser judged the stream beyond recovery.
    Failure(E),
    /// A fill of the window failed.
    Io(std::io::Error),
    /// The source ended while the parser still asked for more.
    Eof,
}

impl<E> From<std::io::Error> for Error<E> {
    fn from(e: std::io::Error) -> (r: Self) {
        Error::Io(e)
    }
}

impl<E> vstd::std_specs::convert::FromSpecImpl<std::io::Error> for Error<E> {
    open spec fn obeys_from_spec() -> bool {
        true
    }

    open spec fn from_spec(e: std::io::Error) -> Self {
        Error::Io(e)
    }
}

} // verus!
