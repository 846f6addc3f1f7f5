//! Failure kinds reported by the decoders.

use vstd::prelude::*;
use vstd::std_specs::convert::FromSpecImpl;

verus! {

/// `std::io::Error`, carried through unopened: nothing is stated of what it
/// holds.
#[verifier::external_type_specification]
#[verifier::external_body]
pub struct ExIoError(std::io::Error);

/// Why a decoding step produced no scalar value.
#[derive(Debug)]
pub enum Error {
    /// The byte source failed; the transport's own error is inside.
    IoError(std::io::Error),
    /// The input ended before the sequence announced by a leading byte was
    /// complete.
    EofError,
    /// A failure that fits no other kind.
    Other(String),
    /// The bytes are not the UTF-8 form of a Unicode scalar value; the text
    /// says which rule was broken.
    Utf8Error(String),
}

impl From<std::io::Error> for Error {
    fn from(value: std::io::Error) -> (r: Self) {
        Error::IoError(value)
    }
}

impl FromSpecImpl<std::io::Error> for Error {
    open spec fn obeys_from_spec() -> bool {
        true
    }

    open spec fn from_spec(value: std::io::Error) -> Self {
        Error::IoError(value)
    }
}

} // verus!
