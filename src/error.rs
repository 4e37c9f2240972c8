//! The library's error type.

use vstd::prelude::*;

verus! {

/// Why a content hash could not be decoded, or a name was refused.
#[derive(Debug, PartialEq, Eq)]
pub enum WiseError {
    /// The input is not `0x` followed by an even number of hex digits.
    InvalidHexEncoding,
    /// The input is shorter than its scheme's header.
    TruncatedInput,
    /// A text payload is not valid UTF-8.
    InvalidUtf8Payload,
    /// A name given on the command line does not end in `.eth`.
    InvalidArgvName(String),
}

} // verus!
