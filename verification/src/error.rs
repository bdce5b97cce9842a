use vstd::prelude::*;

verus! {

/// The two ways in which decoding can fail.
#[derive(Debug, PartialEq, Eq, Clone)]
pub enum BitcoinError {
    /// A decoding step needed more bytes than the input holds at that point.
    InsufficientBytes,
    /// The input is complete but is not what the format asks for.
    InvalidFormat,
}

} // verus!
