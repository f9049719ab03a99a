//! The failures of decoding and of rendering.

use vstd::prelude::*;

verus! {

/// Why a buffer could not be decoded, or a decoded value not be used.
#[derive(Clone, Copy, Debug, PartialEq, Eq, Structural)]
pub enum ParserError {
    /// The buffer ended inside a field.
    UnexpectedBufferEnd,
    /// A type discriminant is not the one the format asks for at this place.
    InvalidTypeId,
    /// A list of outputs is longer than a visibility mask can track.
    TooManyOutputs,
    /// The stake outputs do not add up to the validator's weight.
    InvalidStakingAmount,
    /// An amount computation left the 64-bit range.
    OperationOverflows,
    /// No visible output holds the requested item.
    DisplayIdxOutOfRange,
    /// A signature threshold exceeds the number of addresses it ranges over.
    InvalidThreshold,
    /// The network identifier has no known address prefix.
    InvalidNetworkId,
    /// An address could not be encoded for display.
    InvalidAddress,
}

/// Why an item could not be rendered.
#[derive(Clone, Copy, Debug, PartialEq, Eq, Structural)]
pub enum ViewError {
    /// The item exists but cannot be shown: its value cannot be computed or
    /// encoded, the page is out of range, or a buffer is too small.
    Unknown,
    /// There is no item with the requested index.
    NoData,
}

} // verus!
