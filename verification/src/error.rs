//! Error kinds returned by the codec.

use vstd::prelude::*;

verus! {

/// Everything that can go wrong while encoding or decoding.
#[derive(Clone, Copy, Debug, PartialEq, Eq, Structural)]
pub enum CodecError {
    /// A decoded type-code byte lies outside the defined set.
    UnknownTypeCode,
    /// A declared key, count, or payload length exceeds the remaining bytes.
    TruncatedBuffer,
    /// A key or string longer than the one-byte length prefix can carry.
    ValueTooLarge,
}

} // verus!
