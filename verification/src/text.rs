//! Text recovery from wire bytes. Decoding is lossy: invalid UTF-8
//! sequences are replaced, never rejected, so decoding cannot fail.

use vstd::prelude::*;

use vstd::utf8::{decode_utf8, valid_utf8};

verus! {

/// The characters `String::from_utf8_lossy` recovers from a byte
/// sequence. On valid UTF-8 this is exactly `decode_utf8`; on invalid
/// input it is the same bytes with each invalid sequence replaced, a
/// function of the bytes alone.
pub uninterp spec fn lossy_decode(bytes: Seq<u8>) -> Seq<char>;

/// Relies on `String::from_utf8_lossy`: the result is a function of the
/// bytes alone, and on valid UTF-8 it is the exact decoding, unchanged
/// (documented: "no replacement is done" when the bytes are valid).
#[verifier::external_body]
pub fn utf8_lossy(bytes: &[u8]) -> (s: String)
    ensures
        s@ == lossy_decode(bytes@),
        valid_utf8(bytes@) ==> s@ == decode_utf8(bytes@),
        bytes@.len() == 0 ==> s@.len() == 0,
{
    String::from_utf8_lossy(bytes).to_string()
}

} // verus!
