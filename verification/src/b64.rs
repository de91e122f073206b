//! Standard base64, through the `base64` crate.  The encoding function is
//! named, not restated: `b64_of` stands for the standard alphabet with
//! padding, and the decoder is trusted to invert it.

use vstd::prelude::*;

use base64::Engine;

verus! {

/// What `base64::engine::general_purpose::STANDARD` encodes a byte string
/// to: the RFC 4648 standard alphabet, with padding.
pub uninterp spec fn b64_of(bytes: Seq<u8>) -> Seq<char>;

/// The error type base64 decoding reports.
#[verifier::external_type_specification]
#[verifier::external_body]
pub struct ExDecodeError(base64::DecodeError);

/// Relies on base64's STANDARD engine: `encode` produces the standard
/// padded encoding of its input, a function of the bytes alone.
#[verifier::external_body]
pub fn b64_encode(bytes: &Vec<u8>) -> (r: String)
    ensures
        r@ == b64_of(bytes@),
{
    base64::engine::general_purpose::STANDARD.encode(bytes)
}

/// Relies on base64's STANDARD engine: `decode` inverts `encode`.  The
/// engine demands canonical padding and rejects non-zero trailing bits, so
/// it accepts exactly the canonical encodings: an input that is the
/// standard padded encoding of some byte string decodes to that byte
/// string, and a successfully decoded input is the standard padded
/// encoding of what it decoded to.
#[verifier::external_body]
pub fn b64_decode(s: &str) -> (r: Result<Vec<u8>, base64::DecodeError>)
    ensures
        r matches Err(_) ==> forall|bytes: Seq<u8>| s@ != b64_of(bytes),
        r matches Ok(d) ==> s@ == b64_of(d@),
        r matches Ok(d) ==> forall|bytes: Seq<u8>| s@ == b64_of(bytes) ==> d@ == bytes,
{
    base64::engine::general_purpose::STANDARD.decode(s)
}

} // verus!
