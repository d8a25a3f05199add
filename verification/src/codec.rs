//! Text-safe body encoding.
//!
//! Captured request bodies are arbitrary bytes, but the store's
//! transport is text-oriented, so bodies travel in base64. The encoding
//! itself is done by the `base64` crate; its result is named by
//! [`b64_encoding`] and the decode direction is trusted to invert it.

use vstd::prelude::*;

verus! {

/// The standard base64 encoding (with padding) of a byte sequence, as
/// produced by `base64::encode`.
pub uninterp spec fn b64_encoding(b: Seq<u8>) -> Seq<char>;

/// Relies on `base64::encode`: standard alphabet with padding; the
/// result depends on the input bytes alone.
#[verifier::external_body]
pub(crate) fn b64_encode(b: &[u8]) -> (r: String)
    ensures
        r@ == b64_encoding(b@),
{
    base64::encode(b)
}

/// What `base64::decode` makes of a string: the decoded bytes, or
/// `None` where the string is no valid encoding. The result depends
/// on the characters alone.
pub uninterp spec fn b64_decoding(s: Seq<char>) -> Option<Seq<u8>>;

/// Relies on `base64::decode`: a pure function of its input that
/// inverts `base64::encode`, so a string that is the standard
/// encoding of some bytes decodes to exactly those bytes.
#[verifier::external_body]
pub(crate) fn b64_decode(s: &str) -> (r: Option<Vec<u8>>)
    ensures
        r is Some <==> b64_decoding(s@) is Some,
        r is Some ==> r->Some_0@ == b64_decoding(s@)->Some_0,
        forall|b: Seq<u8>| s@ == b64_encoding(b) ==> r is Some && r->Some_0@ == b,
{
    base64::decode(s).ok()
}

/// Round-trip law: decoding the text-safe encoding of any byte sequence
/// yields exactly that sequence. The body of an event therefore
/// survives capture and replay byte for byte.
pub fn decode_encoded(b: &[u8]) -> (r: Vec<u8>)
    ensures
        r@ == b@,
{
    let encoded = b64_encode(b);
    let decoded = b64_decode(encoded.as_str());
    decoded.unwrap()
}

} // verus!
