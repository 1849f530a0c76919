//! The content classifier: a byte payload is text exactly when it is a
//! valid UTF-8 encoding end to end; anything else is binary. Classification
//! is recomputed from the bytes on every read and stored nowhere.

use vstd::prelude::*;
use vstd::utf8::decode_utf8;
use vstd::utf8::encode_utf8;
use vstd::utf8::valid_utf8;

verus! {

/// The classification of a byte payload: the decoded text, or binary.
pub enum Classification {
    Text(String),
    Binary,
}

/// What classification the bytes call for: the decoded characters when the
/// bytes are a valid UTF-8 encoding, nothing otherwise. A total function of
/// the bytes alone.
pub open spec fn spec_classify(bytes: Seq<u8>) -> Option<Seq<char>> {
    if valid_utf8(bytes) {
        Some(decode_utf8(bytes))
    } else {
        None
    }
}

/// Relies on `core::str::from_utf8`: it returns `Ok` exactly when the bytes
/// are a valid UTF-8 encoding, and the returned string consists of the
/// characters that the bytes encode.
#[verifier::external_body]
fn utf8_to_str(bytes: &[u8]) -> (r: Option<&str>)
    ensures
        r is Some <==> valid_utf8(bytes@),
        r matches Some(s) ==> s@ == decode_utf8(bytes@),
{
    core::str::from_utf8(bytes).ok()
}

/// Decides whether a byte payload is text or binary. The payload is text
/// exactly when it decodes end to end as UTF-8, in which case the decoded
/// string is returned.
pub fn classify(bytes: &[u8]) -> (c: Classification)
    ensures
        match c {
            Classification::Text(s) => spec_classify(bytes@) == Some(s@),
            Classification::Binary => spec_classify(bytes@) is None,
        },
{
    match utf8_to_str(bytes) {
        Some(s) => Classification::Text(s.to_owned()),
        None => Classification::Binary,
    }
}

/// Classification is total and deterministic — `spec_classify` is a function
/// of the bytes alone — and exact: bytes classified as text re-encode to the
/// original bytes (round trip), and an invalid byte sequence is never
/// reported as text.
pub proof fn lemma_classification_exact(bytes: Seq<u8>)
    ensures
        spec_classify(bytes) is Some <==> valid_utf8(bytes),
        spec_classify(bytes) matches Some(s) ==> encode_utf8(s) == bytes,
{
    broadcast use vstd::utf8::decode_utf8_encode_utf8;

}

/// Every character sequence, once encoded, classifies as text and decodes
/// back to itself: no text is ever misreported as binary or altered.
pub proof fn lemma_classification_of_text(s: Seq<char>)
    ensures
        spec_classify(encode_utf8(s)) == Some(s),
{
    broadcast use vstd::utf8::encode_utf8_valid_utf8;
    broadcast use vstd::utf8::encode_utf8_decode_utf8;

}

} // verus!
