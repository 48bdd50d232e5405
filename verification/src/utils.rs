//! Base64 and UTF-8 conversions at the caller boundary: key material
//! arrives base64-encoded, and all byte-valued results leave base64-encoded.

use vstd::prelude::*;
use vstd::utf8::{valid_utf8, encode_utf8};
use base64::Engine;

verus! {

/// The base64 text (standard alphabet, padded) that encodes `bytes`.
pub uninterp spec fn b64_encoding(bytes: Seq<u8>) -> Seq<char>;

/// Relies on base64's `STANDARD` engine `encode`: the text returned is a
/// function of the bytes alone.
#[verifier::external_body]
pub fn base64_encode(input: &[u8]) -> (r: String)
    ensures
        r@ == b64_encoding(input@),
{
    base64::engine::general_purpose::STANDARD.encode(input)
}

/// Relies on base64's `STANDARD` engine `decode`: it accepts exactly the
/// canonical padded encodings (its config requires canonical padding and
/// rejects nonzero trailing bits) and inverts `encode`.
#[verifier::external_body]
pub fn base64_decode(input: &str) -> (r: Result<Vec<u8>, String>)
    ensures
        r is Ok ==> input@ == b64_encoding(r->Ok_0@),
        forall|b: Seq<u8>| input@ == b64_encoding(b) ==> r is Ok && r->Ok_0@ == b,
{
    base64::engine::general_purpose::STANDARD.decode(input).map_err(|e| e.to_string())
}

/// Relies on String::from_utf8: it succeeds exactly on valid UTF-8 and the
/// returned text has the given bytes as its UTF-8 form.
#[verifier::external_body]
pub(crate) fn utf8_to_string(bytes: Vec<u8>) -> (r: Result<String, String>)
    ensures
        r is Ok <==> valid_utf8(bytes@),
        r is Ok ==> encode_utf8(r->Ok_0@) == bytes@,
{
    String::from_utf8(bytes).map_err(|e| e.to_string())
}

/// Decodes base64-carried key material into the in-memory UTF-8 PEM text
/// that authentication requires: it succeeds exactly when the text is the
/// canonical encoding of valid UTF-8 bytes, and then returns the text with
/// those bytes.
pub fn decode_key_material(b64: &str) -> (r: Result<String, crate::storage::StorageError>)
    ensures
        r is Ok ==> b64@ == b64_encoding(encode_utf8(r->Ok_0@)),
        (exists|b: Seq<u8>| b64@ == #[trigger] b64_encoding(b) && valid_utf8(b)) <==> r is Ok,
        r is Err ==> r->Err_0 is Decode,
{
    let bytes = match base64_decode(b64) {
        Ok(v) => v,
        Err(m) => {
            proof {
                assert forall|b: Seq<u8>| !(b64@ == #[trigger] b64_encoding(b) && valid_utf8(
                    b,
                )) by {}
            }
            return Err(crate::storage::StorageError::Decode(m));
        },
    };
    match utf8_to_string(bytes) {
        Ok(s) => Ok(s),
        Err(m) => {
            proof {
                assert forall|b: Seq<u8>| b64@ == #[trigger] b64_encoding(b) implies !valid_utf8(
                    b,
                ) by {}
            }
            Err(crate::storage::StorageError::Decode(m))
        },
    }
}

/// Round trip at the encoded boundary: decoding what was just encoded gives
/// back exactly the original bytes, whatever they are.
pub fn base64_round_trip(input: &[u8]) -> (r: Vec<u8>)
    ensures
        r@ == input@,
{
    let encoded = base64_encode(input);
    match base64_decode(encoded.as_str()) {
        Ok(v) => v,
        Err(_) => {
            proof {
                assert(false);
            }
            unreached()
        },
    }
}

} // verus!
