//! Named results of the outside codecs the publish workflow leans on: the
//! SHA-256 digest, base64, and UTF-8 decoding. Each is a pure function of
//! its input; the library names the results and states nothing more of them.

use vstd::prelude::*;
use sha2::Digest;

verus! {

pub uninterp spec fn sha256_hex_of(data: Seq<u8>) -> Seq<char>;

/// Relies on sha2's Sha256: the digest of `data` in lowercase hex, a
/// function of the bytes alone; the 32-byte digest prints as 64 hex digits.
#[verifier::external_body]
pub(crate) fn sha256_hex(data: &[u8]) -> (r: String)
    ensures
        r@ == sha256_hex_of(data@),
        r@.len() == 64,
{
    format!("{:x}", sha2::Sha256::digest(data))
}

pub uninterp spec fn b64_of(data: Seq<u8>) -> Seq<char>;

/// Relies on base64::encode: the standard-alphabet encoding of `data`, a
/// function of the bytes alone.
#[verifier::external_body]
pub(crate) fn b64_encode(data: &[u8]) -> (r: String)
    ensures
        r@ == b64_of(data@),
{
    base64::encode(data)
}

pub uninterp spec fn b64_decode_of(s: Seq<char>) -> Option<Seq<u8>>;

/// Relies on base64::decode: the bytes `s` encodes, or nothing when `s` is
/// not valid base64; a function of the characters alone.
#[verifier::external_body]
pub(crate) fn b64_decode(s: &str) -> (r: Option<Vec<u8>>)
    ensures
        match r {
            Some(v) => b64_decode_of(s@) == Some(v@),
            None => b64_decode_of(s@) is None,
        },
{
    match base64::decode(s) {
        Ok(v) => Some(v),
        Err(_) => None,
    }
}

pub uninterp spec fn utf8_of(data: Seq<u8>) -> Option<Seq<char>>;

/// Relies on std's String::from_utf8: the text `data` encodes, or nothing
/// when it is not valid UTF-8; a function of the bytes alone.
#[verifier::external_body]
pub(crate) fn utf8_string(data: Vec<u8>) -> (r: Option<String>)
    ensures
        match r {
            Some(t) => utf8_of(data@) == Some(t@),
            None => utf8_of(data@) is None,
        },
{
    match String::from_utf8(data) {
        Ok(t) => Some(t),
        Err(_) => None,
    }
}

} // verus!
