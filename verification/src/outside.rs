//! Calls into other crates and into std whose results the library takes as they come.
//!
//! Every function here is believed, not proved: its contract says what the called function
//! does, and the rest of the library rests on it.

use base64::engine::general_purpose::URL_SAFE_NO_PAD;
use base64::Engine;
use sha2::Digest;
use vstd::prelude::*;

use crate::text::views;

verus! {

/// The SHA-256 digest of the bytes, as the `sha2` crate computes it.
pub uninterp spec fn sha256_digest(data: Seq<u8>) -> Seq<u8>;

/// `sha2::Sha256::digest`: the digest of the bytes, always 32 bytes long.
#[verifier::external_body]
pub(crate) fn sha256(data: &[u8]) -> (r: Vec<u8>)
    ensures
        r@ == sha256_digest(data@),
        r@.len() == 32,
{
    sha2::Sha256::digest(data).to_vec()
}

/// The URL-safe base64 text of the bytes, without padding, as the `base64` crate writes it.
pub uninterp spec fn base64url_text(data: Seq<u8>) -> Seq<char>;

/// The bytes that URL-safe base64 text without padding stands for, as the `base64` crate reads
/// it; `None` where it reports an error.
pub uninterp spec fn base64url_bytes(text: Seq<char>) -> Option<Seq<u8>>;

/// `base64::Engine::encode` with `URL_SAFE_NO_PAD`: the text is a function of the bytes, and
/// decoding it with the same engine gives the bytes back.
#[verifier::external_body]
pub(crate) fn base64url_encode(data: &[u8]) -> (r: String)
    ensures
        r@ == base64url_text(data@),
        base64url_bytes(r@) == Some(data@),
{
    URL_SAFE_NO_PAD.encode(data)
}

/// `base64::Engine::decode` with `URL_SAFE_NO_PAD`: the bytes, or `None` for its error, are a
/// function of the text.
#[verifier::external_body]
pub(crate) fn base64url_decode(text: &str) -> (r: Option<Vec<u8>>)
    ensures
        r is Some <==> base64url_bytes(text@) is Some,
        r matches Some(bytes) ==> base64url_bytes(text@) == Some(bytes@),
{
    URL_SAFE_NO_PAD.decode(text).ok()
}

/// The pairs of a list as character sequences.
pub open spec fn pair_views(v: Seq<(String, String)>) -> Seq<(Seq<char>, Seq<char>)> {
    v.map_values(|p: (String, String)| (p.0@, p.1@))
}

/// The JSON text of a list of strings, as the `serde_json` crate writes it.
pub uninterp spec fn strings_json(v: Seq<Seq<char>>) -> Seq<u8>;

/// The list of strings that JSON text stands for, as the `serde_json` crate reads it; `None` where
/// it reports an error.
pub uninterp spec fn json_strings(text: Seq<u8>) -> Option<Seq<Seq<char>>>;

/// `serde_json::to_vec` on a list of strings, which it always accepts: the bytes are a function
/// of the strings, and reading them with `serde_json::from_slice` gives the strings back.
#[verifier::external_body]
pub(crate) fn strings_to_json(v: &Vec<String>) -> (r: Vec<u8>)
    ensures
        r@ == strings_json(views(v@)),
        json_strings(r@) == Some(views(v@)),
{
    serde_json::to_vec(v).expect("a list of strings is JSON-serializable")
}

/// `serde_json::from_slice` for a list of strings: the strings, or `None` for its error, are a
/// function of the bytes.
#[verifier::external_body]
pub(crate) fn strings_from_json(text: &[u8]) -> (r: Option<Vec<String>>)
    ensures
        r is Some <==> json_strings(text@) is Some,
        r matches Some(strings) ==> json_strings(text@) == Some(views(strings@)),
{
    serde_json::from_slice(text).ok()
}

/// The JSON text of a list of string pairs, as the `serde_json` crate writes it.
pub uninterp spec fn pairs_json(v: Seq<(Seq<char>, Seq<char>)>) -> Seq<char>;

/// The list of string pairs that JSON text stands for, as the `serde_json` crate reads it;
/// `None` where it reports an error.
pub uninterp spec fn json_pairs(text: Seq<char>) -> Option<Seq<(Seq<char>, Seq<char>)>>;

/// `serde_json::to_string` on a list of string pairs, which it always accepts: the text is a
/// function of the pairs, and reading it with `serde_json::from_str` gives the pairs back.
#[verifier::external_body]
pub(crate) fn pairs_to_json(v: &Vec<(String, String)>) -> (r: String)
    ensures
        r@ == pairs_json(pair_views(v@)),
        json_pairs(r@) == Some(pair_views(v@)),
{
    serde_json::to_string(v).expect("a list of string pairs is JSON-serializable")
}

/// `serde_json::from_str` for a list of string pairs: the pairs, or `None` for its error, are a
/// function of the text.
#[verifier::external_body]
pub(crate) fn pairs_from_json(text: &str) -> (r: Option<Vec<(String, String)>>)
    ensures
        r is Some <==> json_pairs(text@) is Some,
        r matches Some(pairs) ==> json_pairs(text@) == Some(pair_views(pairs@)),
{
    serde_json::from_str(text).ok()
}

/// The text as std's `Debug` writes it: in double quotes, with escapes.
pub uninterp spec fn quoted_text(s: Seq<char>) -> Seq<char>;

/// `Debug` of `str`: the quoted text is a function of the text.
#[verifier::external_body]
pub(crate) fn quoted(s: &str) -> (r: String)
    ensures
        r@ == quoted_text(s@),
{
    format!("{s:?}")
}

/// A duration of whole nanoseconds in seconds, as std displays `Duration::as_secs_f64`.
pub uninterp spec fn seconds_text(nanos: u64) -> Seq<char>;

/// `Duration::as_secs_f64` of std, displayed: the text is a function of the duration.
#[verifier::external_body]
pub(crate) fn seconds(nanos: u64) -> (r: String)
    ensures
        r@ == seconds_text(nanos),
{
    format!("{}", std::time::Duration::from_nanos(nanos).as_secs_f64())
}

} // verus!
