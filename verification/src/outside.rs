//! What the library has from outside crates and from the standard library.
//!
//! Nothing in this module is proved: each item states what its callers may rely
//! on.

use vstd::prelude::*;

use crate::text::{opt_item_views, opt_view};

verus! {

/// What `blake3::hash` gives for the bytes, in lowercase hexadecimal.
pub uninterp spec fn blake3_hex_of(bytes: Seq<u8>) -> Seq<char>;

/// Calls `blake3::hash` and `Hash::to_hex`: the digest of the bytes, a function of
/// the bytes alone, in hexadecimal.
#[verifier::external_body]
pub(crate) fn blake3_hex(bytes: &Vec<u8>) -> (r: String)
    ensures
        r@ == blake3_hex_of(bytes@),
{
    blake3::hash(bytes.as_slice()).to_hex().to_string()
}

/// The instant that `chrono::DateTime::parse_from_rfc3339` reads from a text: the
/// seconds since the epoch and the nanoseconds of the second; `None` where the text
/// is not a valid timestamp.
pub uninterp spec fn rfc3339_instant_of(text: Seq<char>) -> Option<(i64, u32)>;

/// Calls `chrono::DateTime::parse_from_rfc3339`, `timestamp` and
/// `timestamp_subsec_nanos`: the instant that the text names, a function of the text
/// alone.
#[verifier::external_body]
pub(crate) fn parse_rfc3339(text: &str) -> (r: Option<(i64, u32)>)
    ensures
        r == rfc3339_instant_of(text@),
{
    match chrono::DateTime::parse_from_rfc3339(text) {
        Ok(t) => Some((t.timestamp(), t.timestamp_subsec_nanos())),
        Err(_) => None,
    }
}

/// Calls `rand::thread_rng` and `RngCore::fill_bytes`: overwrites the bytes with
/// random ones. Which ones is left to chance; there are as many as before.
#[verifier::external_body]
pub(crate) fn fill_random(bytes: &mut Vec<u8>)
    ensures
        final(bytes)@.len() == old(bytes)@.len(),
{
    rand::RngCore::fill_bytes(&mut rand::thread_rng(), bytes.as_mut_slice())
}

/// Whether `serde_json::from_str` reads a value from a text.
pub uninterp spec fn json_valid_of(text: Seq<char>) -> bool;

/// Calls `serde_json::from_str` for a `serde_json::Value`: whether the text is JSON, a
/// function of the text alone.
#[verifier::external_body]
pub(crate) fn json_is_valid(text: &str) -> (r: bool)
    ensures
        r == json_valid_of(text@),
{
    serde_json::from_str::<serde_json::Value>(text).is_ok()
}

/// The integer that `serde_json` reads under a key of the object that a text is; `None`
/// where the text is not JSON or has no such integer there.
pub uninterp spec fn json_i64_of(text: Seq<char>, key: Seq<char>) -> Option<i64>;

/// Calls `serde_json::from_str`, `Value::get` and `Value::as_i64`: the integer under the
/// key, a function of the text and the key alone.
#[verifier::external_body]
pub(crate) fn json_i64_at(text: &str, key: &str) -> (r: Option<i64>)
    ensures
        r == json_i64_of(text@, key@),
{
    serde_json::from_str::<serde_json::Value>(text).ok()?.get(key)?.as_i64()
}

/// The string that `serde_json` reads under a key of the object that a text is; `None`
/// where the text is not JSON or has no string there.
pub uninterp spec fn json_str_of(text: Seq<char>, key: Seq<char>) -> Option<Seq<char>>;

/// Calls `serde_json::from_str`, `Value::get` and `Value::as_str`: the string under the
/// key, a function of the text and the key alone.
#[verifier::external_body]
pub(crate) fn json_str_at(text: &str, key: &str) -> (r: Option<String>)
    ensures
        opt_view(r) == json_str_of(text@, key@),
{
    serde_json::from_str::<serde_json::Value>(text).ok()?.get(key)?.as_str().map(str::to_owned)
}

/// The items that `serde_json` reads under a key of the object that a text is, where an
/// array stands there: of each item its string, or `None` where it is no string.
pub uninterp spec fn json_items_of(text: Seq<char>, key: Seq<char>) -> Option<
    Seq<Option<Seq<char>>>,
>;

/// Calls `serde_json::from_str`, `Value::get`, `Value::as_array` and, on each item,
/// `Value::as_str`: the items under the key, a function of the text and the key alone.
#[verifier::external_body]
pub(crate) fn json_items_at(text: &str, key: &str) -> (r: Option<Vec<Option<String>>>)
    ensures
        opt_item_views(r) == json_items_of(text@, key@),
{
    let value = serde_json::from_str::<serde_json::Value>(text).ok()?;
    let items = value.get(key)?.as_array()?;
    Some(items.iter().map(|v| v.as_str().map(str::to_owned)).collect())
}

/// The string that `serde_json` reads under a key of the object that stands under
/// another key of the object that a text is; `None` where the text is not JSON or has no
/// string there.
pub uninterp spec fn json_inner_of(text: Seq<char>, key: Seq<char>, inner: Seq<char>) -> Option<
    Seq<char>,
>;

/// Calls `serde_json::from_str`, `Value::get` twice and `Value::as_str`: the string under
/// the two keys, a function of the text and the keys alone.
#[verifier::external_body]
pub(crate) fn json_inner_at(text: &str, key: &str, inner: &str) -> (r: Option<String>)
    ensures
        opt_view(r) == json_inner_of(text@, key@, inner@),
{
    let value = serde_json::from_str::<serde_json::Value>(text).ok()?;
    value.get(key)?.get(inner)?.as_str().map(str::to_owned)
}

/// A text as `serde_json` writes it: in quotes, with what JSON needs escaped.
pub uninterp spec fn json_text_of(text: Seq<char>) -> Seq<char>;

/// Calls `serde_json::Value::from` and `Value::to_string`: the text as a JSON string, a
/// function of the text alone.
#[verifier::external_body]
pub(crate) fn quote_json(text: &str) -> (r: String)
    ensures
        r@ == json_text_of(text@),
{
    serde_json::Value::from(text).to_string()
}

/// A text in lower case, as `str::to_lowercase` gives it.
pub uninterp spec fn lowercase_of(text: Seq<char>) -> Seq<char>;

/// Calls `str::to_lowercase`: the text in lower case, a function of the text alone.
#[verifier::external_body]
pub(crate) fn lowercase(text: &str) -> (r: String)
    ensures
        r@ == lowercase_of(text@),
{
    text.to_lowercase()
}

} // verus!
