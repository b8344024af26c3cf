//! Reading fields out of a JSON message body and writing the small JSON
//! objects the platform agents reply with. Parsing and printing JSON is
//! serde_json's work; each call here names what it returns, and the agents'
//! logic over those values is verified where it is used.
use vstd::prelude::*;
use crate::address::{opt_text, texts};

verus! {

/// The string field `key` of the JSON object `body`, if `body` is one and
/// the field is a string.
pub uninterp spec fn json_str_field(body: Seq<u8>, key: Seq<char>) -> Option<Seq<char>>;

/// The unsigned 64-bit field `key` of the JSON object `body`, if `body` is
/// one and the field is such a number.
pub uninterp spec fn json_u64_field(body: Seq<u8>, key: Seq<char>) -> Option<u64>;

/// `body` read as a JSON array of strings.
pub uninterp spec fn json_str_list(body: Seq<u8>) -> Option<Seq<Seq<char>>>;

/// The length of `body` read as a JSON array.
pub uninterp spec fn json_array_len(body: Seq<u8>) -> Option<nat>;

/// The string field `key` of item `i` of `body` read as a JSON array.
pub uninterp spec fn json_item_str_field(body: Seq<u8>, i: nat, key: Seq<char>) -> Option<Seq<char>>;

/// The unsigned 64-bit field `key` of item `i` of `body` read as a JSON array.
pub uninterp spec fn json_item_u64_field(body: Seq<u8>, i: nat, key: Seq<char>) -> Option<u64>;

/// What serde_json writes for the object `{k: v}` with a string value.
pub uninterp spec fn json_obj_s(k: Seq<char>, v: Seq<char>) -> Seq<u8>;

/// What serde_json writes for the object `{k1: v1, k2: v2}` with string values.
pub uninterp spec fn json_obj_ss(k1: Seq<char>, v1: Seq<char>, k2: Seq<char>, v2: Seq<char>) -> Seq<u8>;

/// What serde_json writes for the object `{k1: v1, k2: n}`, a string and a number.
pub uninterp spec fn json_obj_su(k1: Seq<char>, v1: Seq<char>, k2: Seq<char>, n: u64) -> Seq<u8>;

/// What serde_json writes for the object `{k1: v1, k2: n, k3: v3}`.
pub uninterp spec fn json_obj_sus(k1: Seq<char>, v1: Seq<char>, k2: Seq<char>, n: u64, k3: Seq<char>, v3: Seq<char>) -> Seq<u8>;

/// What serde_json writes for an array of strings.
pub uninterp spec fn json_str_array(v: Seq<Seq<char>>) -> Seq<u8>;

/// Parses `body` with `serde_json::from_slice` into a `Value` and reads
/// `get(key)` with `as_str`; `None` when any step finds nothing. The answer
/// is a function of the body and the key.
#[verifier::external_body]
pub(crate) fn body_str_field(body: &[u8], key: &str) -> (r: Option<String>)
    ensures
        opt_text(r) == json_str_field(body@, key@),
{
    let v: serde_json::Value = serde_json::from_slice(body).ok()?;
    Some(v.get(key)?.as_str()?.to_string())
}

/// Parses `body` with `serde_json::from_slice` into a `Value` and reads
/// `get(key)` with `as_u64`; `None` when any step finds nothing.
#[verifier::external_body]
pub(crate) fn body_u64_field(body: &[u8], key: &str) -> (r: Option<u64>)
    ensures
        r == json_u64_field(body@, key@),
{
    let v: serde_json::Value = serde_json::from_slice(body).ok()?;
    v.get(key)?.as_u64()
}

/// Parses `body` with `serde_json::from_slice` as a `Vec<String>`; `None`
/// when it is not a JSON array of strings.
#[verifier::external_body]
pub(crate) fn body_str_list(body: &[u8]) -> (r: Option<Vec<String>>)
    ensures
        match r {
            Some(v) => json_str_list(body@) == Some(texts(v@)),
            None => json_str_list(body@) is None,
        },
{
    serde_json::from_slice::<Vec<String>>(body).ok()
}

/// Parses `body` with `serde_json::from_slice` into a `Value` and takes the
/// length of `as_array`; `None` when it is not an array.
#[verifier::external_body]
pub(crate) fn body_array_len(body: &[u8]) -> (r: Option<usize>)
    ensures
        match r {
            Some(n) => json_array_len(body@) == Some(n as nat),
            None => json_array_len(body@) is None,
        },
{
    let v: serde_json::Value = serde_json::from_slice(body).ok()?;
    Some(v.as_array()?.len())
}

/// Parses `body` into a `Value` and reads `as_array`, item `i`, `get(key)`
/// and `as_str`; `None` when any step finds nothing.
#[verifier::external_body]
pub(crate) fn body_item_str_field(body: &[u8], i: usize, key: &str) -> (r: Option<String>)
    ensures
        opt_text(r) == json_item_str_field(body@, i as nat, key@),
{
    let v: serde_json::Value = serde_json::from_slice(body).ok()?;
    Some(v.as_array()?.get(i)?.get(key)?.as_str()?.to_string())
}

/// Parses `body` into a `Value` and reads `as_array`, item `i`, `get(key)`
/// and `as_u64`; `None` when any step finds nothing.
#[verifier::external_body]
pub(crate) fn body_item_u64_field(body: &[u8], i: usize, key: &str) -> (r: Option<u64>)
    ensures
        r == json_item_u64_field(body@, i as nat, key@),
{
    let v: serde_json::Value = serde_json::from_slice(body).ok()?;
    v.as_array()?.get(i)?.get(key)?.as_u64()
}

/// Builds a `serde_json::Map` with the string field and writes it with
/// `serde_json::to_vec` (`unwrap_or_default`; a map of strings raises no
/// error).
#[verifier::external_body]
pub(crate) fn obj_s(k: &str, v: &str) -> (r: Vec<u8>)
    ensures
        r@ == json_obj_s(k@, v@),
{
    let mut m = serde_json::Map::new();
    m.insert(k.to_string(), serde_json::Value::from(v));
    serde_json::to_vec(&serde_json::Value::Object(m)).unwrap_or_default()
}

/// Builds a `serde_json::Map` with the two string fields and writes it with
/// `serde_json::to_vec` (`unwrap_or_default`).
#[verifier::external_body]
pub(crate) fn obj_ss(k1: &str, v1: &str, k2: &str, v2: &str) -> (r: Vec<u8>)
    ensures
        r@ == json_obj_ss(k1@, v1@, k2@, v2@),
{
    let mut m = serde_json::Map::new();
    m.insert(k1.to_string(), serde_json::Value::from(v1));
    m.insert(k2.to_string(), serde_json::Value::from(v2));
    serde_json::to_vec(&serde_json::Value::Object(m)).unwrap_or_default()
}

/// Builds a `serde_json::Map` with a string and a number field and writes it
/// with `serde_json::to_vec` (`unwrap_or_default`).
#[verifier::external_body]
pub(crate) fn obj_su(k1: &str, v1: &str, k2: &str, n: u64) -> (r: Vec<u8>)
    ensures
        r@ == json_obj_su(k1@, v1@, k2@, n),
{
    let mut m = serde_json::Map::new();
    m.insert(k1.to_string(), serde_json::Value::from(v1));
    m.insert(k2.to_string(), serde_json::Value::from(n));
    serde_json::to_vec(&serde_json::Value::Object(m)).unwrap_or_default()
}

/// Builds a `serde_json::Map` with a string, a number and a string field
/// and writes it with `serde_json::to_vec` (`unwrap_or_default`).
#[verifier::external_body]
pub(crate) fn obj_sus(k1: &str, v1: &str, k2: &str, n: u64, k3: &str, v3: &str) -> (r: Vec<u8>)
    ensures
        r@ == json_obj_sus(k1@, v1@, k2@, n, k3@, v3@),
{
    let mut m = serde_json::Map::new();
    m.insert(k1.to_string(), serde_json::Value::from(v1));
    m.insert(k2.to_string(), serde_json::Value::from(n));
    m.insert(k3.to_string(), serde_json::Value::from(v3));
    serde_json::to_vec(&serde_json::Value::Object(m)).unwrap_or_default()
}

/// Writes a list of strings with `serde_json::to_vec` (`unwrap_or_default`;
/// a list of strings raises no error).
#[verifier::external_body]
pub(crate) fn str_array(v: &Vec<String>) -> (r: Vec<u8>)
    ensures
        r@ == json_str_array(texts(v@)),
{
    serde_json::to_vec(v).unwrap_or_default()
}

} // verus!
