//! Values read out of a JSON document by serde_json, one JSON pointer at a
//! time, as plain values.
use vstd::prelude::*;
use serde_json::Value;
use crate::text::{chars_of, push_str, push_u64, string_of};

verus! {

/// What a JSON pointer finds: a null, a boolean, a number (as `as_u64`
/// and `as_i64` read it; both `None` for a fraction), a string, an array
/// (its length) or an object.
pub enum JsonLeaf {
    Null,
    Bool(bool),
    Number(Option<u64>, Option<i64>),
    Str(String),
    Array(usize),
    Object,
}

/// The plain value of a `JsonLeaf`.
pub enum JsonLeafView {
    Null,
    Bool(bool),
    Number(Option<u64>, Option<i64>),
    Str(Seq<char>),
    Array(nat),
    Object,
}

pub open spec fn leaf_view(l: JsonLeaf) -> JsonLeafView {
    match l {
        JsonLeaf::Null => JsonLeafView::Null,
        JsonLeaf::Bool(b) => JsonLeafView::Bool(b),
        JsonLeaf::Number(u, i) => JsonLeafView::Number(u, i),
        JsonLeaf::Str(s) => JsonLeafView::Str(s@),
        JsonLeaf::Array(n) => JsonLeafView::Array(n as nat),
        JsonLeaf::Object => JsonLeafView::Object,
    }
}

pub open spec fn lookup_view(r: Result<Option<JsonLeaf>, String>) -> Result<
    Option<JsonLeafView>,
    Seq<char>,
> {
    match r {
        Ok(Some(l)) => Ok(Some(leaf_view(l))),
        Ok(None) => Ok(None),
        Err(e) => Err(e@),
    }
}

/// What serde_json makes of `body` at the JSON pointer `ptr`: the error
/// message (`Display` of `serde_json::Error`) when `body` is not one JSON
/// document, else what `Value::pointer` finds there (`""` is the whole
/// document), if anything.
pub uninterp spec fn json_at(body: Seq<char>, ptr: Seq<char>) -> Result<
    Option<JsonLeafView>,
    Seq<char>,
>;

/// Read `body` with `serde_json::from_str` and look at `ptr` with
/// `Value::pointer` (see `json_at`).
#[verifier::external_body]
pub(crate) fn json_lookup(body: &str, ptr: &str) -> (r: Result<Option<JsonLeaf>, String>)
    ensures
        lookup_view(r) == json_at(body@, ptr@),
{
    let v: Value = serde_json::from_str(body).map_err(|e| e.to_string())?;
    Ok(v.pointer(ptr).map(|x| match x {
        Value::Null => JsonLeaf::Null,
        Value::Bool(b) => JsonLeaf::Bool(*b),
        Value::Number(n) => JsonLeaf::Number(n.as_u64(), n.as_i64()),
        Value::String(s) => JsonLeaf::Str(s.clone()),
        Value::Array(a) => JsonLeaf::Array(a.len()),
        Value::Object(_) => JsonLeaf::Object,
    }))
}

/// `body` is one JSON document.
pub open spec fn json_ok(body: Seq<char>) -> bool {
    json_at(body, ""@) is Ok
}

/// What is found at `ptr`, nothing when `body` is not JSON.
pub open spec fn found(body: Seq<char>, ptr: Seq<char>) -> Option<JsonLeafView> {
    match json_at(body, ptr) {
        Ok(o) => o,
        Err(_) => None,
    }
}

/// The value at `ptr` is `true`.
pub open spec fn true_at(body: Seq<char>, ptr: Seq<char>) -> bool {
    found(body, ptr) == Some(JsonLeafView::Bool(true))
}

/// The value at `ptr` as `Value::as_i64` reads it.
pub open spec fn i64_at(body: Seq<char>, ptr: Seq<char>) -> Option<i64> {
    match found(body, ptr) {
        Some(JsonLeafView::Number(_, i)) => i,
        _ => None,
    }
}

/// The value at `ptr` as `Value::as_u64` reads it.
pub open spec fn u64_at(body: Seq<char>, ptr: Seq<char>) -> Option<u64> {
    match found(body, ptr) {
        Some(JsonLeafView::Number(u, _)) => u,
        _ => None,
    }
}

/// The string at `ptr`.
pub open spec fn str_at(body: Seq<char>, ptr: Seq<char>) -> Option<Seq<char>> {
    match found(body, ptr) {
        Some(JsonLeafView::Str(s)) => Some(s),
        _ => None,
    }
}

/// The length of the array at `ptr`.
pub open spec fn array_len_at(body: Seq<char>, ptr: Seq<char>) -> Option<nat> {
    match found(body, ptr) {
        Some(JsonLeafView::Array(n)) => Some(n),
        _ => None,
    }
}

/// Whether `body` is one JSON document, and if not, serde_json's message.
pub fn json_check(body: &str) -> (r: Result<(), String>)
    ensures
        match r {
            Ok(_) => json_ok(body@),
            Err(e) => json_at(body@, ""@) == Err::<Option<JsonLeafView>, Seq<char>>(e@),
        },
{
    match json_lookup(body, "") {
        Ok(_) => Ok(()),
        Err(e) => Err(e),
    }
}

fn leaf_at(body: &str, ptr: &str) -> (r: Option<JsonLeaf>)
    ensures
        match r {
            Some(l) => found(body@, ptr@) == Some(leaf_view(l)),
            None => found(body@, ptr@) is None,
        },
{
    match json_lookup(body, ptr) {
        Ok(o) => o,
        Err(_) => None,
    }
}

pub fn true_at_exec(body: &str, ptr: &str) -> (r: bool)
    ensures
        r == true_at(body@, ptr@),
{
    match leaf_at(body, ptr) {
        Some(JsonLeaf::Bool(b)) => b,
        _ => false,
    }
}

pub fn i64_at_exec(body: &str, ptr: &str) -> (r: Option<i64>)
    ensures
        r == i64_at(body@, ptr@),
{
    match leaf_at(body, ptr) {
        Some(JsonLeaf::Number(_, i)) => i,
        _ => None,
    }
}

pub fn u64_at_exec(body: &str, ptr: &str) -> (r: Option<u64>)
    ensures
        r == u64_at(body@, ptr@),
{
    match leaf_at(body, ptr) {
        Some(JsonLeaf::Number(u, _)) => u,
        _ => None,
    }
}

pub fn str_at_exec(body: &str, ptr: &str) -> (r: Option<String>)
    ensures
        crate::text::opt_view(r) == str_at(body@, ptr@),
{
    match leaf_at(body, ptr) {
        Some(JsonLeaf::Str(s)) => Some(s),
        _ => None,
    }
}

pub fn array_len_at_exec(body: &str, ptr: &str) -> (r: Option<usize>)
    ensures
        match r {
            Some(n) => array_len_at(body@, ptr@) == Some(n as nat),
            None => array_len_at(body@, ptr@) is None,
        },
{
    match leaf_at(body, ptr) {
        Some(JsonLeaf::Array(n)) => Some(n),
        _ => None,
    }
}

/// `prefix/key`, a pointer one level down.
pub fn child(prefix: &str, key: &str) -> (r: String)
    ensures
        r@ == prefix@ + "/"@ + key@,
{
    let mut v: Vec<char> = chars_of(prefix);
    push_str(&mut v, "/");
    push_str(&mut v, key);
    string_of(&v)
}

/// `prefix/i`, the pointer to element `i` of an array.
pub fn index_child(prefix: &str, i: u64) -> (r: String)
    ensures
        r@ == prefix@ + "/"@ + crate::text::decimal_nat(i as nat),
{
    let mut v: Vec<char> = chars_of(prefix);
    push_str(&mut v, "/");
    push_u64(&mut v, i);
    string_of(&v)
}

} // verus!
