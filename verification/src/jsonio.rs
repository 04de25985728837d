//! Trusted surface over `serde_json`: the `Value` type is declared opaque,
//! and each accessor the library's logic needs is one small wrapper around
//! one `serde_json` call. What an accessor returns is a function of the
//! value (and key) alone, so each result is named, and the verified
//! logic's contracts speak over those names.

use vstd::prelude::*;

verus! {

#[verifier::external_type_specification]
#[verifier::external_body]
pub struct ExValue(serde_json::Value);

/// The document a text parses to, `None` when the text is not one
/// well-formed JSON document.
pub uninterp spec fn json_doc(s: Seq<char>) -> Option<serde_json::Value>;

/// The named member of a value, `None` when the value is not an object or
/// lacks the member.
pub uninterp spec fn json_member(v: serde_json::Value, key: Seq<char>) -> Option<
    serde_json::Value,
>;

/// The characters of a value, when the value is a JSON string.
pub uninterp spec fn json_str(v: serde_json::Value) -> Option<Seq<char>>;

/// The content of a value, when the value is a JSON boolean.
pub uninterp spec fn json_bool(v: serde_json::Value) -> Option<bool>;

/// The elements of a value, when the value is a JSON array.
pub uninterp spec fn json_elems(v: serde_json::Value) -> Option<Seq<serde_json::Value>>;

/// A value that carries nothing the library reads: not a string, boolean
/// or array, and without members. The JSON null is one.
pub open spec fn spec_is_nullish(v: serde_json::Value) -> bool {
    json_str(v) is None && json_bool(v) is None && json_elems(v) is None && forall|k: Seq<char>|
        #[trigger] json_member(v, k) is None
}

/// Relies on serde_json::from_str::<Value>: parsing is a function of the
/// text alone, `Some` exactly on one well-formed JSON document.
#[verifier::external_body]
pub fn json_parse(s: &str) -> (r: Option<serde_json::Value>)
    ensures
        r == json_doc(s@),
{
    serde_json::from_str::<serde_json::Value>(s).ok()
}

/// Relies on Value::get: the named member when the value is an object that
/// has it, a function of the value and the key alone.
#[verifier::external_body]
pub fn json_get<'a>(v: &'a serde_json::Value, key: &str) -> (r: Option<&'a serde_json::Value>)
    ensures
        match r {
            Some(m) => json_member(*v, key@) == Some(*m),
            None => json_member(*v, key@) is None,
        },
{
    v.get(key)
}

/// Relies on Value::as_str: the content when the value is a JSON string.
#[verifier::external_body]
pub fn json_as_str(v: &serde_json::Value) -> (r: Option<String>)
    ensures
        match r {
            Some(s) => json_str(*v) == Some(s@),
            None => json_str(*v) is None,
        },
{
    v.as_str().map(|s| s.to_string())
}

/// Relies on Value::is_string: true exactly when Value::as_str answers.
#[verifier::external_body]
pub fn json_is_string(v: &serde_json::Value) -> (r: bool)
    ensures
        r == (json_str(*v) is Some),
{
    v.is_string()
}

/// Relies on Value::as_bool: the content when the value is a JSON boolean.
#[verifier::external_body]
pub fn json_as_bool(v: &serde_json::Value) -> (r: Option<bool>)
    ensures
        match r {
            Some(b) => json_bool(*v) == Some(b),
            None => json_bool(*v) is None,
        },
{
    v.as_bool()
}

/// Relies on Value::as_array: the elements when the value is a JSON array.
#[verifier::external_body]
pub fn json_as_array<'a>(v: &'a serde_json::Value) -> (r: Option<&'a Vec<serde_json::Value>>)
    ensures
        match r {
            Some(a) => json_elems(*v) == Some(a@),
            None => json_elems(*v) is None,
        },
{
    v.as_array()
}

/// Relies on Value::default: the JSON null, which is not a string, boolean
/// or array and has no members.
#[verifier::external_body]
pub fn json_null() -> (r: serde_json::Value)
    ensures
        spec_is_nullish(r),
{
    serde_json::Value::default()
}

/// Relies on Value::clone: the copy is the same JSON value.
#[verifier::external_body]
pub fn json_clone(v: &serde_json::Value) -> (r: serde_json::Value)
    ensures
        r == *v,
{
    v.clone()
}

/// The string content of the named member, when the member is there and is
/// a string.
pub open spec fn spec_str_field(v: serde_json::Value, key: Seq<char>) -> Option<Seq<char>> {
    match json_member(v, key) {
        Some(m) => json_str(m),
        None => None,
    }
}

/// The member of a member: `v[a][b]`.
pub open spec fn spec_member2(v: serde_json::Value, a: Seq<char>, b: Seq<char>) -> Option<
    serde_json::Value,
> {
    match json_member(v, a) {
        Some(m) => json_member(m, b),
        None => None,
    }
}

/// The named member's string content, when present.
pub fn str_field(v: &serde_json::Value, key: &str) -> (r: Option<String>)
    ensures
        match r {
            Some(s) => spec_str_field(*v, key@) == Some(s@),
            None => spec_str_field(*v, key@) is None,
        },
{
    match json_get(v, key) {
        Some(f) => json_as_str(f),
        None => None,
    }
}

/// The named member of a member: `v[a][b]` as a reference.
pub fn get_path2<'a>(v: &'a serde_json::Value, a: &str, b: &str) -> (r: Option<
    &'a serde_json::Value,
>)
    ensures
        match r {
            Some(m) => spec_member2(*v, a@, b@) == Some(*m),
            None => spec_member2(*v, a@, b@) is None,
        },
{
    match json_get(v, a) {
        Some(inner) => json_get(inner, b),
        None => None,
    }
}

} // verus!
