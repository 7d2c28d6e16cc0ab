//! The JSON values the gateway exchanges, and the few calls into serde_json
//! that the protocol needs.

use vstd::prelude::*;

verus! {

/// The JSON string literal that serde_json writes for `s`.
pub uninterp spec fn json_quoted(s: Seq<char>) -> Seq<char>;

/// The compact JSON text that serde_json writes for a list of strings.
pub uninterp spec fn json_string_list(items: Seq<Seq<char>>) -> Seq<char>;

/// The list of strings that serde_json reads from `s`, if `s` is one.
pub uninterp spec fn string_list_of(s: Seq<char>) -> Option<Seq<Seq<char>>>;

/// The compact JSON text of the member `key` of the object that serde_json
/// reads from `doc`; `None` when `doc` is not JSON, not an object, or has
/// no such member.
pub uninterp spec fn json_member(doc: Seq<char>, key: Seq<char>) -> Option<Seq<char>>;

/// Relies on serde_json: `from_str` into a `Value`, `Value::get` with a
/// string key, and `Display` of the member found. The result depends on the
/// two texts alone.
#[verifier::external_body]
pub fn member_text(doc: &str, key: &str) -> (r: Option<String>)
    ensures
        r matches Some(t) ==> json_member(doc@, key@) == Some(t@),
        r is None ==> json_member(doc@, key@) is None,
{
    serde_json::from_str::<serde_json::Value>(doc).ok().and_then(|v| v.get(key).map(|m| m.to_string()))
}

/// Relies on serde_json::to_string of a string: its JSON string literal.
#[verifier::external_body]
pub fn quote(s: &str) -> (r: String)
    ensures
        r@ == json_quoted(s@),
{
    serde_json::to_string(s).unwrap_or_default()
}

/// Relies on serde_json::to_string of a list of strings: its compact text.
#[verifier::external_body]
pub fn encode_string_list(items: &Vec<String>) -> (r: String)
    ensures
        r@ == json_string_list(items.deep_view()),
{
    serde_json::to_string(items).unwrap_or_default()
}

/// Relies on serde_json::from_str into a list of strings: the list, when the
/// text is one.
#[verifier::external_body]
pub fn decode_string_list(text: &str) -> (r: Option<Vec<String>>)
    ensures
        r matches Some(v) ==> string_list_of(text@) == Some(v.deep_view()),
        r is None ==> string_list_of(text@) is None,
{
    serde_json::from_str::<Vec<String>>(text).ok()
}

/// The environment that serde_json reads from `s`, if `s` is a JSON object
/// of strings, with names in ascending order.
pub uninterp spec fn env_of(s: Seq<char>) -> Option<Seq<(Seq<char>, Seq<char>)>>;

/// The compact JSON object text that serde_json writes for an environment.
pub uninterp spec fn json_env(env: Seq<(Seq<char>, Seq<char>)>) -> Seq<char>;

/// Relies on serde_json::from_str into an ordered map of strings: the
/// pairs, each name once, when the text is such an object.
#[verifier::external_body]
pub fn decode_env(text: &str) -> (r: Option<Vec<(String, String)>>)
    ensures
        r matches Some(v) ==> env_of(text@) == Some(v.deep_view()) && crate::env::env_wf(v.deep_view()),
        r is None ==> env_of(text@) is None,
{
    serde_json::from_str::<std::collections::BTreeMap<String, String>>(text).ok().map(|m| m.into_iter().collect())
}

/// Relies on serde_json::to_string of an ordered map of strings: its compact
/// object text, members in ascending name order.
#[verifier::external_body]
pub fn encode_env(env: &Vec<(String, String)>) -> (r: String)
    ensures
        r@ == json_env(env.deep_view()),
{
    let map: std::collections::BTreeMap<String, String> = env.iter().cloned().collect();
    serde_json::to_string(&map).unwrap_or_default()
}

} // verus!
