//! The JSON texts that the library exchanges, made and read by serde_json.
use vstd::prelude::*;

verus! {

/// serde_json's compact text of the object `{"a": action, "v": tokens}`.
pub uninterp spec fn token_request_json(action: Seq<char>, tokens: Seq<u32>) -> Seq<char>;

/// serde_json's compact text of the object `{"a": action, "v": [mode, tokens]}`.
pub uninterp spec fn mode_request_json(action: Seq<char>, mode: Seq<char>, tokens: Seq<u32>) -> Seq<
    char,
>;

/// The string member `key` of the JSON object that serde_json reads from
/// `text`; `None` where `text` is not JSON, not an object, has no member
/// `key`, or that member is not a string.
pub uninterp spec fn json_string_member(text: Seq<char>, key: Seq<char>) -> Option<Seq<char>>;

/// Builds a `serde_json::Value` object with members `a` and `v` (the tokens as
/// an array of numbers) and renders it with serde_json's `Display`, which
/// writes compact JSON. Nothing is stated of the text beyond its name.
#[verifier::external_body]
pub(crate) fn encode_token_request(action: &str, tokens: &Vec<u32>) -> (text: String)
    ensures
        text@ == token_request_json(action@, tokens@),
{
    let value: serde_json::Value = [
        ("a", serde_json::Value::from(action)),
        ("v", serde_json::Value::from(tokens.clone())),
    ].into_iter().collect();
    value.to_string()
}

/// Builds a `serde_json::Value` object with members `a` and `v` (an array
/// holding the mode string and the token array) and renders it with
/// serde_json's `Display`. Nothing is stated of the text beyond its name.
#[verifier::external_body]
pub(crate) fn encode_mode_request(action: &str, mode: &str, tokens: &Vec<u32>) -> (text: String)
    ensures
        text@ == mode_request_json(action@, mode@, tokens@),
{
    let value: serde_json::Value = [
        ("a", serde_json::Value::from(action)),
        (
            "v",
            serde_json::Value::from(
                vec![serde_json::Value::from(mode), serde_json::Value::from(tokens.clone())],
            ),
        ),
    ].into_iter().collect();
    value.to_string()
}

/// `serde_json::from_str::<serde_json::Value>` on `text`, then the member
/// `key` of the object where it is a string: the result is named by
/// `json_string_member` and nothing more is stated of it.
#[verifier::external_body]
pub(crate) fn json_member(text: &str, key: &str) -> (r: Option<String>)
    ensures
        match r {
            Some(s) => json_string_member(text@, key@) == Some(s@),
            None => json_string_member(text@, key@) is None,
        },
{
    match serde_json::from_str::<serde_json::Value>(text) {
        Ok(serde_json::Value::Object(members)) => match members.get(key) {
            Some(serde_json::Value::String(member)) => Some(member.clone()),
            _ => None,
        },
        _ => None,
    }
}

} // verus!
