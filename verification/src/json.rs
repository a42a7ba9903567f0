//! The boundary to `serde_json`: the JSON value type, and the handful of its
//! operations that the wire format is built from. Nothing here is proved; each
//! contract records what the `serde_json` function is relied on to do.

use vstd::prelude::*;

verus! {

/// A JSON value as `serde_json` holds it. Its inside is not visible to proofs.
#[verifier::external_type_specification]
#[verifier::external_body]
pub struct ExJsonValue(serde_json::Value);

/// The value that `serde_json::from_str` reads from a text, if it reads one.
pub uninterp spec fn json_document(text: Seq<char>) -> Option<serde_json::Value>;

/// The member that `serde_json::Value::get` finds under a key, if there is one.
pub uninterp spec fn json_member(doc: serde_json::Value, key: Seq<char>) -> Option<
    serde_json::Value,
>;

/// The characters that `serde_json::Value::as_str` yields, if the value is a string.
pub uninterp spec fn json_string(value: serde_json::Value) -> Option<Seq<char>>;

/// Whether `serde_json::Value::is_null` holds of the value.
pub uninterp spec fn json_is_null(value: serde_json::Value) -> bool;

/// The compact text that `serde_json::to_string` writes for a value, if it writes one.
pub uninterp spec fn json_rendered(value: serde_json::Value) -> Option<Seq<char>>;

/// The JSON string literal that `serde_json::to_string` writes for a piece of text,
/// if it writes one.
pub uninterp spec fn json_quoted(text: Seq<char>) -> Option<Seq<char>>;

/// Calls `serde_json::from_str` for a `serde_json::Value`. The outcome depends on
/// the text alone: `None` stands for any parse error (malformed JSON, trailing
/// characters, nesting beyond the parser's depth limit).
#[verifier::external_body]
pub(crate) fn parse(text: &str) -> (doc: Option<serde_json::Value>)
    ensures
        doc == json_document(text@),
{
    serde_json::from_str::<serde_json::Value>(text).ok()
}

/// Calls `serde_json::Value::get` with a string key and copies what it finds. The
/// lookup yields a member only when the value is an object that holds the key.
#[verifier::external_body]
pub(crate) fn member(doc: &serde_json::Value, key: &str) -> (found: Option<serde_json::Value>)
    ensures
        found == json_member(*doc, key@),
{
    doc.get(key).cloned()
}

/// Calls `serde_json::Value::as_str` and copies the characters: `Some` exactly for
/// a JSON string.
#[verifier::external_body]
pub(crate) fn string_of(value: &serde_json::Value) -> (text: Option<String>)
    ensures
        match text {
            Some(s) => json_string(*value) == Some(s@),
            None => json_string(*value) is None,
        },
{
    value.as_str().map(str::to_owned)
}

/// Calls `serde_json::Value::is_null`.
#[verifier::external_body]
pub(crate) fn is_null(value: &serde_json::Value) -> (null: bool)
    ensures
        null == json_is_null(*value),
{
    value.is_null()
}

/// Calls `serde_json::to_string` on a value: its compact JSON text, a function of
/// the value alone. `None` stands for a serializer error.
#[verifier::external_body]
pub(crate) fn render(value: &serde_json::Value) -> (text: Option<String>)
    ensures
        match text {
            Some(s) => json_rendered(*value) == Some(s@),
            None => json_rendered(*value) is None,
        },
{
    serde_json::to_string(value).ok()
}

/// Calls `serde_json::to_string` on a string slice: the text as a JSON string
/// literal, quoted and escaped. `None` stands for a serializer error.
#[verifier::external_body]
pub(crate) fn quote(text: &str) -> (literal: Option<String>)
    ensures
        match literal {
            Some(s) => json_quoted(text@) == Some(s@),
            None => json_quoted(text@) is None,
        },
{
    serde_json::to_string(text).ok()
}

} // verus!
