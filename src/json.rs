use vstd::prelude::*;

use crate::players::texts;

verus! {

/// The string that the JSON document `text` holds as member `key` of its top-level object,
/// as serde_json reads it; `None` when `text` is not JSON, the member is missing or is not a
/// string.
pub uninterp spec fn json_member_text(text: Seq<char>, key: Seq<char>) -> Option<Seq<char>>;

/// The strings that the JSON document `text` holds as the array member `key` of its
/// top-level object, in order, as serde_json reads them; `None` when `text` is not JSON, the
/// member is missing or is not an array, or an item is not a string.
pub uninterp spec fn json_member_strings(text: Seq<char>, key: Seq<char>) -> Option<
    Seq<Seq<char>>,
>;

/// Relies on serde_json::from_str (into a `Value`), `Value::get` with a string key and
/// `Value::as_str`: the string member `key` of the document `text`.
#[verifier::external_body]
pub(crate) fn member_text(text: &str, key: &str) -> (r: Option<String>)
    ensures
        match r {
            Some(t) => json_member_text(text@, key@) == Some(t@),
            None => json_member_text(text@, key@) is None,
        },
{
    let doc: serde_json::Value = serde_json::from_str(text).ok()?;
    doc.get(key)?.as_str().map(String::from)
}

/// Relies on serde_json::from_str (into a `Value`), `Value::get` with a string key,
/// `Value::as_array` and `Value::as_str`: the array of strings that is member `key` of the
/// document `text`.
#[verifier::external_body]
pub(crate) fn member_strings(text: &str, key: &str) -> (r: Option<Vec<String>>)
    ensures
        match r {
            Some(v) => json_member_strings(text@, key@) == Some(texts(v@)),
            None => json_member_strings(text@, key@) is None,
        },
{
    let doc: serde_json::Value = serde_json::from_str(text).ok()?;
    doc.get(key)?.as_array()?.iter().map(|v| v.as_str().map(String::from)).collect()
}

} // verus!
