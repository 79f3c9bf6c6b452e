use vstd::prelude::*;

verus! {

/// What parsing an offer payload text as JSON yields for this adapter:
/// `None` where the text is not valid JSON; otherwise `Some` of the
/// parsed value's `"cred_def_id"` field, itself present only where that
/// field exists and is a JSON string.
pub uninterp spec fn parsed_offer(s: Seq<char>) -> Option<Option<Seq<char>>>;

/// Relies on `serde_json::from_str` and `serde_json::Value::{get, as_str}`:
/// parses the text as a JSON value and reads its `"cred_def_id"` field
/// where that field is a string. Parsing is a pure function of the text,
/// so the outcome is named by `parsed_offer`.
#[verifier::external_body]
pub(crate) fn parse_cred_def_id(s: &str) -> (r: Option<Option<String>>)
    ensures
        r.deep_view() == parsed_offer(s@),
{
    match serde_json::from_str::<serde_json::Value>(s) {
        Ok(v) => Some(v.get("cred_def_id").and_then(serde_json::Value::as_str).map(String::from)),
        Err(_) => None,
    }
}

} // verus!
