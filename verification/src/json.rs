//! Reading one string out of a JSON document.
use vstd::prelude::*;

verus! {

/// What `serde_json` finds in a JSON text at a JSON pointer: the parser's
/// message when the text is not JSON, `None` when nothing is at the pointer,
/// `Some(None)` when the value there is not a string.
pub uninterp spec fn json_query(text: Seq<char>, pointer: Seq<char>) -> Result<
    Option<Option<Seq<char>>>,
    Seq<char>,
>;

pub open spec fn json_result_view(r: Result<Option<Option<String>>, String>) -> Result<
    Option<Option<Seq<char>>>,
    Seq<char>,
> {
    match r {
        Ok(None) => Ok(None),
        Ok(Some(None)) => Ok(Some(None)),
        Ok(Some(Some(s))) => Ok(Some(Some(s@))),
        Err(e) => Err(e@),
    }
}

/// The string, if any, at `pointer` in the JSON `text`: the text is parsed
/// with `serde_json::from_str` into a `serde_json::Value`, the pointer is
/// followed with `Value::pointer` and the value read with `Value::as_str`.
/// The contract names the result and says no more of it.
#[verifier::external_body]
pub(crate) fn json_at(text: &str, pointer: &str) -> (r: Result<Option<Option<String>>, String>)
    ensures
        json_result_view(r) == json_query(text@, pointer@),
{
    let v: serde_json::Value = match serde_json::from_str(text) {
        Ok(v) => v,
        Err(e) => return Err(e.to_string()),
    };
    match v.pointer(pointer) {
        None => Ok(None),
        Some(x) => Ok(Some(x.as_str().map(String::from))),
    }
}

/// Whether `serde_json` finds an array at a JSON pointer in a JSON text
/// (false when the text is not JSON or nothing is there).
pub uninterp spec fn json_array_at(text: Seq<char>, pointer: Seq<char>) -> bool;

/// `serde_json::from_str` into a `serde_json::Value`, `Value::pointer`,
/// then `Value::is_array`. The contract names the result and says no more
/// of it.
#[verifier::external_body]
pub(crate) fn json_is_array(text: &str, pointer: &str) -> (b: bool)
    ensures
        b == json_array_at(text@, pointer@),
{
    match serde_json::from_str::<serde_json::Value>(text) {
        Ok(v) => v.pointer(pointer).map_or(false, |x| x.is_array()),
        Err(_) => false,
    }
}

/// The string at a pointer, when the text is JSON and a string is there.
pub open spec fn json_str(text: Seq<char>, pointer: Seq<char>) -> Option<Seq<char>> {
    match json_query(text, pointer) {
        Ok(Some(Some(s))) => Some(s),
        _ => None,
    }
}

/// Whether a value of any kind is at the pointer.
pub open spec fn json_has(text: Seq<char>, pointer: Seq<char>) -> bool {
    json_query(text, pointer) matches Ok(Some(_))
}

} // verus!
