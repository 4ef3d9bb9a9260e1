//! Xiaomi's framing of JSON: documents inside strings, and a sentinel in front of
//! a response.

use crate::json::{json_parse, Json, JsonView};
use crate::text::strip_prefix;
use vstd::prelude::*;

verus! {

/// A response without the sentinel that Xiaomi puts in front of it.
pub open spec fn without_start(text: Seq<char>) -> Seq<char> {
    if "&&&START&&&"@.is_prefix_of(text) {
        text.skip("&&&START&&&"@.len() as int)
    } else {
        text
    }
}

/// Strip the sentinel that Xiaomi prefixes its JSON responses with.
pub fn strip_start(text: &str) -> (r: &str)
    ensures
        r@ == without_start(text@),
{
    match strip_prefix(text, "&&&START&&&") {
        Some(rest) => rest,
        None => text,
    }
}

/// The stripped body, or the original when the sentinel is absent.
pub fn strip_start_hook(text: String) -> (r: Result<String, String>)
    ensures
        match r {
            Ok(rest) => "&&&START&&&"@.is_prefix_of(text@) && rest@ == without_start(text@),
            Err(same) => !"&&&START&&&"@.is_prefix_of(text@) && same@ == text@,
        },
{
    match strip_prefix(text.as_str(), "&&&START&&&") {
        Some(rest) => {
            return Ok(rest.to_owned());
        },
        None => {},
    }
    Err(text)
}

/// The document inside a JSON string, as Xiaomi nests them: not a string, or not
/// JSON inside, is no document.
pub fn from_string(value: &Json) -> (r: Option<Json>)
    ensures
        match value@ {
            JsonView::Str(text) => match json_parse(text) {
                Ok(doc) => r matches Some(inner) && inner@ == doc,
                Err(_) => r is None,
            },
            _ => r is None,
        },
{
    match value.as_str() {
        Some(text) => match Json::parse(text) {
            Ok(doc) => Some(doc),
            Err(_) => None,
        },
        None => None,
    }
}

/// The marker before a reply is taken off, once, and the rest is left as it is; a reply
/// without it is left alone.
pub proof fn only_the_marker_is_taken_off(text: Seq<char>)
    ensures
        without_start("&&&START&&&"@ + text) == text,
        !"&&&START&&&"@.is_prefix_of(text) ==> without_start(text) == text,
        text.len() < 11 ==> without_start(text) == text,
{
    reveal_strlit("&&&START&&&");
    let marked = "&&&START&&&"@ + text;
    assert("&&&START&&&"@ =~= marked.take(11));
    assert(marked.skip(11) =~= text);
}

} // verus!
