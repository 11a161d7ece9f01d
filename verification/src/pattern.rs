//! The search for the call pattern, which a regular expression engine does.

use vstd::prelude::*;
use crate::errors::Errors;

verus! {

/// The error of the `regex` crate: a pattern that is not a regular
/// expression, or one that is too large to compile.
#[verifier::external_type_specification]
#[verifier::external_body]
pub struct ExRegexError(regex::Error);

/// What a search for the regular expression `pattern` in `text` finds:
/// whether there is a match anywhere in `text`, or `None` where `pattern`
/// cannot be compiled.
pub uninterp spec fn pattern_search(pattern: Seq<char>, text: Seq<char>) -> Option<bool>;

/// Compiles `pattern` with `regex::Regex::new` and searches `text` with
/// `regex::Regex::is_match`.
///
/// Not proved: that the outcome is `pattern_search` of the two texts, that is,
/// that it depends on nothing but the pattern and the text.
#[verifier::external_body]
fn search(pattern: &str, text: &str) -> (r: Result<bool, regex::Error>)
    ensures
        match r {
            Ok(found) => pattern_search(pattern@, text@) == Some(found),
            Err(_) => pattern_search(pattern@, text@) is None,
        },
{
    let re = regex::Regex::new(pattern)?;
    Ok(re.is_match(text))
}

/// The pattern of a call: some text, an opening bracket, some text, a closing
/// bracket.
pub open spec fn call_pattern() -> Seq<char> {
    "(.+)\\((.+)\\)"@
}

/// Whether `text` holds the pattern of a call.
pub fn call_shaped(text: &str) -> (r: Option<bool>)
    ensures
        r == pattern_search(call_pattern(), text@),
{
    match search("(.+)\\((.+)\\)", text) {
        Ok(found) => Some(found),
        Err(_) => None,
    }
}

} // verus!
