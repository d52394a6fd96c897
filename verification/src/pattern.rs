//! Regular expressions, by way of the `regex` crate.

use vstd::prelude::*;
use crate::text::texts;

verus! {

/// The message with which `regex::Regex::new` refuses a pattern; `None` when the
/// pattern compiles.
pub uninterp spec fn regex_error(pattern: Seq<char>) -> Option<Seq<char>>;

/// The text in which `regex::Regex::replace` has replaced the leftmost match of a
/// pattern, with `$` references in the replacement expanded.
pub uninterp spec fn regex_replace(
    pattern: Seq<char>,
    text: Seq<char>,
    replacement: Seq<char>,
) -> Seq<char>;

/// The successive matches that `regex::Regex::find_iter` reports in a text.
pub uninterp spec fn regex_matches(pattern: Seq<char>, text: Seq<char>) -> Seq<Seq<char>>;

/// Whether `out` is `text`, or `text` with one stretch replaced by `replacement`.
pub open spec fn replaced_once(text: Seq<char>, replacement: Seq<char>, out: Seq<char>) -> bool {
    out == text || exists|a: int, b: int|
        #![trigger text.take(a), text.skip(b)]
        0 <= a <= b <= text.len() && out == text.take(a) + replacement + text.skip(b)
}

/// Calls `regex::Regex::new` and then `Regex::replace`.
///
/// Claimed of them: whether the pattern compiles, and the message if it does not,
/// depend on the pattern alone; the outcome depends on pattern, text and
/// replacement alone; and a replacement without `$` is put in as it stands, for at
/// most one stretch of the text.
#[verifier::external_body]
pub(crate) fn replace_first(pattern: &str, text: &str, replacement: &str) -> (r: Result<
    String,
    String,
>)
    ensures
        match r {
            Ok(out) => {
                &&& regex_error(pattern@) is None
                &&& out@ == regex_replace(pattern@, text@, replacement@)
                &&& !replacement@.contains('$') ==> replaced_once(text@, replacement@, out@)
            },
            Err(message) => regex_error(pattern@) == Some(message@),
        },
{
    match regex::Regex::new(pattern) {
        Ok(regex) => Ok(regex.replace(text, replacement).to_string()),
        Err(err) => Err(err.to_string()),
    }
}

/// Calls `regex::Regex::new` and then `Regex::find_iter`.
///
/// Claimed of them: whether the pattern compiles, and the message if it does not,
/// depend on the pattern alone; the matches depend on pattern and text alone, and
/// each of them is a stretch of the text.
#[verifier::external_body]
pub(crate) fn find_all(pattern: &str, text: &str) -> (r: Result<Vec<String>, String>)
    ensures
        match r {
            Ok(found) => {
                &&& regex_error(pattern@) is None
                &&& texts(found@) == regex_matches(pattern@, text@)
                &&& forall|i: int|
                    0 <= i < found@.len() ==> crate::text::contains_text(
                        text@,
                        #[trigger] found@[i]@,
                    )
            },
            Err(message) => regex_error(pattern@) == Some(message@),
        },
{
    match regex::Regex::new(pattern) {
        Ok(regex) => Ok(regex.find_iter(text).map(|found| found.as_str().to_string()).collect()),
        Err(err) => Err(err.to_string()),
    }
}

}
