//! Regular-expression matching, done by the `regex` crate.

use vstd::prelude::*;

use crate::vmparams::{xv_captures, xv_replaced, XVERIFY_PATTERN};

verus! {

/// The pieces into which `regex::Regex::split` cuts `text` at the matches of
/// `pattern`, or `None` when `pattern` does not compile.
pub uninterp spec fn regex_split_result(pattern: Seq<char>, text: Seq<char>) -> Option<Seq<Seq<char>>>;

/// For the first match of `pattern` in `text` (as `regex::Regex::captures`
/// finds it), the text of capture group `group` if that group took part; the
/// outer `None` when `pattern` does not compile or does not match.
pub uninterp spec fn regex_capture_result(pattern: Seq<char>, text: Seq<char>, group: usize) -> Option<Option<Seq<char>>>;

/// Compiles `pattern` with `regex::Regex::new` and cuts `text` at its
/// matches with `Regex::split`. The pieces are not described here beyond the
/// name `regex_split_result`: this is trusted to be what the regex crate
/// returns for these two strings.
#[verifier::external_body]
pub(crate) fn regex_split(pattern: &str, text: &str) -> (r: Option<Vec<String>>)
    ensures
        r.deep_view() == regex_split_result(pattern@, text@),
{
    match regex::Regex::new(pattern) {
        Ok(re) => Some(re.split(text).map(String::from).collect()),
        Err(_) => None,
    }
}

/// Compiles `pattern` with `regex::Regex::new`, finds its first match in
/// `text` with `Regex::captures`, and returns the text of capture group
/// `group`. The result is trusted to be what the regex crate returns for
/// these arguments; it is named `regex_capture_result`. For the one pattern
/// `XVERIFY_PATTERN` it is also stated (`xv_captures`), as the crate's
/// syntax documentation gives it: `(?i)` folds only these ASCII letters to
/// their other case, `\s` is the Unicode `White_Space` property, and the
/// leftmost match takes the greedy optional value.
#[verifier::external_body]
pub(crate) fn regex_capture(pattern: &str, text: &str, group: usize) -> (r: Option<Option<String>>)
    ensures
        r.deep_view() == regex_capture_result(pattern@, text@, group),
        pattern@ == XVERIFY_PATTERN@ ==> r.deep_view() == xv_captures(text@, group),
{
    match regex::Regex::new(pattern) {
        Ok(re) => match re.captures(text) {
            Some(caps) => Some(caps.get(group).map(|m| String::from(m.as_str()))),
            None => None,
        },
        Err(_) => None,
    }
}

/// What `regex::Regex::replace` makes of `text` when the first match of
/// `pattern` is replaced by `replacement`, or `None` when `pattern` does not
/// compile.
pub uninterp spec fn regex_replace_result(pattern: Seq<char>, text: Seq<char>, replacement: Seq<char>) -> Option<Seq<char>>;

/// Compiles `pattern` with `regex::Regex::new` and replaces its first match
/// in `text` by `replacement` with `Regex::replace`. The result is trusted to
/// be what the regex crate returns for these three strings; it is named
/// `regex_replace_result`. For `XVERIFY_PATTERN` and a replacement without
/// `$` (which `replace` would expand) it is also stated (`xv_replaced`): the
/// first match, as `regex_capture` states it, replaced by `replacement`, and
/// the text unchanged when there is no match.
#[verifier::external_body]
pub(crate) fn regex_replace(pattern: &str, text: &str, replacement: &str) -> (r: Option<String>)
    ensures
        r.deep_view() == regex_replace_result(pattern@, text@, replacement@),
        pattern@ == XVERIFY_PATTERN@ && !replacement@.contains('$') ==> r.deep_view() == Some(
            xv_replaced(text@, replacement@),
        ),
{
    match regex::Regex::new(pattern) {
        Ok(re) => Some(re.replace(text, replacement).into_owned()),
        Err(_) => None,
    }
}

} // verus!
