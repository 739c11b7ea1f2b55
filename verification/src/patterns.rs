//! Regular-expression matching and replacement, done by the `regex` crate.
//!
//! Each operation compiles the pattern and applies it; the outcome is `None`
//! when the pattern does not compile. The results are named, not stated: they
//! are whatever the `regex` crate computes from the arguments.
use vstd::prelude::*;
use crate::text::opt_view;
use regex::Regex;

verus! {

/// What `Regex::new(pattern)` and `replace` make of `text`: the first match
/// replaced by `replacement` (with `$name` group references expanded), or
/// `None` when the pattern does not compile.
pub uninterp spec fn regex_replace_first(
    pattern: Seq<char>,
    text: Seq<char>,
    replacement: Seq<char>,
) -> Option<Seq<char>>;

/// As `regex_replace_first`, with every non-overlapping match replaced
/// (`replace_all`).
pub uninterp spec fn regex_replace_every(
    pattern: Seq<char>,
    text: Seq<char>,
    replacement: Seq<char>,
) -> Option<Seq<char>>;

/// What `Regex::new(pattern)` and `captures` make of `text`: the text of
/// capture group 1 of the first match (`None` inside when nothing matches or
/// the group took no part), or `None` when the pattern does not compile.
pub uninterp spec fn regex_first_group(pattern: Seq<char>, text: Seq<char>) -> Option<
    Option<Seq<char>>,
>;

/// Compiles `pattern` with `regex::Regex::new` and replaces its first match
/// in `text` with `replacement` by `Regex::replace`; `None` when the pattern
/// does not compile. The result is the named `regex_replace_first`.
#[verifier::external_body]
pub(crate) fn replace_first(pattern: &str, text: &str, replacement: &str) -> (r: Option<String>)
    ensures
        opt_view(r) == regex_replace_first(pattern@, text@, replacement@),
{
    match Regex::new(pattern) {
        Ok(re) => Some(re.replace(text, replacement).into_owned()),
        Err(_) => None,
    }
}

/// Compiles `pattern` with `regex::Regex::new` and replaces every match in
/// `text` with `replacement` by `Regex::replace_all`; `None` when the pattern
/// does not compile. The result is the named `regex_replace_every`.
#[verifier::external_body]
pub(crate) fn replace_every(pattern: &str, text: &str, replacement: &str) -> (r: Option<String>)
    ensures
        opt_view(r) == regex_replace_every(pattern@, text@, replacement@),
{
    match Regex::new(pattern) {
        Ok(re) => Some(re.replace_all(text, replacement).into_owned()),
        Err(_) => None,
    }
}

/// Compiles `pattern` with `regex::Regex::new` and reads capture group 1 of
/// its first match in `text` with `Regex::captures`; `None` when the pattern
/// does not compile. The result is the named `regex_first_group`.
#[verifier::external_body]
pub(crate) fn first_group(pattern: &str, text: &str) -> (r: Option<Option<String>>)
    ensures
        match (r, regex_first_group(pattern@, text@)) {
            (None, None) => true,
            (Some(a), Some(b)) => opt_view(a) == b,
            _ => false,
        },
{
    match Regex::new(pattern) {
        Ok(re) => match re.captures(text) {
            Some(caps) => match caps.get(1) {
                Some(m) => Some(Some(m.as_str().to_string())),
                None => Some(None),
            },
            None => Some(None),
        },
        Err(_) => None,
    }
}

} // verus!
