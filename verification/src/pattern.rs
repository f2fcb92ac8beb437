//! The regular-expression engine, reached through two calls whose results are
//! named rather than described.

use vstd::prelude::*;

verus! {

/// What the engine makes of `text` when every match of `pattern` is replaced
/// by `with`; `None` where the engine rejects the pattern.
pub uninterp spec fn regex_replaced(pattern: Seq<char>, text: Seq<char>, with: Seq<char>) -> Option<
    Seq<char>,
>;

/// What capture group `group` holds in the leftmost match of `pattern` in
/// `text`: `None` where the engine rejects the pattern, `Some(None)` where
/// nothing matches or the group takes no part in the match.
pub uninterp spec fn regex_group(pattern: Seq<char>, text: Seq<char>, group: nat) -> Option<
    Option<Seq<char>>,
>;

/// Compiles `pattern` with `regex::Regex::new` and runs
/// `regex::Regex::replace_all` on `text`. Trusted: the result is the engine's,
/// a function of the three texts alone; nothing is proved of what it holds.
#[verifier::external_body]
pub(crate) fn replace_matches(pattern: &str, text: &str, with: &str) -> (r: Option<String>)
    ensures
        regex_replaced(pattern@, text@, with@) == (match r {
            Some(s) => Some(s@),
            None => None,
        }),
{
    match regex::Regex::new(pattern) {
        Ok(re) => Some(re.replace_all(text, with).into_owned()),
        Err(_) => None,
    }
}

/// Compiles `pattern` with `regex::Regex::new`, runs `regex::Regex::captures`
/// on `text` and hands out the text of one group (`Captures::get`,
/// `Match::as_str`). Trusted: the result is the engine's, a function of the
/// arguments alone; nothing is proved of what it holds.
#[verifier::external_body]
pub(crate) fn capture_group(pattern: &str, text: &str, group: usize) -> (r: Option<Option<String>>)
    ensures
        regex_group(pattern@, text@, group as nat) == (match r {
            Some(Some(s)) => Some(Some(s@)),
            Some(None) => Some(None),
            None => None,
        }),
{
    match regex::Regex::new(pattern) {
        Ok(re) => match re.captures(text) {
            Some(found) => match found.get(group) {
                Some(m) => Some(Some(m.as_str().to_string())),
                None => Some(None),
            },
            None => Some(None),
        },
        Err(_) => None,
    }
}

} // verus!
