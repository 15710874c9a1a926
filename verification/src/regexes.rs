//! Regular expressions through the `regex` crate.

use vstd::prelude::*;

verus! {

/// `text` with every non-overlapping match of `pattern` replaced by
/// `replacement` (with `$name` expansion), or `None` when the pattern does not
/// compile.
pub uninterp spec fn regex_replaced(pattern: Seq<char>, text: Seq<char>, replacement: Seq<char>) -> Option<Seq<char>>;

/// The capture groups of the leftmost-first match of `pattern` in `text`
/// (group 0 is the whole match; a group that did not take part is `None`), or
/// `None` when the pattern does not compile or does not match.
pub uninterp spec fn regex_captured(pattern: Seq<char>, text: Seq<char>) -> Option<Seq<Option<Seq<char>>>>;

pub open spec fn opt_views(v: Seq<Option<String>>) -> Seq<Option<Seq<char>>> {
    v.map_values(
        |o: Option<String>|
            match o {
                Some(s) => Some(s@),
                None => None,
            },
    )
}

/// `regex::Regex::new(pattern)` and `Regex::replace_all(text, replacement)`.
/// The result is named (`regex_replaced`), a function of the three texts.
#[verifier::external_body]
pub(crate) fn replace_all_matches(pattern: &str, text: &str, replacement: &str) -> (r: Option<String>)
    ensures
        match r {
            Some(s) => regex_replaced(pattern@, text@, replacement@) == Some(s@),
            None => regex_replaced(pattern@, text@, replacement@) is None,
        },
{
    match regex::Regex::new(pattern) {
        Ok(re) => Some(re.replace_all(text, replacement).into_owned()),
        Err(_) => None,
    }
}

/// `regex::Regex::new(pattern)` and `Regex::captures(text)`: every group of the
/// match, in order. The result is named (`regex_captured`), a function of the
/// two texts.
#[verifier::external_body]
pub(crate) fn first_captures(pattern: &str, text: &str) -> (r: Option<Vec<Option<String>>>)
    ensures
        match r {
            Some(v) => regex_captured(pattern@, text@) == Some(opt_views(v@)),
            None => regex_captured(pattern@, text@) is None,
        },
{
    let re = match regex::Regex::new(pattern) {
        Ok(re) => re,
        Err(_) => return None,
    };
    let caps = re.captures(text)?;
    let mut groups: Vec<Option<String>> = Vec::new();
    for m in caps.iter() {
        groups.push(match m {
            Some(x) => Some(x.as_str().to_string()),
            None => None,
        });
    }
    Some(groups)
}

} // verus!
