//! URL parsing and resolution through the `url` crate (WHATWG URL Standard).

use vstd::prelude::*;

verus! {

/// The scheme of `base` once parsed as an absolute URL (lower-cased, without
/// `:`), or `None` when it does not parse.
pub uninterp spec fn url_scheme(base: Seq<char>) -> Option<Seq<char>>;

/// `rel` resolved against `base` (both parsed as the URL Standard says) and
/// serialised, or `None` when either fails to parse.
pub uninterp spec fn url_joined(base: Seq<char>, rel: Seq<char>) -> Option<Seq<char>>;

/// `url::Url::parse(base)` then `Url::scheme`. The result is named
/// (`url_scheme`), a function of `base` alone.
#[verifier::external_body]
pub(crate) fn scheme_of(base: &str) -> (r: Option<String>)
    ensures
        match r {
            Some(s) => url_scheme(base@) == Some(s@),
            None => url_scheme(base@) is None,
        },
{
    match url::Url::parse(base) {
        Ok(u) => Some(u.scheme().to_string()),
        Err(_) => None,
    }
}

/// `url::Url::parse(base)`, `Url::join(rel)` and the serialisation of the
/// result (`Url::as_str`). The result is named (`url_joined`), a function of
/// `base` and `rel` alone.
#[verifier::external_body]
pub(crate) fn join_url(base: &str, rel: &str) -> (r: Option<String>)
    ensures
        match r {
            Some(s) => url_joined(base@, rel@) == Some(s@),
            None => url_joined(base@, rel@) is None,
        },
{
    match url::Url::parse(base) {
        Ok(b) => match b.join(rel) {
            Ok(u) => Some(u.as_str().to_string()),
            Err(_) => None,
        },
        Err(_) => None,
    }
}

} // verus!

verus! {

/// The path segments of `url` once parsed (`Url::path_segments`), or `None`
/// when it does not parse or cannot be a base.
pub uninterp spec fn url_path_segments(url: Seq<char>) -> Option<Seq<Seq<char>>>;

/// `url::Url::parse(url)` and `Url::path_segments`, collected. The result is
/// named (`url_path_segments`), a function of `url` alone.
#[verifier::external_body]
pub(crate) fn path_segments_of(url: &str) -> (r: Option<Vec<String>>)
    ensures
        match r {
            Some(v) => url_path_segments(url@) == Some(crate::text::string_views(v@)),
            None => url_path_segments(url@) is None,
        },
{
    let parsed = match url::Url::parse(url) {
        Ok(u) => u,
        Err(_) => return None,
    };
    let segments = parsed.path_segments()?;
    let mut out: Vec<String> = Vec::new();
    for s in segments {
        out.push(s.to_string());
    }
    Some(out)
}

} // verus!
