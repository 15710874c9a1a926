//! How the metadata sources read their pages: the texts and attributes of the
//! elements a CSS selector matches, in the forms the page parsers use.
//!
//! The text of an element is its text nodes joined by single spaces and
//! trimmed. A field read from "the first element" is the text of the first
//! matched element, empty when nothing matches; an attribute read from "the
//! first element" is the value of the first matched element that carries it.

use vstd::prelude::*;
use crate::html::{pair_views, select_attr_values, select_links, selected_attr_values, selected_links};
use crate::text::{chars_of, collapse_ws, eq_ignore_case, eq_ignore_case_chars, list_contains, owned, slice, string_of, string_views, trim, trim_chars};

verus! {

/// The trimmed texts of the elements of `html` that `selector` matches.
pub open spec fn selected_texts(html: Seq<char>, selector: Seq<char>) -> Seq<Seq<char>> {
    selected_links(html, selector, Seq::empty()).map_values(|l: (Seq<char>, Seq<char>)| trim(l.1))
}

pub fn select_texts(html: &str, selector: &str) -> (r: Vec<String>)
    ensures
        string_views(r@) == selected_texts(html@, selector@),
{
    let links = select_links(html, selector, "");
    proof {
        reveal_strlit("");
        assert(""@ =~= Seq::<char>::empty());
    }
    let ghost lv = pair_views(links@);
    let mut out: Vec<String> = Vec::new();
    let mut i: usize = 0;
    while i < links.len()
        invariant
            i <= links.len(),
            lv == pair_views(links@),
            lv == selected_links(html@, selector@, Seq::empty()),
            string_views(out@) == lv.map_values(|l: (Seq<char>, Seq<char>)| trim(l.1)).take(i as int),
        decreases links.len() - i,
    {
        let ghost before = string_views(out@);
        let t = trim_chars(&chars_of(links[i].1.as_str()));
        out.push(string_of(&t));
        assert(lv[i as int] == (links@[i as int].0@, links@[i as int].1@));
        assert(string_views(out@) =~= before.push(trim(links@[i as int].1@)));
        assert(lv.map_values(|l: (Seq<char>, Seq<char>)| trim(l.1)).take(i + 1) =~= before.push(
            trim(links@[i as int].1@),
        ));
        i += 1;
    }
    assert(lv.map_values(|l: (Seq<char>, Seq<char>)| trim(l.1)).take(links.len() as int) =~= lv.map_values(
        |l: (Seq<char>, Seq<char>)| trim(l.1),
    ));
    out
}

/// The first text, empty when there is none.
pub open spec fn first_or_empty(v: Seq<Seq<char>>) -> Seq<char> {
    if v.len() > 0 {
        v[0]
    } else {
        Seq::empty()
    }
}

pub fn first_string(v: &Vec<String>) -> (r: String)
    ensures
        r@ == first_or_empty(string_views(v@)),
{
    if v.len() > 0 {
        owned(v[0].as_str())
    } else {
        string_of(&Vec::new())
    }
}

/// The non-empty texts, in order.
pub open spec fn nonblank(v: Seq<Seq<char>>) -> Seq<Seq<char>>
    decreases v.len(),
{
    if v.len() == 0 {
        Seq::empty()
    } else {
        let r = nonblank(v.drop_last());
        if v.last().len() > 0 {
            r.push(v.last())
        } else {
            r
        }
    }
}

pub fn nonblank_strings(v: &Vec<String>) -> (r: Vec<String>)
    ensures
        string_views(r@) == nonblank(string_views(v@)),
{
    let ghost sv = string_views(v@);
    let mut out: Vec<String> = Vec::new();
    let mut i: usize = 0;
    while i < v.len()
        invariant
            i <= v.len(),
            sv == string_views(v@),
            string_views(out@) == nonblank(sv.take(i as int)),
        decreases v.len() - i,
    {
        assert(sv.take(i + 1).drop_last() =~= sv.take(i as int));
        assert(sv.take(i + 1).last() == v@[i as int]@);
        if chars_of(v[i].as_str()).len() > 0 {
            let ghost before = string_views(out@);
            out.push(owned(v[i].as_str()));
            assert(string_views(out@) =~= before.push(v@[i as int]@));
        }
        i += 1;
    }
    assert(sv.take(v.len() as int) =~= sv);
    out
}

/// The texts, with their white space collapsed, of the links whose target
/// holds `pattern`; those left empty are dropped.
pub open spec fn link_texts_to(links: Seq<(Seq<char>, Seq<char>)>, pattern: Seq<char>) -> Seq<Seq<char>>
    decreases links.len(),
{
    if links.len() == 0 {
        Seq::empty()
    } else {
        let r = link_texts_to(links.drop_last(), pattern);
        let l = links.last();
        if crate::text::contains(l.0, pattern) && collapse_ws(l.1).len() > 0 {
            r.push(collapse_ws(l.1))
        } else {
            r
        }
    }
}

pub fn link_texts_matching(links: &Vec<(String, String)>, pattern: &str) -> (r: Vec<String>)
    ensures
        string_views(r@) == link_texts_to(pair_views(links@), pattern@),
{
    let ghost lv = pair_views(links@);
    let pv = chars_of(pattern);
    let mut out: Vec<String> = Vec::new();
    let mut i: usize = 0;
    while i < links.len()
        invariant
            i <= links.len(),
            lv == pair_views(links@),
            pv@ == pattern@,
            string_views(out@) == link_texts_to(lv.take(i as int), pattern@),
        decreases links.len() - i,
    {
        assert(lv.take(i + 1).drop_last() =~= lv.take(i as int));
        assert(lv.take(i + 1).last() == (links@[i as int].0@, links@[i as int].1@));
        let href = chars_of(links[i].0.as_str());
        if crate::text::contains_chars(&href, &pv) {
            let c = crate::text::collapse_ws_chars(&chars_of(links[i].1.as_str()));
            if c.len() > 0 {
                let ghost before = string_views(out@);
                out.push(string_of(&c));
                assert(string_views(out@) =~= before.push(c@));
            }
        }
        i += 1;
    }
    assert(lv.take(links.len() as int) =~= lv);
    out
}

/// The texts without repeats, each kept where it first occurs.
pub open spec fn dedup(v: Seq<Seq<char>>) -> Seq<Seq<char>>
    decreases v.len(),
{
    if v.len() == 0 {
        Seq::empty()
    } else {
        let r = dedup(v.drop_last());
        if r.contains(v.last()) {
            r
        } else {
            r.push(v.last())
        }
    }
}

pub fn dedup_strings(v: &Vec<String>) -> (r: Vec<String>)
    ensures
        string_views(r@) == dedup(string_views(v@)),
{
    let ghost sv = string_views(v@);
    let mut out: Vec<String> = Vec::new();
    let mut i: usize = 0;
    while i < v.len()
        invariant
            i <= v.len(),
            sv == string_views(v@),
            string_views(out@) == dedup(sv.take(i as int)),
        decreases v.len() - i,
    {
        assert(sv.take(i + 1).drop_last() =~= sv.take(i as int));
        assert(sv.take(i + 1).last() == v@[i as int]@);
        let c = chars_of(v[i].as_str());
        if !list_contains(&out, &c) {
            let ghost before = string_views(out@);
            out.push(owned(v[i].as_str()));
            assert(string_views(out@) =~= before.push(v@[i as int]@));
        }
        i += 1;
    }
    assert(sv.take(v.len() as int) =~= sv);
    out
}

/// `s` without a leading `p`, compared ignoring ASCII case; `s` itself when
/// it does not start so.
pub open spec fn strip_prefix_ci(s: Seq<char>, p: Seq<char>) -> Seq<char> {
    if p.len() <= s.len() && eq_ignore_case(s.take(p.len() as int), p) {
        s.skip(p.len() as int)
    } else {
        s
    }
}

pub fn strip_prefix_ci_chars(s: &Vec<char>, p: &Vec<char>) -> (r: Vec<char>)
    ensures
        r@ == strip_prefix_ci(s@, p@),
{
    if p.len() <= s.len() {
        let head = slice(s, 0, p.len());
        assert(head@ =~= s@.take(p.len() as int));
        if eq_ignore_case_chars(&head, p) {
            let rest = slice(s, p.len(), s.len());
            assert(rest@ =~= s@.skip(p.len() as int));
            return rest;
        }
    }
    crate::text::copy_chars(s)
}

/// The first non-empty text among the trimmed `v`, empty when there is none.
pub open spec fn first_nonblank(v: Seq<Seq<char>>) -> Seq<char> {
    first_or_empty(nonblank(v.map_values(|x: Seq<char>| trim(x))))
}

fn trimmed_all(v: &Vec<String>) -> (r: Vec<String>)
    ensures
        string_views(r@) == string_views(v@).map_values(|x: Seq<char>| trim(x)),
{
    let mut out: Vec<String> = Vec::new();
    let mut i: usize = 0;
    while i < v.len()
        invariant
            i <= v.len(),
            string_views(out@) == string_views(v@).map_values(|x: Seq<char>| trim(x)).take(i as int),
        decreases v.len() - i,
    {
        let ghost before = string_views(out@);
        out.push(string_of(&trim_chars(&chars_of(v[i].as_str()))));
        assert(string_views(out@) =~= before.push(trim(v@[i as int]@)));
        assert(string_views(v@).map_values(|x: Seq<char>| trim(x)).take(i + 1) =~= before.push(trim(v@[i as int]@)));
        i += 1;
    }
    assert(string_views(v@).map_values(|x: Seq<char>| trim(x)).take(v.len() as int) =~= string_views(v@).map_values(
        |x: Seq<char>| trim(x),
    ));
    out
}

pub fn first_nonblank_string(v: &Vec<String>) -> (r: String)
    ensures
        r@ == first_nonblank(string_views(v@)),
{
    first_string(&nonblank_strings(&trimmed_all(v)))
}

/// What the `<head>` of a page says, as the sources read it.
pub struct HeadMeta {
    /// `og:title`, else the `<title>` text.
    pub title: String,
    /// `og:image`.
    pub cover_url: String,
    /// `og:description`, else the `description` meta.
    pub description: String,
    /// `og:url`, else the canonical link.
    pub page_url: String,
}

/// The first non-empty of two readings.
pub open spec fn either(a: Seq<char>, b: Seq<char>) -> Seq<char> {
    if a.len() > 0 {
        a
    } else {
        b
    }
}

pub open spec fn head_title(html: Seq<char>) -> Seq<char> {
    either(
        first_nonblank(selected_attr_values(html, "meta[property=\"og:title\"]"@, "content"@)),
        first_nonblank(selected_texts(html, "title"@)),
    )
}

pub open spec fn head_cover(html: Seq<char>) -> Seq<char> {
    first_nonblank(selected_attr_values(html, "meta[property=\"og:image\"]"@, "content"@))
}

pub open spec fn head_description(html: Seq<char>) -> Seq<char> {
    either(
        first_nonblank(selected_attr_values(html, "meta[property=\"og:description\"]"@, "content"@)),
        first_nonblank(selected_attr_values(html, "meta[name=\"description\"]"@, "content"@)),
    )
}

pub open spec fn head_page_url(html: Seq<char>) -> Seq<char> {
    either(
        first_nonblank(selected_attr_values(html, "meta[property=\"og:url\"]"@, "content"@)),
        first_nonblank(selected_attr_values(html, "link[rel=\"canonical\"]"@, "href"@)),
    )
}

fn either_string(a: String, b: String) -> (r: String)
    ensures
        r@ == either(a@, b@),
{
    if a.as_str().is_empty() {
        b
    } else {
        a
    }
}

pub fn read_head_meta(html: &str) -> (r: HeadMeta)
    ensures
        r.title@ == head_title(html@),
        r.cover_url@ == head_cover(html@),
        r.description@ == head_description(html@),
        r.page_url@ == head_page_url(html@),
{
    HeadMeta {
        title: either_string(
            first_nonblank_string(&select_attr_values(html, "meta[property=\"og:title\"]", "content")),
            first_nonblank_string(&select_texts(html, "title")),
        ),
        cover_url: first_nonblank_string(&select_attr_values(html, "meta[property=\"og:image\"]", "content")),
        description: either_string(
            first_nonblank_string(&select_attr_values(html, "meta[property=\"og:description\"]", "content")),
            first_nonblank_string(&select_attr_values(html, "meta[name=\"description\"]", "content")),
        ),
        page_url: either_string(
            first_nonblank_string(&select_attr_values(html, "meta[property=\"og:url\"]", "content")),
            first_nonblank_string(&select_attr_values(html, "link[rel=\"canonical\"]", "href")),
        ),
    }
}

/// `s` with every leading copy of `p` removed (`trim_start_matches` with a
/// text); `s` itself when `p` is empty.
pub open spec fn trim_start_str(s: Seq<char>, p: Seq<char>) -> Seq<char>
    decreases s.len(),
{
    if p.len() > 0 && p.len() <= s.len() && s.take(p.len() as int) == p {
        trim_start_str(s.skip(p.len() as int), p)
    } else {
        s
    }
}

pub fn trim_start_str_chars(s: &Vec<char>, p: &Vec<char>) -> (r: Vec<char>)
    ensures
        r@ == trim_start_str(s@, p@),
{
    let mut lo: usize = 0;
    assert(s@.skip(0) =~= s@);
    loop
        invariant
            lo <= s.len(),
            trim_start_str(s@, p@) == trim_start_str(s@.skip(lo as int), p@),
        decreases s.len() - lo,
    {
        let rest = slice(s, lo, s.len());
        assert(rest@ =~= s@.skip(lo as int));
        if p.len() > 0 && p.len() <= rest.len() && crate::text::starts_with_chars(&rest, p) {
            assert(s@.skip(lo as int).skip(p.len() as int) =~= s@.skip(lo + p.len()));
            lo = lo + p.len();
        } else {
            return rest;
        }
    }
}

/// The pieces of `s` between the occurrences of `sep` (`str::split`).
pub open spec fn split_str(s: Seq<char>, sep: Seq<char>) -> Seq<Seq<char>>
    decreases s.len(),
{
    if sep.len() == 0 {
        seq![s]
    } else {
        match crate::text::find(s, sep) {
            Some(i) => if 0 <= i && i + sep.len() <= s.len() {
                seq![s.take(i)] + split_str(s.skip(i + sep.len()), sep)
            } else {
                seq![s]
            },
            None => seq![s],
        }
    }
}

pub fn split_str_chars(s: &Vec<char>, sep: &Vec<char>) -> (r: Vec<String>)
    requires
        sep.len() > 0,
    ensures
        string_views(r@) == split_str(s@, sep@),
{
    let mut out: Vec<String> = Vec::new();
    let mut rest = crate::text::copy_chars(s);
    loop
        invariant
            sep.len() > 0,
            split_str(s@, sep@) == string_views(out@) + split_str(rest@, sep@),
        decreases rest.len(),
    {
        proof {
            crate::text::lemma_find_from_bounds(rest@, sep@, 0);
        }
        match crate::text::find_chars(&rest, sep) {
            Some(i) => {
                let head = slice(&rest, 0, i);
                let tail = slice(&rest, i + sep.len(), rest.len());
                assert(head@ =~= rest@.take(i as int));
                assert(tail@ =~= rest@.skip(i + sep.len()));
                let ghost before = string_views(out@);
                out.push(string_of(&head));
                assert(string_views(out@) =~= before.push(head@));
                assert(split_str(rest@, sep@) == seq![head@] + split_str(tail@, sep@));
                assert(before + (seq![head@] + split_str(tail@, sep@)) =~= before.push(head@) + split_str(tail@, sep@));
                rest = tail;
            },
            None => {
                let ghost before = string_views(out@);
                out.push(string_of(&rest));
                assert(string_views(out@) =~= before.push(rest@));
                assert(split_str(rest@, sep@) == seq![rest@]);
                assert(before + seq![rest@] =~= before.push(rest@));
                return out;
            },
        }
    }
}

/// `p` occurs at `i` in `s`, ASCII case ignored.
pub open spec fn occurs_ci_at(s: Seq<char>, p: Seq<char>, i: int) -> bool {
    0 <= i && i + p.len() <= s.len() && eq_ignore_case(s.subrange(i, i + p.len()), p)
}

/// The first position at or after `i` where `p` occurs, ASCII case ignored.
pub open spec fn find_ci_from(s: Seq<char>, p: Seq<char>, i: int) -> Option<int>
    decreases s.len() + 1 - i,
{
    if i < 0 || i + p.len() > s.len() {
        None
    } else if occurs_ci_at(s, p, i) {
        Some(i)
    } else {
        find_ci_from(s, p, i + 1)
    }
}

/// `s` up to the first occurrence of `p` (ASCII case ignored); all of `s`
/// when `p` does not occur.
pub open spec fn strip_from_ci(s: Seq<char>, p: Seq<char>) -> Seq<char> {
    match find_ci_from(s, p, 0) {
        Some(i) => s.take(i),
        None => s,
    }
}

pub fn strip_from_ci_chars(s: &Vec<char>, p: &Vec<char>) -> (r: Vec<char>)
    ensures
        r@ == strip_from_ci(s@, p@),
{
    if p.len() > s.len() {
        return crate::text::copy_chars(s);
    }
    if p.len() == 0 {
        assert(occurs_ci_at(s@, p@, 0)) by {
            assert(s@.subrange(0, 0) =~= p@);
        }
        let e: Vec<char> = Vec::new();
        assert(e@ =~= s@.take(0));
        return e;
    }
    let mut i: usize = 0;
    while i <= s.len() - p.len()
        invariant
            0 < p.len() <= s.len(),
            i <= s.len() - p.len() + 1,
            find_ci_from(s@, p@, 0) == find_ci_from(s@, p@, i as int),
        decreases s.len() - p.len() + 1 - i,
    {
        let piece = slice(s, i, i + p.len());
        assert(piece@ =~= s@.subrange(i as int, i + p.len()));
        if eq_ignore_case_chars(&piece, p) {
            let head = slice(s, 0, i);
            assert(head@ =~= s@.take(i as int));
            return head;
        }
        i += 1;
    }
    crate::text::copy_chars(s)
}

} // verus!
