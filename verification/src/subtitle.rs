//! Simplified-Chinese subtitles from subtitlecat: the search URL, which result
//! links to follow, which download link to take, and where the file goes
//! (`<stem>.zh.srt`, the ISO 639 code that media players recognise).

use vstd::prelude::*;
use crate::html::{select_attr_values, selected_attr_values};
use crate::paths::{join, join_chars};
use crate::seqs::{first_match, lemma_first_match_at, lemma_first_match_step};
use crate::text::{
    chars_of, concat, contains, contains_chars, ends_with, ends_with_str, is_alnum, is_alnum_char,
    lower_chars, lower_seq, slice, starts_with, starts_with_str, string_of, string_views, trim,
    trim_str, upper, upper_char,
};

verus! {

/// Root of the subtitlecat site.
pub const SUBTITLECAT_BASE_URL: &'static str = "https://www.subtitlecat.com";

/// Language code of a saved subtitle: `<stem>.zh.srt`.
pub const SUBTITLE_LANG_SUFFIX: &'static str = "zh";

/// Language code of simplified Chinese in subtitlecat download links.
pub const SUBTITLECAT_ZH_CODE: &'static str = "zh-cn";

/// Result pages visited at most per search.
pub const MAX_DETAIL_PAGES: usize = 5;

// ------------------------------------------------------------------
// Designation matching
// ------------------------------------------------------------------

/// The ASCII letters and digits of `s`, upper-cased (`SSIS-001` → `SSIS001`).
pub open spec fn alnum_upper(s: Seq<char>) -> Seq<char>
    decreases s.len(),
{
    if s.len() == 0 {
        Seq::empty()
    } else {
        let r = alnum_upper(s.drop_last());
        if is_alnum(s.last()) {
            r.push(upper(s.last()))
        } else {
            r
        }
    }
}

fn alnum_upper_chars(s: &Vec<char>) -> (r: Vec<char>)
    ensures
        r@ == alnum_upper(s@),
{
    let mut r: Vec<char> = Vec::new();
    let mut i: usize = 0;
    while i < s.len()
        invariant
            i <= s.len(),
            r@ == alnum_upper(s@.take(i as int)),
        decreases s.len() - i,
    {
        assert(s@.take(i + 1).drop_last() =~= s@.take(i as int));
        let c = s[i];
        if is_alnum_char(c) {
            r.push(upper_char(c));
        }
        i += 1;
    }
    assert(s@.take(s.len() as int) =~= s@);
    r
}

/// Keeps the ASCII letters and digits of a designation, upper-cased, so that
/// case and separators do not matter.
pub fn normalize_id(s: &str) -> (r: String)
    ensures
        r@ == alnum_upper(s@),
{
    let v = chars_of(s);
    let r = alnum_upper_chars(&v);
    string_of(&r)
}

// ------------------------------------------------------------------
// Links
// ------------------------------------------------------------------

/// `s` without one leading `/`.
pub open spec fn strip_slash(s: Seq<char>) -> Seq<char> {
    if s.len() > 0 && s[0] == '/' {
        s.drop_first()
    } else {
        s
    }
}

fn strip_slash_chars(s: &Vec<char>) -> (r: Vec<char>)
    ensures
        r@ == strip_slash(s@),
{
    if s.len() > 0 && s[0] == '/' {
        let r = slice(s, 1, s.len());
        assert(r@ =~= s@.drop_first());
        r
    } else {
        slice(s, 0, s.len())
    }
}

/// A result-page link: `subs/<id>/<...>.html`, with or without a leading `/`.
pub open spec fn is_detail_href(href: Seq<char>) -> bool {
    starts_with(strip_slash(href), "subs/"@) && ends_with(lower_seq(strip_slash(href)), ".html"@)
}

fn is_detail_chars(href: &Vec<char>) -> (r: bool)
    ensures
        r == is_detail_href(href@),
{
    let p = strip_slash_chars(href);
    let lower = lower_chars(&p);
    starts_with_str(&p, "subs/") && ends_with_str(&lower, ".html")
}

/// Is `href` a link to a subtitle result page?
pub fn is_detail_link(href: &str) -> (r: bool)
    ensures
        r == is_detail_href(href@),
{
    let v = chars_of(href);
    is_detail_chars(&v)
}

/// Absolute form of a subtitlecat link: `http(s)` links unchanged, others
/// appended to the site root.
pub open spec fn absolute_link(href: Seq<char>) -> Seq<char> {
    if starts_with(href, "http://"@) || starts_with(href, "https://"@) {
        href
    } else {
        SUBTITLECAT_BASE_URL@ + seq!['/'] + strip_slash(href)
    }
}

/// Makes a site-relative link absolute.
pub fn absolutize(href: &str) -> (r: String)
    ensures
        r@ == absolute_link(href@),
{
    let v = chars_of(href);
    if starts_with_str(&v, "http://") || starts_with_str(&v, "https://") {
        string_of(&v)
    } else {
        let base = chars_of(SUBTITLECAT_BASE_URL);
        let mut slash: Vec<char> = Vec::new();
        slash.push('/');
        let a = concat(&base, &slash);
        let rest = strip_slash_chars(&v);
        let r = concat(&a, &rest);
        assert(slash@ =~= seq!['/']);
        string_of(&r)
    }
}

/// The result-page links of a search that belong to `number`: the designation
/// letters and digits occur in the link. The search is fuzzy, so this is what
/// keeps a subtitle of another title out.
pub open spec fn links_for(hrefs: Seq<Seq<char>>, number: Seq<char>) -> Seq<Seq<char>> {
    hrefs.filter(|h: Seq<char>| is_detail_href(h) && contains(alnum_upper(h), alnum_upper(number)))
}

/// Keeps the result-page links (in order) that belong to `number`.
pub fn filter_detail_links(hrefs: &Vec<String>, number: &str) -> (r: Vec<String>)
    ensures
        string_views(r@) == links_for(string_views(hrefs@), number@),
{
    let ghost hv = string_views(hrefs@);
    let ghost f = |h: Seq<char>| is_detail_href(h) && contains(alnum_upper(h), alnum_upper(number@));
    let nv = chars_of(number);
    let target = alnum_upper_chars(&nv);
    let mut r: Vec<String> = Vec::new();
    let mut i: usize = 0;
    while i < hrefs.len()
        invariant
            i <= hrefs.len(),
            hv == string_views(hrefs@),
            f == (|h: Seq<char>| is_detail_href(h) && contains(alnum_upper(h), alnum_upper(number@))),
            target@ == alnum_upper(number@),
            string_views(r@) == hv.take(i as int).filter(f),
        decreases hrefs.len() - i,
    {
        reveal_with_fuel(Seq::<_>::filter, 1);
        assert(hv.take(i + 1).drop_last() =~= hv.take(i as int));
        let h = chars_of(hrefs[i].as_str());
        assert(hv[i as int] == h@);
        let norm = alnum_upper_chars(&h);
        if is_detail_chars(&h) && contains_chars(&norm, &target) {
            r.push(string_of(&h));
        }
        i += 1;
        assert(string_views(r@) =~= hv.take(i as int).filter(f));
    }
    assert(hv.take(hrefs.len() as int) =~= hv);
    r
}

/// The result-page links of a search page that belong to `number`.
pub fn pick_detail_links(search_html: &str, number: &str) -> (r: Vec<String>)
    ensures
        string_views(r@) == links_for(selected_attr_values(search_html@, "a[href]"@, "href"@), number@),
{
    let hrefs = select_attr_values(search_html, "a[href]", "href");
    filter_detail_links(&hrefs, number)
}

/// A simplified-Chinese download link: it ends with `-zh-cn.srt`, in any case
/// (`zh-TW` is traditional Chinese and does not count).
pub open spec fn is_zh_srt(href: Seq<char>) -> bool {
    ends_with(lower_seq(href), "-zh-cn.srt"@)
}

pub open spec fn zh_srt_pred() -> spec_fn(Seq<char>) -> bool {
    |h: Seq<char>| is_zh_srt(h)
}

/// The first simplified-Chinese download link among `hrefs`.
pub fn pick_zh_subtitle(hrefs: &Vec<String>) -> (r: Option<String>)
    ensures
        match first_match(string_views(hrefs@), zh_srt_pred()) {
            Some(i) => r matches Some(h) && h@ == string_views(hrefs@)[i],
            None => r is None,
        },
{
    let ghost hv = string_views(hrefs@);
    let ghost f = zh_srt_pred();
    let mut i: usize = 0;
    while i < hrefs.len()
        invariant
            i <= hrefs.len(),
            hv == string_views(hrefs@),
            f == zh_srt_pred(),
            first_match(hv.take(i as int), f) is None,
        decreases hrefs.len() - i,
    {
        let h = chars_of(hrefs[i].as_str());
        assert(hv[i as int] == h@);
        let lower = lower_chars(&h);
        if ends_with_str(&lower, "-zh-cn.srt") {
            proof {
                lemma_first_match_at(hv, f, i as int);
            }
            return Some(string_of(&h));
        }
        proof {
            lemma_first_match_step(hv, f, i as int);
        }
        i += 1;
    }
    assert(hv.take(hrefs.len() as int) =~= hv);
    None
}

/// The simplified-Chinese download link of a subtitle result page.
pub fn extract_zh_subtitle_href(detail_html: &str) -> (r: Option<String>)
    ensures
        match first_match(selected_attr_values(detail_html@, "a[href$=\".srt\"]"@, "href"@), zh_srt_pred()) {
            Some(i) => r matches Some(h) && h@ == selected_attr_values(
                detail_html@,
                "a[href$=\".srt\"]"@,
                "href"@,
            )[i],
            None => r is None,
        },
{
    let hrefs = select_attr_values(detail_html, "a[href$=\".srt\"]", "href");
    pick_zh_subtitle(&hrefs)
}

// ------------------------------------------------------------------
// Query encoding, search URL and file location
// ------------------------------------------------------------------

/// Bytes kept as they are in a query: ASCII letters, digits and `-_.~`.
pub open spec fn is_unreserved(b: u8) -> bool {
    (0x41 <= b <= 0x5a) || (0x61 <= b <= 0x7a) || (0x30 <= b <= 0x39) || b == 0x2d || b == 0x5f
        || b == 0x2e || b == 0x7e
}

/// Upper-case hexadecimal digit of `n < 16`.
pub open spec fn hex_digit(n: u8) -> char {
    if n < 10 {
        ((n + 48) as u8) as char
    } else {
        ((n + 55) as u8) as char
    }
}

/// One byte of a query: itself, or `%XX`.
pub open spec fn encode_byte(b: u8) -> Seq<char> {
    if is_unreserved(b) {
        seq![b as char]
    } else {
        seq!['%', hex_digit(b / 16), hex_digit(b % 16)]
    }
}

pub open spec fn encode_bytes(bs: Seq<u8>) -> Seq<char>
    decreases bs.len(),
{
    if bs.len() == 0 {
        Seq::empty()
    } else {
        encode_bytes(bs.drop_last()) + encode_byte(bs.last())
    }
}

fn hex_char(n: u8) -> (r: char)
    requires
        n < 16,
    ensures
        r == hex_digit(n),
{
    if n < 10 {
        let b: u8 = n + 48;
        b as char
    } else {
        let b: u8 = n + 55;
        b as char
    }
}

/// Percent-encodes the UTF-8 bytes of `s` for a URL query, keeping the
/// unreserved ASCII characters.
pub fn encode_query(s: &str) -> (r: String)
    ensures
        r@ == encode_bytes(vstd::utf8::encode_utf8(s@)),
{
    let bytes = s.as_bytes();
    let ghost bs = vstd::utf8::encode_utf8(s@);
    assert(bytes@ == bs);
    let mut out: Vec<char> = Vec::new();
    let mut i: usize = 0;
    while i < bytes.len()
        invariant
            i <= bytes.len(),
            bytes@ == bs,
            out@ == encode_bytes(bs.take(i as int)),
        decreases bytes.len() - i,
    {
        let b = bytes[i];
        assert(bs.take(i + 1).drop_last() =~= bs.take(i as int));
        if (0x41 <= b && b <= 0x5a) || (0x61 <= b && b <= 0x7a) || (0x30 <= b && b <= 0x39) || b
            == 0x2d || b == 0x5f || b == 0x2e || b == 0x7e {
            out.push(b as char);
            assert(out@ =~= encode_bytes(bs.take(i + 1)));
        } else {
            out.push('%');
            out.push(hex_char(b / 16));
            out.push(hex_char(b % 16));
            assert(out@ =~= encode_bytes(bs.take(i + 1)));
        }
        i += 1;
    }
    assert(bs.take(bytes.len() as int) =~= bs);
    string_of(&out)
}

/// The search URL for a designation; `None` when it is blank.
pub open spec fn search_url(number: Seq<char>) -> Option<Seq<char>> {
    let n = trim(number);
    if n.len() == 0 {
        None
    } else {
        Some(SUBTITLECAT_BASE_URL@ + "/index.php?search="@ + encode_bytes(vstd::utf8::encode_utf8(n)))
    }
}

/// The subtitlecat search URL for a designation (`None` when it is blank).
pub fn subtitle_search_url(number: &str) -> (r: Option<String>)
    ensures
        match search_url(number@) {
            Some(u) => r matches Some(s) && s@ == u,
            None => r is None,
        },
{
    let n = trim_str(number);
    if n.len() == 0 {
        return None;
    }
    let ns = string_of(&n);
    let q = encode_query(ns.as_str());
    let base = chars_of(SUBTITLECAT_BASE_URL);
    let path = chars_of("/index.php?search=");
    let qv = chars_of(q.as_str());
    let a = concat(&base, &path);
    let u = concat(&a, &qv);
    Some(string_of(&u))
}

/// Where the subtitle of a video is saved: `<dir>/<stem>.zh.srt`.
pub open spec fn subtitle_path(dir: Seq<char>, stem: Seq<char>) -> Seq<char> {
    join(dir, stem + seq!['.'] + SUBTITLE_LANG_SUFFIX@ + ".srt"@)
}

/// The file a downloaded subtitle is saved to.
pub fn subtitle_save_path(dir: &str, stem: &str) -> (r: String)
    ensures
        r@ == subtitle_path(dir@, stem@),
{
    let d = chars_of(dir);
    let s = chars_of(stem);
    let mut dot: Vec<char> = Vec::new();
    dot.push('.');
    let lang = chars_of(SUBTITLE_LANG_SUFFIX);
    let ext = chars_of(".srt");
    let a = concat(&s, &dot);
    let b = concat(&a, &lang);
    let name = concat(&b, &ext);
    assert(dot@ =~= seq!['.']);
    let p = join_chars(&d, &name);
    string_of(&p)
}


proof fn lemma_upper_of_alnum(c: char)
    requires
        is_alnum(c),
    ensures
        is_alnum(upper(c)),
        upper(upper(c)) == upper(c),
{
}

proof fn lemma_alnum_upper_chars(s: Seq<char>)
    ensures
        forall|i: int| 0 <= i < alnum_upper(s).len() ==> is_alnum(#[trigger] alnum_upper(s)[i])
            && upper(alnum_upper(s)[i]) == alnum_upper(s)[i],
    decreases s.len(),
{
    if s.len() > 0 {
        lemma_alnum_upper_chars(s.drop_last());
        let r = alnum_upper(s.drop_last());
        if is_alnum(s.last()) {
            lemma_upper_of_alnum(s.last());
            let n = r.push(upper(s.last()));
            assert forall|i: int| 0 <= i < n.len() implies is_alnum(#[trigger] n[i]) && upper(n[i]) == n[i] by {
                if i < r.len() {
                    assert(n[i] == r[i]);
                }
            }
        }
    }
}

proof fn lemma_alnum_upper_fixed(t: Seq<char>)
    requires
        forall|i: int| 0 <= i < t.len() ==> is_alnum(#[trigger] t[i]) && upper(t[i]) == t[i],
    ensures
        alnum_upper(t) == t,
    decreases t.len(),
{
    if t.len() > 0 {
        let init = t.drop_last();
        assert forall|i: int| 0 <= i < init.len() implies is_alnum(#[trigger] init[i]) && upper(init[i]) == init[i] by {
            assert(init[i] == t[i]);
        }
        lemma_alnum_upper_fixed(init);
        assert(is_alnum(t[t.len() - 1]));
        assert(init.push(upper(t.last())) =~= t);
    }
}

/// Normalising a designation twice gives what normalising it once gives.
pub proof fn lemma_normalize_id_idempotent(s: Seq<char>)
    ensures
        alnum_upper(alnum_upper(s)) == alnum_upper(s),
{
    lemma_alnum_upper_chars(s);
    lemma_alnum_upper_fixed(alnum_upper(s));
}

} // verus!
