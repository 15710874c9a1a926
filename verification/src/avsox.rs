//! The avsox source (uncensored releases only): how its catalogue writes
//! designations, links on its pages, and fields of its information block.
//!
//! The site lists `SMBD-050` as `SMBD-50` and every FC2 title as
//! `FC2-PPV-xxx`, so a search tries several spellings and compares loosely;
//! D2Pass numeric designations are used as they are, since their separator and
//! leading zeros carry meaning.

use vstd::prelude::*;
use crate::designation::{is_d2pass, is_d2pass_designation, same_designation, same_designation_spec};
use crate::paths::{last_index_of, last_index_of_chars, lemma_last_index_of};
use crate::html::{pair_views, select_attr_values, select_links, selected_attr_values, selected_links};
use crate::page::{first_or_empty, first_string, link_texts_matching, link_texts_to, nonblank, nonblank_strings, select_texts, selected_texts};
use crate::scrape::SearchResult;
use crate::seqs::first_match;
use crate::subtitle::alnum_upper;
use crate::text::{
    all_digits, chars_of, concat, join_strings, owned, replace_all, contains, contains_chars, ends_with, ends_with_str, find, find_chars, join, join_chars, same,
    slice, split_set, split_set_chars, starts_with, starts_with_str, string_of, string_views, trim,
    trim_chars, trim_start_char, trim_start_char_chars, unicode_upper, to_uppercase, views, words,
    words_chars,
};

verus! {

/// Main domain of the site.
pub const AVSOX_BASE: &'static str = "https://avsox.click";

/// Mirror prefix of AVE sample images that no longer serves them.
pub const DEAD_AVE_SAMPLE_PREFIX: &'static str = "https://file.netcdn.space/ave/vodimages/screenshot/";

/// The AVE image host with the same paths (WebP only).
pub const AVE_SAMPLE_PREFIX: &'static str = "https://imgs02.aventertainments.com/archive/vodimages/screenshot/";

// ------------------------------------------------------------------
// Search spellings
// ------------------------------------------------------------------

/// Spellings to search for an upper-cased designation `code`: the designation
/// itself; then, unless it is a D2Pass designation and when it has a `-`, the
/// number without leading zeros (when that changes it and leaves something),
/// and for an `FC2` prefix the `FC2-PPV-` form.
pub open spec fn queries_of(code: Seq<char>) -> Seq<Seq<char>> {
    if is_d2pass(code) {
        seq![code]
    } else {
        match last_index_of(code, '-') {
            None => seq![code],
            Some(k) => {
                let prefix = code.take(k);
                let number = code.skip(k + 1);
                let trimmed = trim_start_char(number, '0');
                let a = if trimmed.len() > 0 && trimmed != number {
                    seq![code, prefix + seq!['-'] + trimmed]
                } else {
                    seq![code]
                };
                if prefix == "FC2"@ {
                    a.push("FC2-PPV-"@ + number)
                } else {
                    a
                }
            },
        }
    }
}

/// The search spellings of an already trimmed and upper-cased designation.
pub fn queries_for(code: &str) -> (r: Vec<String>)
    ensures
        string_views(r@) == queries_of(code@),
{
    let c = chars_of(code);
    let mut out: Vec<String> = Vec::new();
    out.push(string_of(&c));
    if is_d2pass_designation(code) {
        assert(string_views(out@) =~= queries_of(code@));
        return out;
    }
    match last_index_of_chars(&c, '-') {
        None => {
            assert(string_views(out@) =~= queries_of(code@));
            out
        },
        Some(k) => {
            let prefix = slice(&c, 0, k);
            assert(prefix@ =~= c@.take(k as int));
            let number = slice(&c, k + 1, c.len());
            assert(number@ =~= c@.skip(k + 1));
            let trimmed = trim_start_char_chars(&number, '0');
            let ghost first = string_views(out@);
            if trimmed.len() > 0 && !same(&trimmed, &number) {
                let mut dash: Vec<char> = Vec::new();
                dash.push('-');
                let a = concat(&prefix, &dash);
                let q = concat(&a, &trimmed);
                assert(dash@ =~= seq!['-']);
                out.push(string_of(&q));
                assert(string_views(out@) =~= seq![code@, prefix@ + seq!['-'] + trimmed@]);
            } else {
                assert(string_views(out@) =~= seq![code@]);
            }
            let fc2 = chars_of("FC2");
            if same(&prefix, &fc2) {
                let ppv = chars_of("FC2-PPV-");
                let q = concat(&ppv, &number);
                let ghost before = string_views(out@);
                out.push(string_of(&q));
                assert(string_views(out@) =~= before.push("FC2-PPV-"@ + number@));
            }
            out
        },
    }
}

/// Spellings to search for a designation, trimmed and upper-cased.
pub fn search_queries(code: &str) -> (r: Vec<String>)
    ensures
        string_views(r@) == queries_of(unicode_upper(trim(code@))),
{
    let t = trim_chars(&chars_of(code));
    let ts = string_of(&t);
    let u = to_uppercase(ts.as_str());
    queries_for(u.as_str())
}

// ------------------------------------------------------------------
// Loose comparison
// ------------------------------------------------------------------

/// Separators between the parts of a designation.
pub open spec fn code_separators() -> Seq<char> {
    seq!['-', '_', ' ']
}

/// The parts of an upper-cased designation that count: non-empty and not `PPV`.
pub open spec fn code_parts(u: Seq<char>) -> Seq<Seq<char>> {
    split_set(u, code_separators()).filter(|p: Seq<char>| p.len() > 0 && p != "PPV"@)
}

/// `(prefix, number)` of an upper-cased designation: the parts before the
/// last joined by `-`, and the last without leading zeros; `None` when there
/// is no prefix or the number is empty or not all digits.
pub open spec fn split_of(u: Seq<char>) -> Option<(Seq<char>, Seq<char>)> {
    let parts = code_parts(u);
    if parts.len() < 2 {
        None
    } else {
        let number = trim_start_char(parts.last(), '0');
        if number.len() == 0 || !all_digits(number) {
            None
        } else {
            Some((join(parts.drop_last(), seq!['-']), number))
        }
    }
}

fn all_digits_vec(s: &Vec<char>) -> (r: bool)
    ensures
        r == all_digits(s@),
{
    let mut i: usize = 0;
    while i < s.len()
        invariant
            i <= s.len(),
            forall|k: int| 0 <= k < i ==> crate::text::is_digit(#[trigger] s@[k]),
        decreases s.len() - i,
    {
        if !crate::text::is_digit_char(s[i]) {
            return false;
        }
        i += 1;
    }
    true
}

/// Splits an already trimmed and upper-cased designation into
/// `(prefix, number)`.
pub fn split_upper(u: &str) -> (r: Option<(String, String)>)
    ensures
        match split_of(u@) {
            Some((p, n)) => r matches Some((a, b)) && a@ == p && b@ == n,
            None => r is None,
        },
{
    let uv = chars_of(u);
    let mut seps: Vec<char> = Vec::new();
    seps.push('-');
    seps.push('_');
    seps.push(' ');
    assert(seps@ =~= code_separators());
    let pieces = split_set_chars(&uv, &seps);
    let ghost pv = views(pieces@);
    let ghost f = |p: Seq<char>| p.len() > 0 && p != "PPV"@;
    let ppv = chars_of("PPV");
    let mut parts: Vec<Vec<char>> = Vec::new();
    let mut i: usize = 0;
    while i < pieces.len()
        invariant
            i <= pieces.len(),
            pv == views(pieces@),
            pv == split_set(u@, code_separators()),
            ppv@ == "PPV"@,
            f == (|p: Seq<char>| p.len() > 0 && p != "PPV"@),
            views(parts@) == pv.take(i as int).filter(f),
        decreases pieces.len() - i,
    {
        reveal_with_fuel(Seq::<_>::filter, 1);
        assert(pv.take(i + 1).drop_last() =~= pv.take(i as int));
        let p = &pieces[i];
        assert(pv[i as int] == p@);
        if p.len() > 0 && !same(p, &ppv) {
            let ghost before = views(parts@);
            parts.push(crate::text::copy_chars(p));
            assert(views(parts@) =~= before.push(p@));
        }
        i += 1;
        assert(views(parts@) =~= pv.take(i as int).filter(f));
    }
    assert(pv.take(pieces.len() as int) =~= pv);
    assert(views(parts@) == code_parts(u@));
    if parts.len() < 2 {
        return None;
    }
    let last = parts.len() - 1;
    let number = trim_start_char_chars(&parts[last], '0');
    assert(views(parts@).last() == parts@[last as int]@);
    if number.len() == 0 || !all_digits_vec(&number) {
        return None;
    }
    let mut head: Vec<Vec<char>> = Vec::new();
    let mut j: usize = 0;
    while j < last
        invariant
            j <= last < parts.len(),
            views(head@) == views(parts@).take(j as int),
        decreases last - j,
    {
        let ghost before = views(head@);
        assert(views(parts@)[j as int] == parts@[j as int]@);
        let x = crate::text::copy_chars(&parts[j]);
        head.push(x);
        assert(views(head@) =~= before.push(views(parts@)[j as int]));
        j += 1;
        assert(views(head@) =~= views(parts@).take(j as int));
    }
    assert(views(parts@).take(last as int) =~= views(parts@).drop_last());
    let mut dash: Vec<char> = Vec::new();
    dash.push('-');
    assert(dash@ =~= seq!['-']);
    let prefix = join_chars(&head, &dash);
    Some((string_of(&prefix), string_of(&number)))
}

/// `(prefix, number)` of a designation (trimmed and upper-cased first).
pub fn split_code(s: &str) -> (r: Option<(String, String)>)
    ensures
        match split_of(unicode_upper(trim(s@))) {
            Some((p, n)) => r matches Some((a, b)) && a@ == p && b@ == n,
            None => r is None,
        },
{
    let t = trim_chars(&chars_of(s));
    let ts = string_of(&t);
    let u = to_uppercase(ts.as_str());
    split_upper(u.as_str())
}

/// The designation listed by the site is the one searched for, given both
/// upper-cased: the same designation; or, when neither is a D2Pass
/// designation, the same prefix and number (ignoring `PPV` and leading zeros).
pub open spec fn loosely_same(candidate: Seq<char>, code: Seq<char>, cu: Seq<char>, ku: Seq<char>) -> bool {
    same_designation_spec(candidate, code) || (!is_d2pass(candidate) && !is_d2pass(code) && match (
        split_of(cu),
        split_of(ku),
    ) {
        (Some(a), Some(b)) => a == b,
        _ => false,
    })
}

/// The loose comparison does not depend on which side is the listed one.
pub proof fn lemma_same_code_loose_symmetric(a: Seq<char>, b: Seq<char>)
    ensures
        loosely_same(a, b, unicode_upper(trim(a)), unicode_upper(trim(b))) == loosely_same(
            b,
            a,
            unicode_upper(trim(b)),
            unicode_upper(trim(a)),
        ),
{
}

/// Every designation is loosely the same as itself.
pub proof fn lemma_same_code_loose_reflexive(a: Seq<char>)
    ensures
        loosely_same(a, a, unicode_upper(trim(a)), unicode_upper(trim(a))),
{
}

/// Is the designation listed by the site the one searched for?
pub fn same_code_loose(candidate: &str, code: &str) -> (r: bool)
    ensures
        r == loosely_same(
            candidate@,
            code@,
            unicode_upper(trim(candidate@)),
            unicode_upper(trim(code@)),
        ),
{
    if same_designation(candidate, code) {
        return true;
    }
    if is_d2pass_designation(candidate) || is_d2pass_designation(code) {
        return false;
    }
    match (split_code(candidate), split_code(code)) {
        (Some((a1, a2)), Some((b1, b2))) => {
            let x1 = chars_of(a1.as_str());
            let x2 = chars_of(a2.as_str());
            let y1 = chars_of(b1.as_str());
            let y2 = chars_of(b2.as_str());
            same(&x1, &y1) && same(&x2, &y2)
        },
        _ => false,
    }
}

// ------------------------------------------------------------------
// Links
// ------------------------------------------------------------------

/// Sample-image URL as served: the dead AVE mirror is moved to the AVE host
/// with a `.webp` extension in place of `.jpg` / `.jpeg`; others unchanged.
pub open spec fn rewritten_sample(url: Seq<char>) -> Seq<char> {
    let dead = DEAD_AVE_SAMPLE_PREFIX@;
    if starts_with(url, dead) {
        let rest = url.skip(dead.len() as int);
        let r = if ends_with(rest, ".jpg"@) {
            rest.take(rest.len() - 4) + ".webp"@
        } else if ends_with(rest, ".jpeg"@) {
            rest.take(rest.len() - 5) + ".webp"@
        } else {
            rest
        };
        AVE_SAMPLE_PREFIX@ + r
    } else {
        url
    }
}

/// Rewrites a sample-image URL of the catalogue to one that can be fetched.
pub fn rewrite_sample_url(url: &str) -> (r: String)
    ensures
        r@ == rewritten_sample(url@),
{
    let u = chars_of(url);
    let dead = chars_of(DEAD_AVE_SAMPLE_PREFIX);
    if !crate::text::starts_with_chars(&u, &dead) {
        return string_of(&u);
    }
    let rest = slice(&u, dead.len(), u.len());
    assert(rest@ =~= u@.skip(dead@.len() as int));
    let webp = chars_of(".webp");
    proof {
        reveal_strlit(".jpg");
        reveal_strlit(".jpeg");
    }
    let r = if ends_with_str(&rest, ".jpg") {
        let stem = slice(&rest, 0, rest.len() - 4);
        assert(stem@ =~= rest@.take(rest@.len() - 4));
        concat(&stem, &webp)
    } else if ends_with_str(&rest, ".jpeg") {
        let stem = slice(&rest, 0, rest.len() - 5);
        assert(stem@ =~= rest@.take(rest@.len() - 5));
        concat(&stem, &webp)
    } else {
        rest
    };
    let host = chars_of(AVE_SAMPLE_PREFIX);
    let out = concat(&host, &r);
    string_of(&out)
}

/// Absolute form of a link of the site: links that start with `http` are
/// kept, others appended to the domain.
pub open spec fn absolute_url(url: Seq<char>) -> Seq<char> {
    if starts_with(url, "http"@) {
        url
    } else {
        AVSOX_BASE@ + url
    }
}

pub fn absolute(url: &str) -> (r: String)
    ensures
        r@ == absolute_url(url@),
{
    let u = chars_of(url);
    if starts_with_str(&u, "http") {
        string_of(&u)
    } else {
        let b = chars_of(AVSOX_BASE);
        let out = concat(&b, &u);
        string_of(&out)
    }
}

/// The ASCII letters and digits of a designation, upper-cased.
pub fn normalize_code(s: &str) -> (r: String)
    ensures
        r@ == alnum_upper(s@),
{
    crate::subtitle::normalize_id(s)
}

// ------------------------------------------------------------------
// Information block
// ------------------------------------------------------------------

/// The value of the first label of `labels` that occurs in `text`: the first
/// word after its first occurrence; `None` when that label is followed by no
/// word, or no label occurs.
pub open spec fn field_value(text: Seq<char>, labels: Seq<Seq<char>>) -> Option<Seq<char>>
    decreases labels.len(),
{
    if labels.len() == 0 {
        None
    } else {
        match find(text, labels[0]) {
            Some(p) => {
                let w = words(trim(text.skip(p + labels[0].len())));
                if w.len() == 0 {
                    None
                } else {
                    Some(w[0])
                }
            },
            None => field_value(text, labels.drop_first()),
        }
    }
}

pub open spec fn str_views(v: Seq<&str>) -> Seq<Seq<char>> {
    v.map_values(|x: &str| x@)
}

/// The value that follows the first of `labels` found in the information text.
pub fn extract_field(text: &str, labels: &[&str]) -> (r: Option<String>)
    ensures
        match field_value(text@, str_views(labels@)) {
            Some(v) => r matches Some(x) && x@ == v,
            None => r is None,
        },
{
    let t = chars_of(text);
    let ghost lv = str_views(labels@);
    let mut i: usize = 0;
    assert(lv.skip(0) =~= lv);
    while i < labels.len()
        invariant
            i <= labels.len(),
            t@ == text@,
            lv == str_views(labels@),
            field_value(t@, lv) == field_value(t@, lv.skip(i as int)),
        decreases labels.len() - i,
    {
        let label = chars_of(labels[i]);
        assert(lv.skip(i as int)[0] == label@);
        assert(lv.skip(i as int).drop_first() =~= lv.skip(i + 1));
        match find_chars(&t, &label) {
            Some(p) => {
                proof {
                    crate::text::lemma_find_from_bounds(t@, label@, 0);
                }
                assert(crate::text::occurs_at(t@, label@, p as int));
                let after = slice(&t, p + label.len(), t.len());
                assert(after@ =~= t@.skip(p + label@.len()));
                let tr = trim_chars(&after);
                let w = words_chars(&tr);
                if w.len() == 0 {
                    return None;
                }
                assert(views(w@)[0] == w@[0]@);
                return Some(string_of(&w[0]));
            },
            None => {},
        }
        i += 1;
    }
    None
}

} // verus!

verus! {

// ------------------------------------------------------------------
// Detail page on a result page (server-rendered mirrors)
// ------------------------------------------------------------------

/// A result whose upper-cased text holds the designation as written (so
/// that the separator of a D2Pass designation tells two labels apart).
pub open spec fn exact_hit(code_upper: Seq<char>) -> spec_fn((Seq<char>, Seq<char>)) -> bool {
    |l: (Seq<char>, Seq<char>)| contains(unicode_upper(l.1), code_upper) && l.0.len() > 0
}

/// A result whose letters and digits hold those of the designation.
pub open spec fn loose_hit(code_norm: Seq<char>) -> spec_fn((Seq<char>, Seq<char>)) -> bool {
    |l: (Seq<char>, Seq<char>)| contains(alnum_upper(l.1), code_norm) && l.0.len() > 0
}

/// The detail page among the results `(link, text)` of a result page: the
/// first result whose text holds the designation as written; for a D2Pass
/// designation nothing else (another label's title of the same number would
/// be wrong); else the first whose letters and digits hold it; else the
/// first result.
pub open spec fn avsox_pick(links: Seq<(Seq<char>, Seq<char>)>, code: Seq<char>) -> Option<Seq<char>> {
    let cu = unicode_upper(trim(code));
    let exact = if cu.len() > 0 {
        first_match(links, exact_hit(cu))
    } else {
        None
    };
    match exact {
        Some(i) => Some(absolute_url(links[i].0)),
        None => if is_d2pass(code) {
            None
        } else {
            match first_match(links, loose_hit(alnum_upper(code))) {
                Some(i) => Some(absolute_url(links[i].0)),
                None => if links.len() > 0 && links[0].0.len() > 0 {
                    Some(absolute_url(links[0].0))
                } else {
                    None
                },
            }
        },
    }
}

fn find_hit(links: &Vec<(String, String)>, key: &Vec<char>, exact: bool) -> (r: Option<usize>)
    ensures
        match r {
            Some(i) => i < links.len() && first_match(
                pair_views(links@),
                if exact {
                    exact_hit(key@)
                } else {
                    loose_hit(key@)
                },
            ) == Some(i as int),
            None => first_match(
                pair_views(links@),
                if exact {
                    exact_hit(key@)
                } else {
                    loose_hit(key@)
                },
            ) is None,
        },
{
    let ghost lv = pair_views(links@);
    let ghost f = if exact {
        exact_hit(key@)
    } else {
        loose_hit(key@)
    };
    let mut i: usize = 0;
    while i < links.len()
        invariant
            i <= links.len(),
            lv == pair_views(links@),
            f == (if exact {
                exact_hit(key@)
            } else {
                loose_hit(key@)
            }),
            first_match(lv.take(i as int), f) is None,
        decreases links.len() - i,
    {
        assert(lv[i as int] == (links@[i as int].0@, links@[i as int].1@));
        let text = &links[i].1;
        let t = if exact {
            let u = to_uppercase(text.as_str());
            chars_of(u.as_str())
        } else {
            let n = crate::subtitle::normalize_id(text.as_str());
            chars_of(n.as_str())
        };
        let hit = contains_chars(&t, key) && !links[i].0.as_str().is_empty();
        if hit {
            proof {
                crate::seqs::lemma_first_match_at(lv, f, i as int);
            }
            return Some(i);
        }
        proof {
            crate::seqs::lemma_first_match_step(lv, f, i as int);
        }
        i += 1;
    }
    assert(lv.take(links.len() as int) =~= lv);
    None
}

/// The detail page among the results `(link, text)` of a result page.
pub fn pick_avsox_detail(links: &Vec<(String, String)>, code: &str) -> (r: Option<String>)
    ensures
        match avsox_pick(pair_views(links@), code@) {
            Some(u) => r matches Some(x) && x@ == u,
            None => r is None,
        },
{
    let ghost lv = pair_views(links@);
    let t = trim_chars(&chars_of(code));
    let ts = string_of(&t);
    let cu_s = to_uppercase(ts.as_str());
    let cu = chars_of(cu_s.as_str());
    if cu.len() > 0 {
        match find_hit(links, &cu, true) {
            Some(i) => {
                assert(lv[i as int].0 == links@[i as int].0@);
                return Some(absolute(links[i].0.as_str()));
            },
            None => {},
        }
    }
    if is_d2pass_designation(code) {
        return None;
    }
    let cn_s = normalize_code(code);
    let cn = chars_of(cn_s.as_str());
    match find_hit(links, &cn, false) {
        Some(i) => {
            assert(lv[i as int].0 == links@[i as int].0@);
            return Some(absolute(links[i].0.as_str()));
        },
        None => {},
    }
    if links.len() > 0 && !links[0].0.as_str().is_empty() {
        assert(lv[0].0 == links@[0].0@);
        Some(absolute(links[0].0.as_str()))
    } else {
        None
    }
}

impl crate::sources::Avsox {
    /// The detail page on a result page of a server-rendered mirror (cards
    /// `a.movie-box`).
    pub fn extract_detail_url(&self, html: &str, code: &str) -> (r: Option<String>)
        ensures
            match avsox_pick(selected_links(html@, "a.movie-box"@, "href"@), code@) {
                Some(u) => r matches Some(x) && x@ == u,
                None => r is None,
            },
    {
        let links = select_links(html, "a.movie-box", "href");
        pick_avsox_detail(&links, code)
    }
}

// ------------------------------------------------------------------
// Detail pages of the moo family
// ------------------------------------------------------------------

/// What a detail page of the moo family (the server-rendered avsox pages,
/// read when the data interface is not available) offers, as selected:
/// `a.bigImage` links, `.bigImage img` sources, `h3` and `.info` texts,
/// `span.genre a` links (target, text), `a.avatar-box span` and
/// `.star-name a` texts, and `#sample-waterfall a.sample-box` links.
pub struct MooPage {
    pub big_image_hrefs: Vec<String>,
    pub big_image_srcs: Vec<String>,
    pub headings: Vec<String>,
    pub infos: Vec<String>,
    pub genre_links: Vec<(String, String)>,
    pub avatar_names: Vec<String>,
    pub star_names: Vec<String>,
    pub sample_hrefs: Vec<String>,
}

pub struct MooPageView {
    pub big_image_hrefs: Seq<Seq<char>>,
    pub big_image_srcs: Seq<Seq<char>>,
    pub headings: Seq<Seq<char>>,
    pub infos: Seq<Seq<char>>,
    pub genre_links: Seq<(Seq<char>, Seq<char>)>,
    pub avatar_names: Seq<Seq<char>>,
    pub star_names: Seq<Seq<char>>,
    pub sample_hrefs: Seq<Seq<char>>,
}

impl View for MooPage {
    type V = MooPageView;

    open spec fn view(&self) -> MooPageView {
        MooPageView {
            big_image_hrefs: string_views(self.big_image_hrefs@),
            big_image_srcs: string_views(self.big_image_srcs@),
            headings: string_views(self.headings@),
            infos: string_views(self.infos@),
            genre_links: pair_views(self.genre_links@),
            avatar_names: string_views(self.avatar_names@),
            star_names: string_views(self.star_names@),
            sample_hrefs: string_views(self.sample_hrefs@),
        }
    }
}

/// The selections of a moo-family detail page.
pub open spec fn moo_page_of(html: Seq<char>) -> MooPageView {
    MooPageView {
        big_image_hrefs: selected_attr_values(html, "a.bigImage"@, "href"@),
        big_image_srcs: selected_attr_values(html, ".bigImage img"@, "src"@),
        headings: selected_texts(html, "h3"@),
        infos: selected_texts(html, ".info"@),
        genre_links: selected_links(html, "span.genre a"@, "href"@),
        avatar_names: selected_texts(html, "a.avatar-box span"@),
        star_names: selected_texts(html, ".star-name a"@),
        sample_hrefs: selected_attr_values(html, "#sample-waterfall a.sample-box"@, "href"@),
    }
}

pub fn read_moo_page(html: &str) -> (r: MooPage)
    ensures
        r@ == moo_page_of(html@),
{
    MooPage {
        big_image_hrefs: select_attr_values(html, "a.bigImage", "href"),
        big_image_srcs: select_attr_values(html, ".bigImage img", "src"),
        headings: select_texts(html, "h3"),
        infos: select_texts(html, ".info"),
        genre_links: select_links(html, "span.genre a", "href"),
        avatar_names: select_texts(html, "a.avatar-box span"),
        star_names: select_texts(html, ".star-name a"),
        sample_hrefs: select_attr_values(html, "#sample-waterfall a.sample-box", "href"),
    }
}

/// The cover: the big image's link, else its image's source, made absolute.
pub open spec fn moo_cover(p: MooPageView) -> Seq<char> {
    if p.big_image_hrefs.len() > 0 {
        absolute_url(p.big_image_hrefs[0])
    } else if p.big_image_srcs.len() > 0 {
        absolute_url(p.big_image_srcs[0])
    } else {
        Seq::empty()
    }
}

/// The poster: the big image's source, made absolute.
pub open spec fn moo_poster(p: MooPageView) -> Seq<char> {
    if p.big_image_srcs.len() > 0 {
        absolute_url(p.big_image_srcs[0])
    } else {
        Seq::empty()
    }
}

/// The title: the heading without the designation, trimmed.
pub open spec fn moo_title(p: MooPageView, code: Seq<char>) -> Seq<char> {
    let raw = first_or_empty(p.headings);
    if raw.len() == 0 {
        Seq::empty()
    } else {
        trim(replace_all(raw, code, Seq::empty()))
    }
}

/// A field of the information block, empty when absent.
pub open spec fn moo_field(p: MooPageView, labels: Seq<Seq<char>>) -> Seq<char> {
    match field_value(first_or_empty(p.infos), labels) {
        Some(v) => v,
        None => Seq::empty(),
    }
}

pub open spec fn moo_duration(p: MooPageView) -> Seq<char> {
    let d = moo_field(p, seq!["長度:"@, "长度:"@]);
    if d.len() == 0 {
        d
    } else {
        replace_all(d, "分鐘"@, "分钟"@)
    }
}

pub open spec fn moo_studio(p: MooPageView) -> Seq<char> {
    moo_field(p, seq!["製作商:"@, "制作商:"@, "發行商:"@, "发行商:"@])
}

/// The genres: the texts of the genre links that lead to `/genre/`.
pub open spec fn moo_tags(p: MooPageView) -> Seq<char> {
    join(link_texts_to(p.genre_links, "/genre/"@), ", "@)
}

/// The actors: the names in the avatar boxes, else those of the star list.
pub open spec fn moo_actors(p: MooPageView) -> Seq<char> {
    let a = nonblank(p.avatar_names);
    join(
        if a.len() > 0 {
            a
        } else {
            nonblank(p.star_names)
        },
        ", "@,
    )
}

/// A page yields a result when it has a title or a cover.
pub open spec fn moo_found(p: MooPageView, code: Seq<char>) -> bool {
    moo_title(p, code).len() > 0 || moo_cover(p).len() > 0
}

/// The result read from a moo-family detail page.
pub open spec fn moo_fields(r: SearchResult, p: MooPageView, code: Seq<char>) -> bool {
    let raw = first_or_empty(p.headings);
    &&& r.code@ == code
    &&& r.title@ == moo_title(p, code)
    &&& r.sort_title@ == (if raw.len() == 0 {
        code
    } else {
        code + " "@ + raw
    })
    &&& r.cover_url@ == moo_cover(p)
    &&& r.poster_url@ == moo_poster(p)
    &&& r.premiered@ == moo_field(p, seq!["發行日期:"@, "发行日期:"@])
    &&& r.duration@ == moo_duration(p)
    &&& r.label@ == moo_field(p, seq!["系列:"@])
    &&& r.studio@ == moo_studio(p)
    &&& r.maker@ == moo_studio(p)
    &&& r.tags@ == moo_tags(p)
    &&& r.genres@ == moo_tags(p)
    &&& r.actors@ == moo_actors(p)
    &&& string_views(r.thumbs@) == p.sample_hrefs.map_values(|u: Seq<char>| absolute_url(u))
    &&& r.source@ == "avsox"@
    &&& r.mpaa@ == "JP-18+ 无码"@
    &&& r.custom_rating@ == "JP-18+"@
    &&& r.country_code@ == "JP"@
    &&& r.critic_rating == Some(0i32)
    &&& r.is_uncensored
    &&& r.rating is None
    &&& r.actor_avatars@.len() == 0
    &&& r.page_url@.len() == 0
    &&& r.detail_level@.len() == 0
    &&& r.detail_score == 0
    &&& r.director@.len() == 0
    &&& r.remote_thumb_urls is None
    &&& r.plot@.len() == 0
    &&& r.outline@.len() == 0
    &&& r.original_plot@.len() == 0
    &&& r.original_title is None
    &&& r.target_title is None
    &&& r.tagline@.len() == 0
    &&& r.set_name@.len() == 0
    &&& r.publisher@.len() == 0
    &&& r.remote_cover_url is None
    &&& r.cover_orientation is None
    &&& r.cover_candidates@.len() == 0
}

fn no_chars() -> (r: Vec<char>)
    ensures
        r@ == Seq::<char>::empty(),
{
    let v: Vec<char> = Vec::new();
    assert(v@ =~= Seq::<char>::empty());
    v
}

fn empty_string() -> (r: String)
    ensures
        r@ == Seq::<char>::empty(),
{
    string_of(&no_chars())
}

fn absolute_all(urls: &Vec<String>) -> (r: Vec<String>)
    ensures
        string_views(r@) == string_views(urls@).map_values(|u: Seq<char>| absolute_url(u)),
{
    let mut out: Vec<String> = Vec::new();
    let mut i: usize = 0;
    while i < urls.len()
        invariant
            i <= urls.len(),
            string_views(out@) == string_views(urls@).map_values(|u: Seq<char>| absolute_url(u)).take(i as int),
        decreases urls.len() - i,
    {
        let ghost before = string_views(out@);
        out.push(absolute(urls[i].as_str()));
        assert(string_views(out@) =~= before.push(absolute_url(urls@[i as int]@)));
        assert(string_views(urls@).map_values(|u: Seq<char>| absolute_url(u)).take(i + 1) =~= before.push(
            absolute_url(urls@[i as int]@),
        ));
        i += 1;
    }
    assert(string_views(urls@).map_values(|u: Seq<char>| absolute_url(u)).take(urls.len() as int)
        =~= string_views(urls@).map_values(|u: Seq<char>| absolute_url(u)));
    out
}

fn moo_field_of(info: &String, labels: &[&str]) -> (r: String)
    ensures
        r@ == match field_value(info@, str_views(labels@)) {
            Some(v) => v,
            None => Seq::<char>::empty(),
        },
{
    match extract_field(info.as_str(), labels) {
        Some(v) => v,
        None => empty_string(),
    }
}

/// The result read from the selections of a moo-family detail page for the
/// designation `code`; `None` when the page has neither title nor cover.
pub fn moo_page_result(page: &MooPage, code: &str) -> (r: Option<SearchResult>)
    ensures
        match r {
            Some(x) => moo_found(page@, code@) && moo_fields(x, page@, code@),
            None => !moo_found(page@, code@),
        },
{
    let ghost p = page@;
    let cover_url = if page.big_image_hrefs.len() > 0 {
        absolute(page.big_image_hrefs[0].as_str())
    } else if page.big_image_srcs.len() > 0 {
        absolute(page.big_image_srcs[0].as_str())
    } else {
        empty_string()
    };
    let poster_url = if page.big_image_srcs.len() > 0 {
        absolute(page.big_image_srcs[0].as_str())
    } else {
        empty_string()
    };
    let raw = first_string(&page.headings);
    let code_chars = chars_of(code);
    let raw_chars = chars_of(raw.as_str());
    let title = if raw_chars.len() == 0 {
        empty_string()
    } else {
        let stripped = crate::text::replace_chars(&raw_chars, &code_chars, &no_chars());
        string_of(&trim_chars(&stripped))
    };
    let sort_title = if raw_chars.len() == 0 {
        string_of(&code_chars)
    } else {
        string_of(&concat(&concat(&code_chars, &chars_of(" ")), &raw_chars))
    };
    if title.as_str().is_empty() && cover_url.as_str().is_empty() {
        return None;
    }
    let info = first_string(&page.infos);
    let released = vec!["發行日期:", "发行日期:"];
    let lengths = vec!["長度:", "长度:"];
    let series = vec!["系列:"];
    let makers = vec!["製作商:", "制作商:", "發行商:", "发行商:"];
    assert(str_views(released@) =~= seq!["發行日期:"@, "发行日期:"@]);
    assert(str_views(lengths@) =~= seq!["長度:"@, "长度:"@]);
    assert(str_views(series@) =~= seq!["系列:"@]);
    assert(str_views(makers@) =~= seq!["製作商:"@, "制作商:"@, "發行商:"@, "发行商:"@]);
    let premiered = moo_field_of(&info, released.as_slice());
    let raw_duration = moo_field_of(&info, lengths.as_slice());
    let duration = if raw_duration.as_str().is_empty() {
        raw_duration
    } else {
        string_of(&crate::text::replace_str(&chars_of(raw_duration.as_str()), "分鐘", &chars_of("分钟")))
    };
    let label = moo_field_of(&info, series.as_slice());
    let studio = moo_field_of(&info, makers.as_slice());
    let tags = join_strings(&link_texts_matching(&page.genre_links, "/genre/"), ", ");
    let avatars = nonblank_strings(&page.avatar_names);
    let actors = if avatars.len() > 0 {
        join_strings(&avatars, ", ")
    } else {
        join_strings(&nonblank_strings(&page.star_names), ", ")
    };
    let thumbs = absolute_all(&page.sample_hrefs);
    Some(SearchResult {
        code: string_of(&code_chars),
        title,
        actors,
        actor_avatars: Vec::new(),
        duration,
        maker: studio.clone(),
        studio,
        source: owned("avsox"),
        page_url: empty_string(),
        detail_level: empty_string(),
        detail_score: 0,
        cover_url,
        poster_url,
        director: empty_string(),
        genres: tags.clone(),
        tags,
        premiered,
        rating: None,
        thumbs,
        remote_thumb_urls: None,
        plot: empty_string(),
        outline: empty_string(),
        original_plot: empty_string(),
        original_title: None,
        target_title: None,
        tagline: empty_string(),
        sort_title,
        mpaa: owned("JP-18+ 无码"),
        custom_rating: owned("JP-18+"),
        country_code: owned("JP"),
        is_uncensored: true,
        critic_rating: Some(0),
        set_name: empty_string(),
        publisher: empty_string(),
        label,
        remote_cover_url: None,
        cover_orientation: None,
        cover_candidates: Vec::new(),
    })
}

impl crate::sources::Avsox {
    /// Reads a moo-family detail page of the designation `code`.
    pub fn parse(&self, html: &str, code: &str) -> (r: Option<SearchResult>)
        ensures
            match r {
                Some(x) => moo_found(moo_page_of(html@), code@) && moo_fields(x, moo_page_of(html@), code@),
                None => !moo_found(moo_page_of(html@), code@),
            },
    {
        let page = read_moo_page(html);
        moo_page_result(&page, code)
    }
}

} // verus!
