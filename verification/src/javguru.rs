//! The jav.guru source (WordPress): which search result is the detail page
//! of a designation. Results are scored: the designation in the link counts
//! most, in the text less; subtitled, uncensored, leaked and `-MR` variants
//! are pushed down.

use vstd::prelude::*;
use crate::avgood::without;
use crate::html::{
    element_view, element_views, nested_elements, nested_of, nested_view, nested_views, pair_views, select_attr_values,
    select_links, selected_attr_values, selected_links,
};
use crate::page::{
    dedup, dedup_strings, either, first_or_empty, first_string, head_cover, head_description, head_page_url, head_title,
    nonblank, nonblank_strings, read_head_meta, select_texts, selected_texts, trim_start_str, trim_start_str_chars,
};
use crate::scrape::SearchResult;
use crate::seqs::first_match;
use crate::text::{
    collapse_ws, collapse_ws_chars, eq_ignore_case, eq_ignore_case_chars, join, join_strings, owned,
    trim_start_set, trim_start_set_chars, string_views,
    chars_of, concat, contains, contains_chars, contains_str, find, find_chars, replace_all,
    replace_chars, slice, split_set, split_set_chars, starts_with, starts_with_chars,
    starts_with_str, string_of, to_lowercase, to_uppercase, trim, trim_chars, unicode_lower,
    unicode_upper, views,
};

verus! {

/// Link paths that are listings, not detail pages.
pub open spec fn listing_markers() -> Seq<Seq<char>> {
    seq![
        "/?s="@,
        "/tag/"@,
        "/category/"@,
        "/maker/"@,
        "/actress/"@,
        "/actor/"@,
        "/director/"@,
        "/series/"@,
        "/studio/"@,
        "/page/"@,
    ]
}

pub open spec fn is_listing(href: Seq<char>) -> bool {
    exists|i: int| 0 <= i < listing_markers().len() && contains(href, #[trigger] listing_markers()[i])
}

/// The last non-empty piece of a list of pieces (empty when there is none).
pub open spec fn last_nonempty(pieces: Seq<Seq<char>>) -> Seq<char>
    decreases pieces.len(),
{
    if pieces.len() == 0 {
        Seq::empty()
    } else if pieces.last().len() > 0 {
        pieces.last()
    } else {
        last_nonempty(pieces.drop_last())
    }
}

/// The slug of a link: its last non-empty `/`-separated piece.
pub open spec fn slug_of(href: Seq<char>) -> Seq<char> {
    last_nonempty(split_set(href, seq!['/']))
}

/// The score of a result `(link, text)` for the designation `cu` (upper-cased)
/// / `cl` (lower-cased); `None` when it is not a candidate (not a jav.guru
/// page, a listing, or without the designation).
pub open spec fn link_score(l: (Seq<char>, Seq<char>), cu: Seq<char>, cl: Seq<char>) -> Option<int> {
    let href = l.0;
    if href.len() == 0 || !contains(href, "jav.guru/"@) || is_listing(href) {
        None
    } else {
        let href_has = contains(unicode_upper(href), cu) || contains(href, cl);
        let text_has = contains(unicode_upper(l.1), cu);
        if !href_has && !text_has {
            None
        } else {
            let su = unicode_upper(slug_of(href));
            let is_variant = contains(su, "ENGLISH-SUBBED"@) || contains(su, "UNCENSORED"@)
                || contains(su, "DECENSORED"@) || contains(su, "LEAKED"@);
            let has_code_variant = contains(su, cu + seq!['-']) && !starts_with(
                su,
                replace_all(cu, seq!['-'], Seq::empty()) + seq!['-'],
            );
            let is_mr = match find(su, cu) {
                Some(p) => starts_with(su.skip(p + cu.len()), "-MR"@) || starts_with(
                    su.skip(p + cu.len()),
                    "-UNCENSORED"@,
                ),
                None => false,
            };
            Some(
                (if href_has {
                    10int
                } else {
                    0
                }) + (if text_has {
                    5int
                } else {
                    0
                }) - (if is_variant || is_mr {
                    20int
                } else {
                    0
                }) - (if has_code_variant {
                    10int
                } else {
                    0
                }),
            )
        }
    }
}

/// Going through the results of one selector from the best so far: `Ok` with
/// the first result that scores 15 or more (taken at once), else `Err` with
/// the best result (the first of the highest score).
pub open spec fn scan_links(links: Seq<(Seq<char>, Seq<char>)>, cu: Seq<char>, cl: Seq<char>, best: Option<(Seq<char>, int)>) -> Result<Seq<char>, Option<(Seq<char>, int)>>
    decreases links.len(),
{
    if links.len() == 0 {
        Err(best)
    } else {
        match link_score(links[0], cu, cl) {
            None => scan_links(links.drop_first(), cu, cl, best),
            Some(s) => {
                let nb = match best {
                    Some(b) => if s > b.1 {
                        Some((links[0].0, s))
                    } else {
                        best
                    },
                    None => Some((links[0].0, s)),
                };
                if s >= 15 {
                    Ok(links[0].0)
                } else {
                    scan_links(links.drop_first(), cu, cl, nb)
                }
            },
        }
    }
}

/// The detail page over the results of the selectors, from the most specific:
/// the first selector that yields a candidate decides.
pub open spec fn guru_pick(per_selector: Seq<Seq<(Seq<char>, Seq<char>)>>, cu: Seq<char>, cl: Seq<char>) -> Option<Seq<char>>
    decreases per_selector.len(),
{
    if per_selector.len() == 0 {
        None
    } else {
        match scan_links(per_selector[0], cu, cl, None) {
            Ok(h) => Some(h),
            Err(Some(b)) => Some(b.0),
            Err(None) => guru_pick(per_selector.drop_first(), cu, cl),
        }
    }
}

/// Selectors of result links, from the most specific.
pub open spec fn result_selectors() -> Seq<Seq<char>> {
    seq!["article a[href]"@, ".post-thumbnail a[href]"@, "h2 a[href]"@, "a[href]"@]
}

fn is_listing_exec(href: &Vec<char>) -> (r: bool)
    ensures
        r == is_listing(href@),
{
    let r = contains_str(href, "/?s=") || contains_str(href, "/tag/") || contains_str(
        href,
        "/category/",
    ) || contains_str(href, "/maker/") || contains_str(href, "/actress/") || contains_str(
        href,
        "/actor/",
    ) || contains_str(href, "/director/") || contains_str(href, "/series/") || contains_str(
        href,
        "/studio/",
    ) || contains_str(href, "/page/");
    proof {
        if r {
            if contains(href@, "/?s="@) {
                assert(contains(href@, listing_markers()[0]));
            }
            if contains(href@, "/tag/"@) {
                assert(contains(href@, listing_markers()[1]));
            }
            if contains(href@, "/category/"@) {
                assert(contains(href@, listing_markers()[2]));
            }
            if contains(href@, "/maker/"@) {
                assert(contains(href@, listing_markers()[3]));
            }
            if contains(href@, "/actress/"@) {
                assert(contains(href@, listing_markers()[4]));
            }
            if contains(href@, "/actor/"@) {
                assert(contains(href@, listing_markers()[5]));
            }
            if contains(href@, "/director/"@) {
                assert(contains(href@, listing_markers()[6]));
            }
            if contains(href@, "/series/"@) {
                assert(contains(href@, listing_markers()[7]));
            }
            if contains(href@, "/studio/"@) {
                assert(contains(href@, listing_markers()[8]));
            }
            if contains(href@, "/page/"@) {
                assert(contains(href@, listing_markers()[9]));
            }
        }
    }
    r
}

fn slug_exec(href: &Vec<char>) -> (r: Vec<char>)
    ensures
        r@ == slug_of(href@),
{
    let mut slash: Vec<char> = Vec::new();
    slash.push('/');
    assert(slash@ =~= seq!['/']);
    let pieces = split_set_chars(href, &slash);
    let ghost pv = views(pieces@);
    let mut i: usize = pieces.len();
    assert(pv.take(i as int) =~= pv);
    while i > 0 && pieces[i - 1].len() == 0
        invariant
            i <= pieces.len(),
            pv == views(pieces@),
            last_nonempty(pv) == last_nonempty(pv.take(i as int)),
        decreases i,
    {
        assert(pv[i - 1] == pieces@[i - 1]@);
        assert(pv.take(i as int).drop_last() =~= pv.take(i - 1));
        i -= 1;
    }
    if i == 0 {
        return Vec::new();
    }
    assert(pv[i - 1] == pieces@[i - 1]@);
    crate::text::copy_chars(&pieces[i - 1])
}

fn upper_chars_of(v: &Vec<char>) -> (r: Vec<char>)
    ensures
        r@ == unicode_upper(v@),
{
    crate::text::to_uppercase_chars(v)
}

fn link_score_exec(href: &Vec<char>, text: &Vec<char>, cu: &Vec<char>, cl: &Vec<char>) -> (r: Option<i32>)
    ensures
        match link_score((href@, text@), cu@, cl@) {
            Some(s) => r matches Some(x) && x as int == s,
            None => r is None,
        },
{
    if href.len() == 0 || !contains_str(href, "jav.guru/") || is_listing_exec(href) {
        return None;
    }
    let hu = upper_chars_of(href);
    let tu = upper_chars_of(text);
    let href_has = contains_chars(&hu, cu) || contains_chars(href, cl);
    let text_has = contains_chars(&tu, cu);
    if !href_has && !text_has {
        return None;
    }
    let slug = slug_exec(href);
    let su = upper_chars_of(&slug);
    let is_variant = contains_str(&su, "ENGLISH-SUBBED") || contains_str(&su, "UNCENSORED")
        || contains_str(&su, "DECENSORED") || contains_str(&su, "LEAKED");
    let mut dash: Vec<char> = Vec::new();
    dash.push('-');
    assert(dash@ =~= seq!['-']);
    let cu_dash = concat(cu, &dash);
    let empty: Vec<char> = Vec::new();
    assert(empty@ =~= Seq::<char>::empty());
    let squeezed = replace_chars(cu, &dash, &empty);
    let squeezed_dash = concat(&squeezed, &dash);
    let has_code_variant = contains_chars(&su, &cu_dash) && !starts_with_chars(&su, &squeezed_dash);
    let is_mr = match find_chars(&su, cu) {
        Some(p) => {
            proof {
                crate::text::lemma_find_from_bounds(su@, cu@, 0);
            }
            assert(crate::text::occurs_at(su@, cu@, p as int));
            assert(p + cu.len() <= su.len());
            let after = slice(&su, p + cu.len(), su.len());
            assert(after@ =~= su@.skip(p + cu@.len()));
            starts_with_str(&after, "-MR") || starts_with_str(&after, "-UNCENSORED")
        },
        None => false,
    };
    let mut score: i32 = 0;
    if href_has {
        score = score + 10;
    }
    if text_has {
        score = score + 5;
    }
    if is_variant || is_mr {
        score = score - 20;
    }
    if has_code_variant {
        score = score - 10;
    }
    Some(score)
}

fn scan_exec(links: &Vec<(String, String)>, cu: &Vec<char>, cl: &Vec<char>) -> (r: Result<String, Option<(String, i32)>>)
    ensures
        match scan_links(pair_views(links@), cu@, cl@, None) {
            Ok(h) => r matches Ok(x) && x@ == h,
            Err(None) => r matches Err(None),
            Err(Some(b)) => r matches Err(Some(x)) && x.0@ == b.0 && x.1 as int == b.1,
        },
{
    let ghost lv = pair_views(links@);
    let mut best: Option<(String, i32)> = None;
    let mut i: usize = 0;
    assert(lv.skip(0) =~= lv);
    while i < links.len()
        invariant
            i <= links.len(),
            lv == pair_views(links@),
            scan_links(lv, cu@, cl@, None) == scan_links(
                lv.skip(i as int),
                cu@,
                cl@,
                match best {
                    Some(b) => Some((b.0@, b.1 as int)),
                    None => None,
                },
            ),
        decreases links.len() - i,
    {
        assert(lv.skip(i as int)[0] == (links@[i as int].0@, links@[i as int].1@));
        assert(lv.skip(i as int).drop_first() =~= lv.skip(i + 1));
        let h = chars_of(links[i].0.as_str());
        let t = chars_of(links[i].1.as_str());
        match link_score_exec(&h, &t, cu, cl) {
            None => {},
            Some(s) => {
                let better = match &best {
                    Some(b) => s > b.1,
                    None => true,
                };
                if better {
                    best = Some((links[i].0.clone(), s));
                }
                if s >= 15 {
                    return Ok(links[i].0.clone());
                }
            },
        }
        i += 1;
    }
    assert(lv.skip(links.len() as int) =~= Seq::<(Seq<char>, Seq<char>)>::empty());
    Err(best)
}

pub open spec fn selector_views(v: Seq<Vec<(String, String)>>) -> Seq<Seq<(Seq<char>, Seq<char>)>> {
    v.map_values(|l: Vec<(String, String)>| pair_views(l@))
}

/// The detail page among the results of each selector (most specific first)
/// for the designation `code_upper` / `code_lower`.
pub fn pick_javguru_detail(per_selector: &Vec<Vec<(String, String)>>, code_upper: &str, code_lower: &str) -> (r: Option<String>)
    ensures
        match guru_pick(selector_views(per_selector@), code_upper@, code_lower@) {
            Some(u) => r matches Some(x) && x@ == u,
            None => r is None,
        },
{
    let cu = chars_of(code_upper);
    let cl = chars_of(code_lower);
    let ghost sv = selector_views(per_selector@);
    let mut i: usize = 0;
    assert(sv.skip(0) =~= sv);
    while i < per_selector.len()
        invariant
            i <= per_selector.len(),
            sv == selector_views(per_selector@),
            cu@ == code_upper@ && cl@ == code_lower@,
            guru_pick(sv, cu@, cl@) == guru_pick(sv.skip(i as int), cu@, cl@),
        decreases per_selector.len() - i,
    {
        assert(sv.skip(i as int)[0] == pair_views(per_selector@[i as int]@));
        assert(sv.skip(i as int).drop_first() =~= sv.skip(i + 1));
        match scan_exec(&per_selector[i], &cu, &cl) {
            Ok(h) => {
                return Some(h);
            },
            Err(Some(b)) => {
                return Some(b.0);
            },
            Err(None) => {},
        }
        i += 1;
    }
    None
}

impl crate::sources::JavGuru {
    /// The detail page of a designation on a search page.
    pub fn extract_detail_url(&self, html: &str, code: &str) -> (r: Option<String>)
        ensures
            match guru_pick(
                result_selectors().map_values(|s: Seq<char>| selected_links(html@, s, "href"@)),
                unicode_upper(trim(code@)),
                unicode_lower(trim(code@)),
            ) {
                Some(u) => r matches Some(x) && x@ == u,
                None => r is None,
            },
    {
        let t = trim_chars(&chars_of(code));
        let ts = string_of(&t);
        let cu = to_uppercase(ts.as_str());
        let cl = to_lowercase(ts.as_str());
        let mut per: Vec<Vec<(String, String)>> = Vec::new();
        per.push(select_links(html, "article a[href]", "href"));
        per.push(select_links(html, ".post-thumbnail a[href]", "href"));
        per.push(select_links(html, "h2 a[href]", "href"));
        per.push(select_links(html, "a[href]", "href"));
        assert(selector_views(per@) =~= result_selectors().map_values(
            |s: Seq<char>| selected_links(html@, s, "href"@),
        ));
        pick_javguru_detail(&per, cu.as_str(), cl.as_str())
    }
}

// ------------------------------------------------------------------
// Detail pages
// ------------------------------------------------------------------

/// An element with the elements inside it: its text nodes, and each inner
/// element's attribute (unused) and text nodes.
pub type RowView = (Seq<Seq<char>>, Seq<(Option<Seq<char>>, Seq<Seq<char>>)>);

/// The text of the first `strong` of an information item, its text nodes
/// joined; empty when there is none.
pub open spec fn strong_text(row: RowView) -> Seq<char> {
    if row.1.len() > 0 {
        join(row.1[0].1, ""@)
    } else {
        Seq::empty()
    }
}

/// The label of an information item: its `strong` text without colons, trimmed.
pub open spec fn item_label(row: RowView) -> Seq<char> {
    trim(replace_all(strong_text(row), ":"@, ""@))
}

/// An item labelled `label` (ASCII case ignored); unlabelled items never are.
pub open spec fn item_is(label: Seq<char>) -> spec_fn(RowView) -> bool {
    |row: RowView| item_label(row).len() > 0 && eq_ignore_case(item_label(row), label)
}

/// The plain value of the first item labelled `label`: its text without the
/// label's text, trimmed; `None` when empty or there is no such item.
pub open spec fn item_value(items: Seq<RowView>, label: Seq<char>) -> Option<Seq<char>> {
    match first_match(items, item_is(label)) {
        Some(i) => {
            let v = trim(replace_all(join(items[i].0, ""@), strong_text(items[i]), ""@));
            if v.len() > 0 {
                Some(v)
            } else {
                None
            }
        },
        None => None,
    }
}

/// The text of an element, white space collapsed.
pub open spec fn element_text(e: (Option<Seq<char>>, Seq<Seq<char>>)) -> Seq<char> {
    collapse_ws(join(e.1, " "@))
}

/// The text of the first link of the first item labelled `label` (`links`
/// lists the links of each item); `None` when it is empty or missing.
pub open spec fn item_link(items: Seq<RowView>, links: Seq<RowView>, label: Seq<char>) -> Option<Seq<char>> {
    match first_match(items, item_is(label)) {
        Some(i) => if i < links.len() && links[i].1.len() > 0 && element_text(links[i].1[0]).len() > 0 {
            Some(element_text(links[i].1[0]))
        } else {
            None
        },
        None => None,
    }
}

/// The non-empty texts of all links of the first item labelled `label`.
pub open spec fn item_links(items: Seq<RowView>, links: Seq<RowView>, label: Seq<char>) -> Seq<Seq<char>> {
    match first_match(items, item_is(label)) {
        Some(i) => if i < links.len() {
            nonblank(links[i].1.map_values(|e: (Option<Seq<char>>, Seq<Seq<char>>)| element_text(e)))
        } else {
            Seq::empty()
        },
        None => Seq::empty(),
    }
}

/// The paragraphs of the article without images, each with its white space
/// collapsed, joined by spaces.
pub open spec fn plot_text(paragraphs: Seq<RowView>) -> Seq<char> {
    join(nonblank(paragraphs.filter(|p: RowView| p.1.len() == 0).map_values(|p: RowView| collapse_ws(join(p.0, " "@)))), " "@)
}

/// What a detail page offers, as selected: `h1.titl` and `h1` texts,
/// `.large-screenimg img` sources, the items `.infoleft ul li` with their
/// `strong` and with their `a` elements, the paragraphs `.wp-content p` with
/// their images, `.wp-content img[src]` sources, and the head.
pub struct JavGuruPage {
    pub titl_headings: Vec<String>,
    pub headings: Vec<String>,
    pub cover_srcs: Vec<String>,
    pub items: Vec<(Vec<String>, Vec<(Option<String>, Vec<String>)>)>,
    pub item_links: Vec<(Vec<String>, Vec<(Option<String>, Vec<String>)>)>,
    pub paragraphs: Vec<(Vec<String>, Vec<(Option<String>, Vec<String>)>)>,
    pub image_srcs: Vec<String>,
    pub head_title: String,
    pub head_cover: String,
    pub head_description: String,
    pub head_page_url: String,
}

pub struct JavGuruPageView {
    pub titl_headings: Seq<Seq<char>>,
    pub headings: Seq<Seq<char>>,
    pub cover_srcs: Seq<Seq<char>>,
    pub items: Seq<RowView>,
    pub item_links: Seq<RowView>,
    pub paragraphs: Seq<RowView>,
    pub image_srcs: Seq<Seq<char>>,
    pub head_title: Seq<char>,
    pub head_cover: Seq<char>,
    pub head_description: Seq<char>,
    pub head_page_url: Seq<char>,
}

impl View for JavGuruPage {
    type V = JavGuruPageView;

    open spec fn view(&self) -> JavGuruPageView {
        JavGuruPageView {
            titl_headings: string_views(self.titl_headings@),
            headings: string_views(self.headings@),
            cover_srcs: string_views(self.cover_srcs@),
            items: nested_views(self.items@),
            item_links: nested_views(self.item_links@),
            paragraphs: nested_views(self.paragraphs@),
            image_srcs: string_views(self.image_srcs@),
            head_title: self.head_title@,
            head_cover: self.head_cover@,
            head_description: self.head_description@,
            head_page_url: self.head_page_url@,
        }
    }
}

pub open spec fn javguru_page_of(html: Seq<char>) -> JavGuruPageView {
    JavGuruPageView {
        titl_headings: selected_texts(html, "h1.titl"@),
        headings: selected_texts(html, "h1"@),
        cover_srcs: selected_attr_values(html, ".large-screenimg img"@, "src"@),
        items: nested_of(html, ".infoleft ul li"@, "strong"@, ""@),
        item_links: nested_of(html, ".infoleft ul li"@, "a"@, ""@),
        paragraphs: nested_of(html, ".wp-content p"@, "img"@, ""@),
        image_srcs: selected_attr_values(html, ".wp-content img[src]"@, "src"@),
        head_title: head_title(html),
        head_cover: head_cover(html),
        head_description: head_description(html),
        head_page_url: head_page_url(html),
    }
}

pub fn read_javguru_page(html: &str) -> (r: JavGuruPage)
    ensures
        r@ == javguru_page_of(html@),
{
    let head = read_head_meta(html);
    JavGuruPage {
        titl_headings: select_texts(html, "h1.titl"),
        headings: select_texts(html, "h1"),
        cover_srcs: select_attr_values(html, ".large-screenimg img", "src"),
        items: nested_elements(html, ".infoleft ul li", "strong", ""),
        item_links: nested_elements(html, ".infoleft ul li", "a", ""),
        paragraphs: nested_elements(html, ".wp-content p", "img", ""),
        image_srcs: select_attr_values(html, ".wp-content img[src]", "src"),
        head_title: head.title,
        head_cover: head.cover_url,
        head_description: head.description,
        head_page_url: head.page_url,
    }
}

/// The title: `h1.titl`, else `h1`, else the head's title, without a leading
/// `[`, designation (upper- or lower-cased), `]` and separators.
pub open spec fn javguru_title(p: JavGuruPageView, code: Seq<char>) -> Seq<char> {
    let raw = javguru_raw_title(p);
    let a = trim_start_set(raw, seq!['[']);
    let b = trim_start_str(a, unicode_upper(trim(code)));
    let c = trim_start_str(b, unicode_lower(code));
    let d = trim_start_set(c, seq![']']);
    trim(trim_start_set(d, seq![' ', '-', '\u{3000}']))
}

/// The title as the page gives it: `h1.titl`, else `h1`, else the head's title.
pub open spec fn javguru_raw_title(p: JavGuruPageView) -> Seq<char> {
    either(first_or_empty(p.titl_headings), either(first_or_empty(p.headings), p.head_title))
}

/// A page titled `[CODE] rest`, with the designation upper-cased, is read as
/// the trimmed `rest`: the bracketed designation and the space after it are
/// dropped. (Left out: a designation whose upper-cased form begins with a
/// bracket, or whose lower-cased form begins with `]`, and a `rest` that
/// itself begins with a space, `-` or an ideographic space, which the reading
/// drops too.)
pub proof fn lemma_javguru_title_drops_designation(p: JavGuruPageView, code: Seq<char>, rest: Seq<char>)
    requires
        javguru_raw_title(p) == seq!['['] + unicode_upper(trim(code)) + seq![']', ' '] + rest,
        unicode_upper(trim(code)).len() > 0 ==> unicode_upper(trim(code))[0] != '['
            && unicode_upper(trim(code))[0] != ']',
        unicode_lower(code).len() > 0 ==> unicode_lower(code)[0] != ']',
        rest.len() > 0 ==> rest[0] != ' ' && rest[0] != '-' && rest[0] != '\u{3000}',
    ensures
        javguru_title(p, code) == trim(rest),
{
    let u = unicode_upper(trim(code));
    let l = unicode_lower(code);
    let raw = javguru_raw_title(p);
    let x1 = u + seq![']', ' '] + rest;
    let x2 = seq![']', ' '] + rest;
    let x3 = seq![' '] + rest;
    assert(raw.drop_first() =~= x1);
    assert(trim_start_set(x1, seq!['[']) == x1) by {
        if u.len() == 0 {
            assert(x1[0] == ']');
        } else {
            assert(x1[0] == u[0]);
        }
    }
    assert(trim_start_set(raw, seq!['[']) == x1);
    assert(trim_start_str(x2, u) == x2) by {
        if u.len() > 0 && u.len() <= x2.len() && x2.take(u.len() as int) == u {
            assert(x2.take(u.len() as int)[0] == x2[0]);
        }
    }
    assert(trim_start_str(x1, u) == x2) by {
        if u.len() > 0 {
            assert(x1.take(u.len() as int) =~= u);
            assert(x1.skip(u.len() as int) =~= x2);
        } else {
            assert(x1 =~= x2);
        }
    }
    assert(trim_start_str(x2, l) == x2) by {
        if l.len() > 0 && l.len() <= x2.len() && x2.take(l.len() as int) == l {
            assert(x2.take(l.len() as int)[0] == x2[0]);
        }
    }
    assert(x2.drop_first() =~= x3);
    assert(trim_start_set(x3, seq![']']) == x3);
    assert(seq![']'].contains(x2[0])) by {
        assert(x2[0] == ']');
        assert(seq![']'][0] == ']');
    }
    assert(trim_start_set(x2, seq![']']) == x3);
    assert(x3.drop_first() =~= rest);
    assert(trim_start_set(rest, seq![' ', '-', '\u{3000}']) == rest) by {
        if rest.len() > 0 {
            assert(!seq![' ', '-', '\u{3000}'].contains(rest[0]));
        }
    }
    assert(seq![' ', '-', '\u{3000}'].contains(x3[0])) by {
        assert(seq![' ', '-', '\u{3000}'][0] == ' ');
    }
    assert(trim_start_set(x3, seq![' ', '-', '\u{3000}']) == rest);
}

pub open spec fn javguru_cover(p: JavGuruPageView) -> Seq<char> {
    if p.cover_srcs.len() > 0 {
        p.cover_srcs[0]
    } else {
        p.head_cover
    }
}

pub open spec fn or_empty(o: Option<Seq<char>>) -> Seq<char> {
    match o {
        Some(v) => v,
        None => Seq::empty(),
    }
}

pub open spec fn javguru_premiered(p: JavGuruPageView) -> Seq<char> {
    match item_value(p.items, "Release Date"@) {
        Some(v) => v,
        None => or_empty(item_value(p.items, "Release"@)),
    }
}

pub open spec fn javguru_studio(p: JavGuruPageView) -> Seq<char> {
    match item_link(p.items, p.item_links, "Studio"@) {
        Some(v) => v,
        None => or_empty(item_link(p.items, p.item_links, "Maker"@)),
    }
}

pub open spec fn javguru_tags(p: JavGuruPageView) -> Seq<char> {
    join(dedup(item_links(p.items, p.item_links, "Tags"@)), ", "@)
}

pub open spec fn javguru_plot(p: JavGuruPageView) -> Seq<char> {
    either(plot_text(p.paragraphs), p.head_description)
}

pub open spec fn javguru_found(p: JavGuruPageView, code: Seq<char>) -> bool {
    javguru_title(p, code).len() > 0 || javguru_cover(p).len() > 0
}

/// The result read from a jav.guru detail page.
pub open spec fn javguru_fields(r: SearchResult, p: JavGuruPageView, code: Seq<char>) -> bool {
    let cover = javguru_cover(p);
    let studio = javguru_studio(p);
    &&& r.code@ == unicode_upper(trim(code))
    &&& r.title@ == javguru_title(p, code)
    &&& r.cover_url@ == cover
    &&& r.premiered@ == javguru_premiered(p)
    &&& r.director@ == or_empty(item_link(p.items, p.item_links, "Director"@))
    &&& r.studio@ == studio
    &&& r.maker@ == studio
    &&& r.label@ == or_empty(item_link(p.items, p.item_links, "Label"@))
    &&& r.set_name@ == or_empty(item_link(p.items, p.item_links, "Series"@))
    &&& r.tags@ == javguru_tags(p)
    &&& r.genres@ == javguru_tags(p)
    &&& r.actors@ == join(
        dedup(item_links(p.items, p.item_links, "Actress"@) + item_links(p.items, p.item_links, "Actor"@)),
        ", "@,
    )
    &&& string_views(r.thumbs@) == dedup(without(nonblank(p.image_srcs), seq![cover]))
    &&& r.plot@ == javguru_plot(p)
    &&& r.outline@ == javguru_plot(p)
    &&& r.page_url@ == p.head_page_url
    &&& r.source@ == "javguru"@
    &&& r.duration@.len() == 0
    &&& r.poster_url@.len() == 0
    &&& r.rating is None
    &&& r.remote_cover_url is None
    &&& r.original_plot@.len() == 0
    &&& r.actor_avatars@.len() == 0
    &&& r.detail_level@.len() == 0
    &&& r.detail_score == 0
    &&& r.remote_thumb_urls is None
    &&& r.original_title is None
    &&& r.target_title is None
    &&& r.tagline@.len() == 0
    &&& r.sort_title@.len() == 0
    &&& r.mpaa@.len() == 0
    &&& r.custom_rating@.len() == 0
    &&& r.country_code@.len() == 0
    &&& !r.is_uncensored
    &&& r.critic_rating is None
    &&& r.publisher@.len() == 0
    &&& r.cover_orientation is None
    &&& r.cover_candidates@.len() == 0
}

fn no_chars() -> (r: Vec<char>)
    ensures
        r@ == Seq::<char>::empty(),
{
    let v: Vec<char> = Vec::new();
    assert(v@ =~= Seq::<char>::empty());
    v
}

fn empty_string() -> (r: String)
    ensures
        r@ == Seq::<char>::empty(),
{
    string_of(&no_chars())
}

fn strong_text_of(row: &(Vec<String>, Vec<(Option<String>, Vec<String>)>)) -> (r: Vec<char>)
    ensures
        r@ == strong_text(nested_view(*row)),
{
    if row.1.len() > 0 {
        assert(nested_view(*row).1[0] == element_view(row.1@[0]));
        chars_of(join_strings(&row.1[0].1, "").as_str())
    } else {
        no_chars()
    }
}

fn label_of(row: &(Vec<String>, Vec<(Option<String>, Vec<String>)>)) -> (r: Vec<char>)
    ensures
        r@ == item_label(nested_view(*row)),
{
    trim_chars(&replace_chars(&strong_text_of(row), &chars_of(":"), &chars_of("")))
}

fn find_item(items: &Vec<(Vec<String>, Vec<(Option<String>, Vec<String>)>)>, label: &str) -> (r: Option<usize>)
    ensures
        match r {
            Some(i) => i < items.len() && first_match(nested_views(items@), item_is(label@)) == Some(i as int),
            None => first_match(nested_views(items@), item_is(label@)) is None,
        },
{
    let ghost iv = nested_views(items@);
    let ghost f = item_is(label@);
    let want = chars_of(label);
    let mut i: usize = 0;
    while i < items.len()
        invariant
            i <= items.len(),
            iv == nested_views(items@),
            f == item_is(label@),
            want@ == label@,
            first_match(iv.take(i as int), f) is None,
        decreases items.len() - i,
    {
        assert(iv[i as int] == nested_view(items@[i as int]));
        let l = label_of(&items[i]);
        if l.len() > 0 && eq_ignore_case_chars(&l, &want) {
            proof {
                crate::seqs::lemma_first_match_at(iv, f, i as int);
            }
            return Some(i);
        }
        proof {
            crate::seqs::lemma_first_match_step(iv, f, i as int);
        }
        i += 1;
    }
    assert(iv.take(items.len() as int) =~= iv);
    None
}

fn value_of(items: &Vec<(Vec<String>, Vec<(Option<String>, Vec<String>)>)>, label: &str) -> (r: Option<String>)
    ensures
        match item_value(nested_views(items@), label@) {
            Some(v) => r matches Some(x) && x@ == v,
            None => r is None,
        },
{
    match find_item(items, label) {
        Some(i) => {
            assert(nested_views(items@)[i as int] == nested_view(items@[i as int]));
            let full = chars_of(join_strings(&items[i].0, "").as_str());
            let v = trim_chars(&replace_chars(&full, &strong_text_of(&items[i]), &chars_of("")));
            if v.len() > 0 {
                Some(string_of(&v))
            } else {
                None
            }
        },
        None => None,
    }
}

fn element_text_of(e: &(Option<String>, Vec<String>)) -> (r: Vec<char>)
    ensures
        r@ == element_text(element_view(*e)),
{
    collapse_ws_chars(&chars_of(join_strings(&e.1, " ").as_str()))
}

fn link_of(
    items: &Vec<(Vec<String>, Vec<(Option<String>, Vec<String>)>)>,
    links: &Vec<(Vec<String>, Vec<(Option<String>, Vec<String>)>)>,
    label: &str,
) -> (r: Option<String>)
    ensures
        match item_link(nested_views(items@), nested_views(links@), label@) {
            Some(v) => r matches Some(x) && x@ == v,
            None => r is None,
        },
{
    match find_item(items, label) {
        Some(i) => {
            if i < links.len() && links[i].1.len() > 0 {
                assert(nested_views(links@)[i as int] == nested_view(links@[i as int]));
                assert(nested_view(links@[i as int]).1[0] == element_view(links@[i as int].1@[0]));
                let t = element_text_of(&links[i].1[0]);
                if t.len() > 0 {
                    return Some(string_of(&t));
                }
            }
            None
        },
        None => None,
    }
}

fn links_of(
    items: &Vec<(Vec<String>, Vec<(Option<String>, Vec<String>)>)>,
    links: &Vec<(Vec<String>, Vec<(Option<String>, Vec<String>)>)>,
    label: &str,
) -> (r: Vec<String>)
    ensures
        string_views(r@) == item_links(nested_views(items@), nested_views(links@), label@),
{
    match find_item(items, label) {
        Some(i) => {
            if i < links.len() {
                assert(nested_views(links@)[i as int] == nested_view(links@[i as int]));
                let es = &links[i].1;
                let ghost ev = element_views(es@).map_values(|e: (Option<Seq<char>>, Seq<Seq<char>>)| element_text(e));
                let mut texts: Vec<String> = Vec::new();
                let mut k: usize = 0;
                while k < es.len()
                    invariant
                        k <= es.len(),
                        ev == element_views(es@).map_values(|e: (Option<Seq<char>>, Seq<Seq<char>>)| element_text(e)),
                        string_views(texts@) == ev.take(k as int),
                    decreases es.len() - k,
                {
                    let ghost before = string_views(texts@);
                    texts.push(string_of(&element_text_of(&es[k])));
                    assert(ev[k as int] == element_text(element_view(es@[k as int])));
                    assert(string_views(texts@) =~= before.push(ev[k as int]));
                    assert(ev.take(k + 1) =~= ev.take(k as int).push(ev[k as int]));
                    k += 1;
                }
                assert(ev.take(es.len() as int) =~= ev);
                nonblank_strings(&texts)
            } else {
                let v: Vec<String> = Vec::new();
                assert(string_views(v@) =~= Seq::<Seq<char>>::empty());
                v
            }
        },
        None => {
            let v: Vec<String> = Vec::new();
            assert(string_views(v@) =~= Seq::<Seq<char>>::empty());
            v
        },
    }
}

fn plot_of(paragraphs: &Vec<(Vec<String>, Vec<(Option<String>, Vec<String>)>)>) -> (r: String)
    ensures
        r@ == plot_text(nested_views(paragraphs@)),
{
    let ghost pv = nested_views(paragraphs@);
    let ghost sel = |p: RowView| p.1.len() == 0;
    let ghost txt = |p: RowView| collapse_ws(join(p.0, " "@));
    let mut texts: Vec<String> = Vec::new();
    let mut k: usize = 0;
    while k < paragraphs.len()
        invariant
            k <= paragraphs.len(),
            pv == nested_views(paragraphs@),
            sel == (|p: RowView| p.1.len() == 0),
            txt == (|p: RowView| collapse_ws(join(p.0, " "@))),
            string_views(texts@) == pv.take(k as int).filter(sel).map_values(txt),
        decreases paragraphs.len() - k,
    {
        assert(pv.take(k + 1).drop_last() =~= pv.take(k as int));
        assert(pv.take(k + 1).last() == nested_view(paragraphs@[k as int]));
        reveal(Seq::filter);
        if paragraphs[k].1.len() == 0 {
            let ghost before = string_views(texts@);
            texts.push(string_of(&collapse_ws_chars(&chars_of(join_strings(&paragraphs[k].0, " ").as_str()))));
            assert(string_views(texts@) =~= before.push(txt(pv[k as int])));
            assert(pv.take(k + 1).filter(sel) == pv.take(k as int).filter(sel).push(pv[k as int]));
            assert(pv.take(k + 1).filter(sel).map_values(txt) =~= pv.take(k as int).filter(sel).map_values(txt).push(
                txt(pv[k as int]),
            ));
        } else {
            assert(pv.take(k + 1).filter(sel) == pv.take(k as int).filter(sel));
        }
        k += 1;
    }
    assert(pv.take(paragraphs.len() as int) =~= pv);
    join_strings(&nonblank_strings(&texts), " ")
}

fn either_of(a: String, b: String) -> (r: String)
    ensures
        r@ == either(a@, b@),
{
    if a.as_str().is_empty() {
        b
    } else {
        a
    }
}

fn or_empty_string(o: Option<String>) -> (r: String)
    ensures
        r@ == or_empty(match o {
            Some(s) => Some(s@),
            None => None,
        }),
{
    match o {
        Some(s) => s,
        None => empty_string(),
    }
}

/// The title read from the page (see `javguru_title`).
pub fn javguru_page_title(page: &JavGuruPage, code: &str) -> (r: String)
    ensures
        r@ == javguru_title(page@, code@),
{
    let raw = either_of(
        first_string(&page.titl_headings),
        either_of(first_string(&page.headings), owned(page.head_title.as_str())),
    );
    let mut lb: Vec<char> = Vec::new();
    lb.push('[');
    assert(lb@ =~= seq!['[']);
    let mut rb: Vec<char> = Vec::new();
    rb.push(']');
    assert(rb@ =~= seq![']']);
    let mut seps: Vec<char> = Vec::new();
    seps.push(' ');
    seps.push('-');
    seps.push('\u{3000}');
    assert(seps@ =~= seq![' ', '-', '\u{3000}']);
    let upper = to_uppercase(string_of(&trim_chars(&chars_of(code))).as_str());
    let lower = to_lowercase(code);
    let a = trim_start_set_chars(&chars_of(raw.as_str()), &lb);
    let b = trim_start_str_chars(&a, &chars_of(upper.as_str()));
    let c = trim_start_str_chars(&b, &chars_of(lower.as_str()));
    let d = trim_start_set_chars(&c, &rb);
    string_of(&trim_chars(&trim_start_set_chars(&d, &seps)))
}

/// The result read from the selections of a jav.guru detail page for the
/// designation `code`; `None` when the page has neither title nor cover.
pub fn javguru_page_result(page: &JavGuruPage, code: &str) -> (r: Option<SearchResult>)
    ensures
        match r {
            Some(x) => javguru_found(page@, code@) && javguru_fields(x, page@, code@),
            None => !javguru_found(page@, code@),
        },
{
    let title = javguru_page_title(page, code);
    let cover_url = if page.cover_srcs.len() > 0 {
        owned(page.cover_srcs[0].as_str())
    } else {
        owned(page.head_cover.as_str())
    };
    if title.as_str().is_empty() && cover_url.as_str().is_empty() {
        return None;
    }
    let premiered = match value_of(&page.items, "Release Date") {
        Some(v) => v,
        None => or_empty_string(value_of(&page.items, "Release")),
    };
    let director = or_empty_string(link_of(&page.items, &page.item_links, "Director"));
    let studio = match link_of(&page.items, &page.item_links, "Studio") {
        Some(v) => v,
        None => or_empty_string(link_of(&page.items, &page.item_links, "Maker")),
    };
    let label = or_empty_string(link_of(&page.items, &page.item_links, "Label"));
    let series = or_empty_string(link_of(&page.items, &page.item_links, "Series"));
    let tags = join_strings(&dedup_strings(&links_of(&page.items, &page.item_links, "Tags")), ", ");
    let mut all_actors = links_of(&page.items, &page.item_links, "Actress");
    let males = links_of(&page.items, &page.item_links, "Actor");
    let ghost a0 = string_views(all_actors@);
    let mut k: usize = 0;
    while k < males.len()
        invariant
            k <= males.len(),
            string_views(all_actors@) == a0 + string_views(males@).take(k as int),
        decreases males.len() - k,
    {
        let ghost before = string_views(all_actors@);
        all_actors.push(owned(males[k].as_str()));
        assert(string_views(all_actors@) =~= before.push(males@[k as int]@));
        assert(string_views(males@).take(k + 1) =~= string_views(males@).take(k as int).push(males@[k as int]@));
        k += 1;
    }
    assert(string_views(males@).take(males.len() as int) =~= string_views(males@));
    let actors = join_strings(&dedup_strings(&all_actors), ", ");
    let mut cover_list: Vec<String> = Vec::new();
    cover_list.push(owned(cover_url.as_str()));
    assert(string_views(cover_list@) =~= seq![cover_url@]);
    let thumbs = dedup_strings(&crate::avgood::without_strings(&nonblank_strings(&page.image_srcs), &cover_list));
    let plot = either_of(plot_of(&page.paragraphs), owned(page.head_description.as_str()));
    Some(SearchResult {
        code: to_uppercase(string_of(&trim_chars(&chars_of(code))).as_str()),
        title,
        actors,
        actor_avatars: Vec::new(),
        duration: empty_string(),
        maker: studio.clone(),
        studio,
        source: owned("javguru"),
        page_url: owned(page.head_page_url.as_str()),
        detail_level: empty_string(),
        detail_score: 0,
        cover_url,
        poster_url: empty_string(),
        director,
        genres: tags.clone(),
        tags,
        premiered,
        rating: None,
        thumbs,
        remote_thumb_urls: None,
        outline: plot.clone(),
        plot,
        original_plot: empty_string(),
        original_title: None,
        target_title: None,
        tagline: empty_string(),
        sort_title: empty_string(),
        mpaa: empty_string(),
        custom_rating: empty_string(),
        country_code: empty_string(),
        is_uncensored: false,
        critic_rating: None,
        set_name: series,
        publisher: empty_string(),
        label,
        remote_cover_url: None,
        cover_orientation: None,
        cover_candidates: Vec::new(),
    })
}

impl crate::sources::JavGuru {
    /// Reads a detail page of the designation `code`.
    pub fn parse(&self, html: &str, code: &str) -> (r: Option<SearchResult>)
        ensures
            match r {
                Some(x) => javguru_found(javguru_page_of(html@), code@) && javguru_fields(x, javguru_page_of(html@), code@),
                None => !javguru_found(javguru_page_of(html@), code@),
            },
    {
        let page = read_javguru_page(html);
        javguru_page_result(&page, code)
    }
}

} // verus!
