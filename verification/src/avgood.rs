//! The avgood source: a search site whose results link to detail pages
//! `/c/{id}.html`, the link text starting with the designation.

use vstd::prelude::*;
use crate::html::{
    element_view, nested_elements, nested_of, nested_view, nested_views, pair_views, select_attr_values, select_links,
    selected_attr_values, selected_links,
};
use crate::page::{
    dedup, dedup_strings, first_or_empty, first_string, head_cover, head_title, nonblank, nonblank_strings,
    read_head_meta, select_texts, selected_texts, strip_prefix_ci, strip_prefix_ci_chars,
};
use crate::scrape::SearchResult;
use crate::regexes::{first_captures, regex_captured};
use crate::seqs::{first_match, lemma_first_match_at, lemma_first_match_step};
use crate::subtitle::{alnum_upper, normalize_id};
use crate::text::{
    chars_of, collapse_ws, collapse_ws_chars, concat, copy_chars, find, find_chars, join, join_strings, list_contains,
    owned, same, slice, starts_with, starts_with_chars, starts_with_str, string_of, string_views, to_uppercase, trim,
    trim_chars, trim_end_set, trim_end_set_chars, trim_start_set, trim_start_set_chars, unicode_upper,
};

verus! {

/// Root of the site.
pub const AVGOOD_BASE: &'static str = "https://avgood.com";

/// Links to detail pages (not the search `/c/s/` nor tag `/c/t/` pages).
pub const AVGOOD_DETAIL_PATTERN: &'static str = "^(?:https?://[^/]+)?/c/\\d+\\.html";

/// Absolute form of a link of the site: empty and `http` links kept,
/// root-relative links appended to the root, others after a `/`.
pub open spec fn avgood_absolute(u: Seq<char>) -> Seq<char> {
    if u.len() == 0 || starts_with(u, "http"@) {
        u
    } else if u[0] == '/' {
        AVGOOD_BASE@ + u
    } else {
        AVGOOD_BASE@ + seq!['/'] + u
    }
}

pub fn absolutize(u: &str) -> (r: String)
    ensures
        r@ == avgood_absolute(u@),
{
    let v = chars_of(u);
    if v.len() == 0 || starts_with_str(&v, "http") {
        return string_of(&v);
    }
    let b = chars_of(AVGOOD_BASE);
    if v[0] == '/' {
        let r = concat(&b, &v);
        string_of(&r)
    } else {
        let mut bs = b;
        bs.push('/');
        let r = concat(&bs, &v);
        assert(r@ =~= AVGOOD_BASE@ + seq!['/'] + u@);
        string_of(&r)
    }
}

/// The ASCII letters and digits of a text, upper-cased (for comparing
/// designations regardless of symbols, other scripts and case).
pub fn canon(s: &str) -> (r: String)
    ensures
        r@ == alnum_upper(s@),
{
    normalize_id(s)
}

/// A result `(link, text)` that is the detail page of the designation whose
/// canonical form is `want`.
pub open spec fn detail_hit(want: Seq<char>) -> spec_fn((Seq<char>, Seq<char>)) -> bool {
    |l: (Seq<char>, Seq<char>)|
        regex_captured(AVGOOD_DETAIL_PATTERN@, l.0) is Some && starts_with(alnum_upper(l.1), want)
}

/// The detail page of a designation among the links of a search page: the
/// first detail link whose text starts (in canonical form) with the
/// designation; none for a designation without letters or digits.
pub open spec fn avgood_pick(links: Seq<(Seq<char>, Seq<char>)>, code: Seq<char>) -> Option<Seq<char>> {
    let want = alnum_upper(code);
    if want.len() == 0 {
        None
    } else {
        match first_match(links, detail_hit(want)) {
            Some(i) => Some(avgood_absolute(links[i].0)),
            None => None,
        }
    }
}

pub fn pick_avgood_detail(links: &Vec<(String, String)>, code: &str) -> (r: Option<String>)
    ensures
        match avgood_pick(pair_views(links@), code@) {
            Some(u) => r matches Some(x) && x@ == u,
            None => r is None,
        },
{
    let want_s = canon(code);
    let want = chars_of(want_s.as_str());
    if want.len() == 0 {
        return None;
    }
    let ghost lv = pair_views(links@);
    let ghost f = detail_hit(want@);
    let mut i: usize = 0;
    while i < links.len()
        invariant
            i <= links.len(),
            lv == pair_views(links@),
            f == detail_hit(want@),
            want@ == alnum_upper(code@),
            want@.len() > 0,
            first_match(lv.take(i as int), f) is None,
        decreases links.len() - i,
    {
        assert(lv[i as int] == (links@[i as int].0@, links@[i as int].1@));
        let is_detail = first_captures(AVGOOD_DETAIL_PATTERN, links[i].0.as_str()).is_some();
        let c = canon(links[i].1.as_str());
        let cv = chars_of(c.as_str());
        if is_detail && starts_with_chars(&cv, &want) {
            proof {
                lemma_first_match_at(lv, f, i as int);
            }
            return Some(absolutize(links[i].0.as_str()));
        }
        proof {
            lemma_first_match_step(lv, f, i as int);
        }
        i += 1;
    }
    assert(lv.take(links.len() as int) =~= lv);
    None
}

impl crate::sources::AvGood {
    /// The detail page of a designation on a search page.
    pub fn extract_detail_url(&self, html: &str, code: &str) -> (r: Option<String>)
        ensures
            match avgood_pick(selected_links(html@, "a[href]"@, "href"@), code@) {
                Some(u) => r matches Some(x) && x@ == u,
                None => r is None,
            },
    {
        let links = select_links(html, "a[href]", "href");
        pick_avgood_detail(&links, code)
    }
}

// ------------------------------------------------------------------
// Detail pages
// ------------------------------------------------------------------

/// A row of the information block: its text nodes, and its `span.header`
/// elements (attribute unused, text nodes).
pub type InfoRowView = (Seq<Seq<char>>, Seq<(Option<Seq<char>>, Seq<Seq<char>>)>);

/// The label and value of an information row `<p><span class="header">标签:</span> 值</p>`:
/// the header's text (white space collapsed) without trailing colons, and the
/// row's text without the header; `None` when the row has no header or either
/// is empty.
pub open spec fn info_entry(row: InfoRowView) -> Option<(Seq<char>, Seq<char>)> {
    if row.1.len() == 0 {
        None
    } else {
        let h = collapse_ws(join(row.1[0].1, " "@));
        let label = trim(trim_end_set(trim_end_set(h, seq![':']), seq!['：']));
        let full = collapse_ws(join(row.0, " "@));
        let value = trim(
            if starts_with(full, h) {
                full.skip(h.len() as int)
            } else {
                full
            },
        );
        if label.len() == 0 || value.len() == 0 {
            None
        } else {
            Some((label, value))
        }
    }
}

/// The value of the last row labelled `label`, if any.
pub open spec fn info_lookup(rows: Seq<InfoRowView>, label: Seq<char>) -> Option<Seq<char>>
    decreases rows.len(),
{
    if rows.len() == 0 {
        None
    } else {
        match info_entry(rows.last()) {
            Some((l, v)) => if l == label {
                Some(v)
            } else {
                info_lookup(rows.drop_last(), label)
            },
            None => info_lookup(rows.drop_last(), label),
        }
    }
}

/// The texts of `v` that `ex` does not hold.
pub open spec fn without(v: Seq<Seq<char>>, ex: Seq<Seq<char>>) -> Seq<Seq<char>>
    decreases v.len(),
{
    if v.len() == 0 {
        Seq::empty()
    } else {
        let r = without(v.drop_last(), ex);
        if ex.contains(v.last()) {
            r
        } else {
            r.push(v.last())
        }
    }
}

/// What a detail page offers, as selected: `h1.content-title` texts,
/// `a.bigImage` links, the rows `div.content-info p` with their
/// `span.header`, `.star-name a` and `span.genre a` texts, `a.sample-box`
/// links, and the head's title and cover.
pub struct AvGoodPage {
    pub headings: Vec<String>,
    pub big_image_hrefs: Vec<String>,
    pub info_rows: Vec<(Vec<String>, Vec<(Option<String>, Vec<String>)>)>,
    pub star_names: Vec<String>,
    pub genre_names: Vec<String>,
    pub sample_hrefs: Vec<String>,
    pub head_title: String,
    pub head_cover: String,
}

pub struct AvGoodPageView {
    pub headings: Seq<Seq<char>>,
    pub big_image_hrefs: Seq<Seq<char>>,
    pub info_rows: Seq<InfoRowView>,
    pub star_names: Seq<Seq<char>>,
    pub genre_names: Seq<Seq<char>>,
    pub sample_hrefs: Seq<Seq<char>>,
    pub head_title: Seq<char>,
    pub head_cover: Seq<char>,
}

impl View for AvGoodPage {
    type V = AvGoodPageView;

    open spec fn view(&self) -> AvGoodPageView {
        AvGoodPageView {
            headings: string_views(self.headings@),
            big_image_hrefs: string_views(self.big_image_hrefs@),
            info_rows: nested_views(self.info_rows@),
            star_names: string_views(self.star_names@),
            genre_names: string_views(self.genre_names@),
            sample_hrefs: string_views(self.sample_hrefs@),
            head_title: self.head_title@,
            head_cover: self.head_cover@,
        }
    }
}

pub open spec fn avgood_page_of(html: Seq<char>) -> AvGoodPageView {
    AvGoodPageView {
        headings: selected_texts(html, "h1.content-title"@),
        big_image_hrefs: selected_attr_values(html, "a.bigImage"@, "href"@),
        info_rows: nested_of(html, "div.content-info p"@, "span.header"@, ""@),
        star_names: selected_texts(html, ".star-name a"@),
        genre_names: selected_texts(html, "span.genre a"@),
        sample_hrefs: selected_attr_values(html, "a.sample-box"@, "href"@),
        head_title: head_title(html),
        head_cover: head_cover(html),
    }
}

pub fn read_avgood_page(html: &str) -> (r: AvGoodPage)
    ensures
        r@ == avgood_page_of(html@),
{
    let head = read_head_meta(html);
    AvGoodPage {
        headings: select_texts(html, "h1.content-title"),
        big_image_hrefs: select_attr_values(html, "a.bigImage", "href"),
        info_rows: nested_elements(html, "div.content-info p", "span.header", ""),
        star_names: select_texts(html, ".star-name a"),
        genre_names: select_texts(html, "span.genre a"),
        sample_hrefs: select_attr_values(html, "a.sample-box", "href"),
        head_title: head.title,
        head_cover: head.cover_url,
    }
}

/// The title: the heading, else the head's title up to its first `_`,
/// without the designation in front (ASCII case ignored) and the separators
/// after it.
pub open spec fn avgood_title(p: AvGoodPageView, code_upper: Seq<char>) -> Seq<char> {
    let h = first_or_empty(p.headings);
    let raw = if h.len() > 0 {
        h
    } else {
        match find(p.head_title, "_"@) {
            Some(i) => p.head_title.take(i),
            None => p.head_title,
        }
    };
    trim(trim_start_set(strip_prefix_ci(trim(raw), code_upper), seq!['-', ' ', '　', ':', '：']))
}

/// The cover: the big image's link made absolute, else the head's image.
pub open spec fn avgood_cover(p: AvGoodPageView) -> Seq<char> {
    if p.big_image_hrefs.len() > 0 && avgood_absolute(p.big_image_hrefs[0]).len() > 0 {
        avgood_absolute(p.big_image_hrefs[0])
    } else {
        p.head_cover
    }
}

pub open spec fn avgood_info(p: AvGoodPageView, label: Seq<char>) -> Seq<char> {
    match info_lookup(p.info_rows, label) {
        Some(v) => v,
        None => Seq::empty(),
    }
}

pub open spec fn avgood_actor_names(p: AvGoodPageView) -> Seq<Seq<char>> {
    dedup(nonblank(p.star_names))
}

/// The genres, leaving out names of actors (which a broken page nests among
/// them).
pub open spec fn avgood_tags(p: AvGoodPageView) -> Seq<char> {
    join(dedup(without(nonblank(p.genre_names), avgood_actor_names(p))), ", "@)
}

pub open spec fn avgood_found(p: AvGoodPageView, code: Seq<char>) -> bool {
    avgood_title(p, unicode_upper(trim(code))).len() > 0 || avgood_cover(p).len() > 0
}

/// The result read from an AvGood detail page.
pub open spec fn avgood_fields(r: SearchResult, p: AvGoodPageView, code: Seq<char>) -> bool {
    let cu = unicode_upper(trim(code));
    let title = avgood_title(p, cu);
    let premiered = avgood_info(p, "发行日期"@);
    let studio = avgood_info(p, "制作商"@);
    &&& r.code@ == cu
    &&& r.title@ == title
    &&& r.sort_title@ == (if title.len() == 0 {
        cu
    } else {
        cu + " "@ + title
    })
    &&& r.cover_url@ == avgood_cover(p)
    &&& r.premiered@ == premiered
    &&& r.tagline@ == (if premiered.len() == 0 {
        Seq::empty()
    } else {
        "发行日期 "@ + premiered
    })
    &&& r.duration@ == avgood_info(p, "长度"@)
    &&& r.director@ == avgood_info(p, "导演"@)
    &&& r.studio@ == studio
    &&& r.maker@ == studio
    &&& r.publisher@ == avgood_info(p, "发行商"@)
    &&& r.actors@ == join(avgood_actor_names(p), ", "@)
    &&& r.tags@ == avgood_tags(p)
    &&& r.genres@ == avgood_tags(p)
    &&& string_views(r.thumbs@) == nonblank(p.sample_hrefs.map_values(|u: Seq<char>| avgood_absolute(u)))
    &&& r.source@ == "avgood"@
    &&& r.mpaa@ == "JP-18+"@
    &&& r.custom_rating@ == "JP-18+"@
    &&& r.country_code@ == "JP"@
    &&& r.critic_rating == Some(0i32)
    &&& !r.is_uncensored
    &&& r.rating is None
    &&& r.actor_avatars@.len() == 0
    &&& r.poster_url@.len() == 0
    &&& r.page_url@.len() == 0
    &&& r.detail_level@.len() == 0
    &&& r.detail_score == 0
    &&& r.remote_thumb_urls is None
    &&& r.plot@.len() == 0
    &&& r.outline@.len() == 0
    &&& r.original_plot@.len() == 0
    &&& r.original_title is None
    &&& r.target_title is None
    &&& r.set_name@.len() == 0
    &&& r.label@.len() == 0
    &&& r.remote_cover_url is None
    &&& r.cover_orientation is None
    &&& r.cover_candidates@.len() == 0
}

fn no_chars() -> (r: Vec<char>)
    ensures
        r@ == Seq::<char>::empty(),
{
    let v: Vec<char> = Vec::new();
    assert(v@ =~= Seq::<char>::empty());
    v
}

fn empty_string() -> (r: String)
    ensures
        r@ == Seq::<char>::empty(),
{
    string_of(&no_chars())
}

fn row_entry(row: &(Vec<String>, Vec<(Option<String>, Vec<String>)>)) -> (r: Option<(String, String)>)
    ensures
        match info_entry(nested_view(*row)) {
            Some((l, v)) => r matches Some(x) && x.0@ == l && x.1@ == v,
            None => r is None,
        },
{
    if row.1.len() == 0 {
        return None;
    }
    assert(nested_view(*row).1[0] == element_view(row.1@[0]));
    let h = collapse_ws_chars(&chars_of(join_strings(&row.1[0].1, " ").as_str()));
    let mut colon: Vec<char> = Vec::new();
    colon.push(':');
    let mut wide: Vec<char> = Vec::new();
    wide.push('：');
    assert(colon@ =~= seq![':']);
    assert(wide@ =~= seq!['：']);
    let label = trim_chars(&trim_end_set_chars(&trim_end_set_chars(&h, &colon), &wide));
    let full = collapse_ws_chars(&chars_of(join_strings(&row.0, " ").as_str()));
    let rest = if starts_with_chars(&full, &h) {
        let s = slice(&full, h.len(), full.len());
        assert(s@ =~= full@.skip(h.len() as int));
        s
    } else {
        copy_chars(&full)
    };
    let value = trim_chars(&rest);
    if label.len() == 0 || value.len() == 0 {
        None
    } else {
        Some((string_of(&label), string_of(&value)))
    }
}

fn lookup_info(rows: &Vec<(Vec<String>, Vec<(Option<String>, Vec<String>)>)>, label: &str) -> (r: String)
    ensures
        r@ == match info_lookup(nested_views(rows@), label@) {
            Some(v) => v,
            None => Seq::<char>::empty(),
        },
{
    let ghost rv = nested_views(rows@);
    let want = chars_of(label);
    let mut found: Option<String> = None;
    let mut i: usize = 0;
    while i < rows.len()
        invariant
            i <= rows.len(),
            rv == nested_views(rows@),
            want@ == label@,
            match info_lookup(rv.take(i as int), label@) {
                Some(v) => found matches Some(x) && x@ == v,
                None => found is None,
            },
        decreases rows.len() - i,
    {
        assert(rv.take(i + 1).drop_last() =~= rv.take(i as int));
        assert(rv.take(i + 1).last() == nested_view(rows@[i as int]));
        match row_entry(&rows[i]) {
            Some((l, v)) => {
                if same(&chars_of(l.as_str()), &want) {
                    found = Some(v);
                }
            },
            None => {},
        }
        i += 1;
    }
    assert(rv.take(rows.len() as int) =~= rv);
    match found {
        Some(v) => v,
        None => empty_string(),
    }
}

pub(crate) fn without_strings(v: &Vec<String>, ex: &Vec<String>) -> (r: Vec<String>)
    ensures
        string_views(r@) == without(string_views(v@), string_views(ex@)),
{
    let ghost sv = string_views(v@);
    let mut out: Vec<String> = Vec::new();
    let mut i: usize = 0;
    while i < v.len()
        invariant
            i <= v.len(),
            sv == string_views(v@),
            string_views(out@) == without(sv.take(i as int), string_views(ex@)),
        decreases v.len() - i,
    {
        assert(sv.take(i + 1).drop_last() =~= sv.take(i as int));
        assert(sv.take(i + 1).last() == v@[i as int]@);
        if !list_contains(ex, &chars_of(v[i].as_str())) {
            let ghost before = string_views(out@);
            out.push(owned(v[i].as_str()));
            assert(string_views(out@) =~= before.push(v@[i as int]@));
        }
        i += 1;
    }
    assert(sv.take(v.len() as int) =~= sv);
    out
}

fn absolutize_all(urls: &Vec<String>) -> (r: Vec<String>)
    ensures
        string_views(r@) == string_views(urls@).map_values(|u: Seq<char>| avgood_absolute(u)),
{
    let mut out: Vec<String> = Vec::new();
    let mut i: usize = 0;
    while i < urls.len()
        invariant
            i <= urls.len(),
            string_views(out@) == string_views(urls@).map_values(|u: Seq<char>| avgood_absolute(u)).take(i as int),
        decreases urls.len() - i,
    {
        let ghost before = string_views(out@);
        out.push(absolutize(urls[i].as_str()));
        assert(string_views(out@) =~= before.push(avgood_absolute(urls@[i as int]@)));
        assert(string_views(urls@).map_values(|u: Seq<char>| avgood_absolute(u)).take(i + 1) =~= before.push(
            avgood_absolute(urls@[i as int]@),
        ));
        i += 1;
    }
    assert(string_views(urls@).map_values(|u: Seq<char>| avgood_absolute(u)).take(urls.len() as int)
        =~= string_views(urls@).map_values(|u: Seq<char>| avgood_absolute(u)));
    out
}

/// The title read from the page (see `avgood_title`).
pub fn avgood_page_title(page: &AvGoodPage, code_upper: &str) -> (r: String)
    ensures
        r@ == avgood_title(page@, code_upper@),
{
    let h = first_string(&page.headings);
    let raw = if !h.as_str().is_empty() {
        chars_of(h.as_str())
    } else {
        let t = chars_of(page.head_title.as_str());
        let us = chars_of("_");
        proof {
            crate::text::lemma_find_from_bounds(t@, us@, 0);
        }
        match find_chars(&t, &us) {
            Some(i) => {
                let s = slice(&t, 0, i);
                assert(s@ =~= t@.take(i as int));
                s
            },
            None => t,
        }
    };
    let stripped = strip_prefix_ci_chars(&trim_chars(&raw), &chars_of(code_upper));
    let mut seps: Vec<char> = Vec::new();
    seps.push('-');
    seps.push(' ');
    seps.push('　');
    seps.push(':');
    seps.push('：');
    assert(seps@ =~= seq!['-', ' ', '　', ':', '：']);
    string_of(&trim_chars(&trim_start_set_chars(&stripped, &seps)))
}

/// The result read from the selections of an AvGood detail page for the
/// designation `code`; `None` when the page has neither title nor cover.
pub fn avgood_page_result(page: &AvGoodPage, code: &str) -> (r: Option<SearchResult>)
    ensures
        match r {
            Some(x) => avgood_found(page@, code@) && avgood_fields(x, page@, code@),
            None => !avgood_found(page@, code@),
        },
{
    let code_upper = to_uppercase(string_of(&trim_chars(&chars_of(code))).as_str());
    let title = avgood_page_title(page, code_upper.as_str());
    let cover_url = if page.big_image_hrefs.len() > 0 {
        let u = absolutize(page.big_image_hrefs[0].as_str());
        if u.as_str().is_empty() {
            owned(page.head_cover.as_str())
        } else {
            u
        }
    } else {
        owned(page.head_cover.as_str())
    };
    if title.as_str().is_empty() && cover_url.as_str().is_empty() {
        return None;
    }
    let premiered = lookup_info(&page.info_rows, "发行日期");
    let duration = lookup_info(&page.info_rows, "长度");
    let director = lookup_info(&page.info_rows, "导演");
    let studio = lookup_info(&page.info_rows, "制作商");
    let publisher = lookup_info(&page.info_rows, "发行商");
    let actor_names = dedup_strings(&nonblank_strings(&page.star_names));
    let actors = join_strings(&actor_names, ", ");
    let tags = join_strings(&dedup_strings(&without_strings(&nonblank_strings(&page.genre_names), &actor_names)), ", ");
    let thumbs = nonblank_strings(&absolutize_all(&page.sample_hrefs));
    let tagline = if premiered.as_str().is_empty() {
        empty_string()
    } else {
        string_of(&concat(&chars_of("发行日期 "), &chars_of(premiered.as_str())))
    };
    let sort_title = if title.as_str().is_empty() {
        owned(code_upper.as_str())
    } else {
        string_of(&concat(&concat(&chars_of(code_upper.as_str()), &chars_of(" ")), &chars_of(title.as_str())))
    };
    Some(SearchResult {
        code: code_upper,
        title,
        actors,
        actor_avatars: Vec::new(),
        duration,
        maker: studio.clone(),
        studio,
        source: owned("avgood"),
        page_url: empty_string(),
        detail_level: empty_string(),
        detail_score: 0,
        cover_url,
        poster_url: empty_string(),
        director,
        genres: tags.clone(),
        tags,
        premiered,
        rating: None,
        thumbs,
        remote_thumb_urls: None,
        plot: empty_string(),
        outline: empty_string(),
        original_plot: empty_string(),
        original_title: None,
        target_title: None,
        tagline,
        sort_title,
        mpaa: owned("JP-18+"),
        custom_rating: owned("JP-18+"),
        country_code: owned("JP"),
        is_uncensored: false,
        critic_rating: Some(0),
        set_name: empty_string(),
        publisher,
        label: empty_string(),
        remote_cover_url: None,
        cover_orientation: None,
        cover_candidates: Vec::new(),
    })
}

impl crate::sources::AvGood {
    /// Reads a detail page of the designation `code`.
    pub fn parse(&self, html: &str, code: &str) -> (r: Option<SearchResult>)
        ensures
            match r {
                Some(x) => avgood_found(avgood_page_of(html@), code@) && avgood_fields(x, avgood_page_of(html@), code@),
                None => !avgood_found(avgood_page_of(html@), code@),
            },
    {
        let page = read_avgood_page(html);
        avgood_page_result(&page, code)
    }
}

} // verus!
