//! The 123av source: titles on its pages carry the designation and a
//! "watch online" marker that are stripped off.

use vstd::prelude::*;
use crate::avsox::str_views;
use crate::html::{element_view, element_views, nested_elements, nested_of, nested_view, nested_views, pair_views, select_links, selected_links};
use crate::javguru::{element_text, RowView};
use crate::page::{
    dedup, dedup_strings, either, first_or_empty, first_string, head_cover, head_description, head_page_url, head_title,
    nonblank, nonblank_strings, read_head_meta, select_texts, selected_texts, split_str, split_str_chars, strip_from_ci,
    strip_from_ci_chars,
};
use crate::scrape::SearchResult;
use crate::text::{
    chars_of, collapse_ws, collapse_ws_chars, concat, contains, contains_str, copy_chars, find, find_chars, join,
    join_strings, owned, replace_all, replace_chars, replace_str, same, slice, string_of, string_views, to_lowercase,
    trim_end_set_chars,
    to_uppercase, trim, trim_chars, trim_end_set, trim_start_set, trim_start_set_chars, unicode_lower, unicode_upper,
};

verus! {

/// Characters stripped from the start of a title after the designation.
pub open spec fn title_lead() -> Seq<char> {
    seq!['-', ' ', ',', '、']
}

/// A title without the designation `code_upper` and the "watch online"
/// markers (simplified and traditional), given the upper-cased text.
pub open spec fn stripped_title(upper: Seq<char>, code_upper: Seq<char>) -> Seq<char> {
    trim(
        trim_start_set(
            replace_all(
                replace_all(replace_all(upper, code_upper, Seq::empty()), "在线观看"@, Seq::empty()),
                "在線觀看"@,
                Seq::empty(),
            ),
            title_lead(),
        ),
    )
}

/// A title from an already upper-cased text.
pub fn strip_code_from_upper(upper: &str, code_upper: &str) -> (r: String)
    ensures
        r@ == stripped_title(upper@, code_upper@),
{
    let u = chars_of(upper);
    let c = chars_of(code_upper);
    let empty: Vec<char> = Vec::new();
    assert(empty@ =~= Seq::<char>::empty());
    let a = replace_chars(&u, &c, &empty);
    let b = replace_str(&a, "在线观看", &empty);
    let d = replace_str(&b, "在線觀看", &empty);
    let mut lead: Vec<char> = Vec::new();
    lead.push('-');
    lead.push(' ');
    lead.push(',');
    lead.push('、');
    assert(lead@ =~= title_lead());
    let e = trim_start_set_chars(&d, &lead);
    let f = trim_chars(&e);
    string_of(&f)
}

/// A title without the designation and the "watch online" markers (the text
/// is upper-cased first).
pub fn strip_code_and_suffix(text: &str, code_upper: &str) -> (r: String)
    ensures
        r@ == stripped_title(unicode_upper(text@), code_upper@),
{
    let u = to_uppercase(text);
    strip_code_from_upper(u.as_str(), code_upper)
}

// ------------------------------------------------------------------
// Detail pages
// ------------------------------------------------------------------

/// The label of a detail row: the text of its first `span`, without
/// trailing colons, trimmed.
pub open spec fn row_label(row: RowView) -> Seq<char> {
    trim(trim_end_set(trim_end_set(trim(join(row.1[0].1, ""@)), seq![':']), seq!['：']))
}

/// The label and value of a detail row `<span>标签:</span> <span>值</span>`;
/// `None` when it has fewer than two spans or either is empty.
pub open spec fn detail_entry(row: RowView) -> Option<(Seq<char>, Seq<char>)> {
    if row.1.len() < 2 {
        None
    } else {
        let label = row_label(row);
        let value = element_text(row.1[1]);
        if label.len() == 0 || value.len() == 0 {
            None
        } else {
            Some((label, value))
        }
    }
}

/// The value of the last row labelled `label`, if any.
pub open spec fn detail_lookup(rows: Seq<RowView>, label: Seq<char>) -> Option<Seq<char>>
    decreases rows.len(),
{
    if rows.len() == 0 {
        None
    } else {
        match detail_entry(rows.last()) {
            Some((l, v)) => if l == label {
                Some(v)
            } else {
                detail_lookup(rows.drop_last(), label)
            },
            None => detail_lookup(rows.drop_last(), label),
        }
    }
}

/// The first of `labels` that has a value, empty when none has.
pub open spec fn detail_value(rows: Seq<RowView>, labels: Seq<Seq<char>>) -> Seq<char>
    decreases labels.len(),
{
    if labels.len() == 0 {
        Seq::empty()
    } else {
        match detail_lookup(rows, labels[0]) {
            Some(v) => v,
            None => detail_value(rows, labels.drop_first()),
        }
    }
}

/// A label holds one of `labels`.
pub open spec fn label_matches(label: Seq<char>, labels: Seq<Seq<char>>) -> bool {
    exists|k: int| 0 <= k < labels.len() && contains(label, #[trigger] labels[k])
}

/// The link texts of the detail rows whose label holds one of `labels`, in
/// order (`spans` and `anchors` list each row's spans and links); a matching
/// row with no link adds the text of its second span while nothing has been
/// collected yet.
pub open spec fn detail_links(spans: Seq<RowView>, anchors: Seq<RowView>, labels: Seq<Seq<char>>) -> Seq<Seq<char>>
    decreases spans.len(),
{
    if spans.len() == 0 {
        Seq::empty()
    } else {
        let prev = detail_links(spans.drop_last(), anchors, labels);
        let i = spans.len() - 1;
        let row = spans[i];
        if row.1.len() == 0 || !label_matches(row_label(row), labels) {
            prev
        } else {
            let linked = if i < anchors.len() {
                nonblank(anchors[i].1.map_values(|e: (Option<Seq<char>>, Seq<Seq<char>>)| element_text(e)))
            } else {
                Seq::empty()
            };
            let acc = prev + linked;
            if acc.len() == 0 && row.1.len() >= 2 && element_text(row.1[1]).len() > 0 {
                acc.push(element_text(row.1[1]))
            } else {
                acc
            }
        }
    }
}

/// The texts (white space collapsed, non-empty) of the links whose target
/// holds one of `patterns`, without repeats.
pub open spec fn href_texts_raw(links: Seq<(Seq<char>, Seq<char>)>, patterns: Seq<Seq<char>>) -> Seq<Seq<char>>
    decreases links.len(),
{
    if links.len() == 0 {
        Seq::empty()
    } else {
        let r = href_texts_raw(links.drop_last(), patterns);
        let l = links.last();
        if label_matches(l.0, patterns) && collapse_ws(l.1).len() > 0 {
            r.push(collapse_ws(l.1))
        } else {
            r
        }
    }
}

pub open spec fn href_texts(links: Seq<(Seq<char>, Seq<char>)>, patterns: Seq<Seq<char>>) -> Seq<Seq<char>> {
    dedup(href_texts_raw(links, patterns))
}

/// The head's title without the site's name after `- 123av` or `| 123av`.
pub open spec fn og_cleaned(raw: Seq<char>) -> Seq<char> {
    let lower = unicode_lower(raw);
    if contains(lower, "- 123av"@) {
        trim(strip_from_ci(raw, "- 123av"@))
    } else if contains(lower, "| 123av"@) {
        trim(strip_from_ci(raw, "| 123av"@))
    } else {
        trim(raw)
    }
}

/// The title and actors of a head title `{CODE} 在线观看, {ACTOR}, ..., {TITLE} - 123AV`.
pub open spec fn og_title_parts(raw: Seq<char>, code_upper: Seq<char>) -> (Seq<char>, Seq<char>) {
    let c = og_cleaned(raw);
    let parts = split_str(c, ", "@);
    if parts.len() < 2 {
        (stripped_title(unicode_upper(c), code_upper), Seq::empty())
    } else if parts.len() == 2 {
        (stripped_title(unicode_upper(parts[1]), code_upper), Seq::empty())
    } else {
        (
            trim(parts.last()),
            join(nonblank(parts.subrange(1, parts.len() - 1).map_values(|a: Seq<char>| trim(a))), ", "@),
        )
    }
}

/// The boilerplate the site puts before a description.
pub open spec fn description_patterns(code_upper: Seq<char>) -> Seq<Seq<char>> {
    seq![
        code_upper + " 在线观看并免费下载 "@ + code_upper + "。"@,
        code_upper + " 在线观看并免费下载 "@ + unicode_lower(code_upper) + "。"@,
        code_upper + " 在线观看"@,
    ]
}

/// What follows the first of `patterns` that occurs, trimmed; the text when
/// none does.
pub open spec fn after_first_pattern(text: Seq<char>, patterns: Seq<Seq<char>>) -> Seq<char>
    decreases patterns.len(),
{
    if patterns.len() == 0 {
        text
    } else {
        match find(text, patterns[0]) {
            Some(p) => trim(text.skip(p + patterns[0].len())),
            None => after_first_pattern(text, patterns.drop_first()),
        }
    }
}

/// The head's description without the site's boilerplate.
pub open spec fn cleaned_description(raw: Seq<char>, code_upper: Seq<char>) -> Seq<char> {
    trim(strip_from_ci(after_first_pattern(trim(raw), description_patterns(code_upper)), "- 123av"@))
}

/// What a detail page offers, as selected: the rows `.detail-item > div`
/// with their spans and with their links, `.description p` and
/// `.description` texts, the page's `a[href]` links, and the head.
pub struct Av123Page {
    pub row_spans: Vec<(Vec<String>, Vec<(Option<String>, Vec<String>)>)>,
    pub row_links: Vec<(Vec<String>, Vec<(Option<String>, Vec<String>)>)>,
    pub description_paragraphs: Vec<String>,
    pub descriptions: Vec<String>,
    pub links: Vec<(String, String)>,
    pub head_title: String,
    pub head_cover: String,
    pub head_description: String,
    pub head_page_url: String,
}

pub struct Av123PageView {
    pub row_spans: Seq<RowView>,
    pub row_links: Seq<RowView>,
    pub description_paragraphs: Seq<Seq<char>>,
    pub descriptions: Seq<Seq<char>>,
    pub links: Seq<(Seq<char>, Seq<char>)>,
    pub head_title: Seq<char>,
    pub head_cover: Seq<char>,
    pub head_description: Seq<char>,
    pub head_page_url: Seq<char>,
}

impl View for Av123Page {
    type V = Av123PageView;

    open spec fn view(&self) -> Av123PageView {
        Av123PageView {
            row_spans: nested_views(self.row_spans@),
            row_links: nested_views(self.row_links@),
            description_paragraphs: string_views(self.description_paragraphs@),
            descriptions: string_views(self.descriptions@),
            links: pair_views(self.links@),
            head_title: self.head_title@,
            head_cover: self.head_cover@,
            head_description: self.head_description@,
            head_page_url: self.head_page_url@,
        }
    }
}

pub open spec fn av123_page_of(html: Seq<char>) -> Av123PageView {
    Av123PageView {
        row_spans: nested_of(html, ".detail-item > div"@, "span"@, ""@),
        row_links: nested_of(html, ".detail-item > div"@, "a"@, ""@),
        description_paragraphs: selected_texts(html, ".description p"@),
        descriptions: selected_texts(html, ".description"@),
        links: selected_links(html, "a[href]"@, "href"@),
        head_title: head_title(html),
        head_cover: head_cover(html),
        head_description: head_description(html),
        head_page_url: head_page_url(html),
    }
}

pub fn read_av123_page(html: &str) -> (r: Av123Page)
    ensures
        r@ == av123_page_of(html@),
{
    let head = read_head_meta(html);
    Av123Page {
        row_spans: nested_elements(html, ".detail-item > div", "span", ""),
        row_links: nested_elements(html, ".detail-item > div", "a", ""),
        description_paragraphs: select_texts(html, ".description p"),
        descriptions: select_texts(html, ".description"),
        links: select_links(html, "a[href]", "href"),
        head_title: head.title,
        head_cover: head.cover_url,
        head_description: head.description,
        head_page_url: head.page_url,
    }
}

pub open spec fn first_or(v: Seq<Seq<char>>, fallback: Seq<char>) -> Seq<char> {
    if v.len() > 0 {
        v[0]
    } else {
        fallback
    }
}

pub open spec fn av123_actors(p: Av123PageView, code_upper: Seq<char>) -> Seq<char> {
    let d = detail_links(p.row_spans, p.row_links, seq!["女演员"@, "女優"@, "Actress"@, "演员"@]);
    if d.len() > 0 {
        join(dedup(d), ", "@)
    } else {
        let b = href_texts(p.links, seq!["/actresses/"@, "/actress/"@]);
        if b.len() > 0 {
            join(dedup(b), ", "@)
        } else {
            og_title_parts(p.head_title, code_upper).1
        }
    }
}

pub open spec fn av123_tags(p: Av123PageView) -> Seq<char> {
    let t = detail_links(p.row_spans, p.row_links, seq!["类型"@, "類型"@, "Genre"@, "Genres"@]) + detail_links(
        p.row_spans,
        p.row_links,
        seq!["标签"@, "標籤"@, "Tag"@, "Tags"@],
    );
    join(
        dedup(
            if t.len() > 0 {
                t
            } else {
                href_texts(p.links, seq!["/genres/"@, "/genre/"@, "/tags/"@, "/tag/"@])
            },
        ),
        ", "@,
    )
}

pub open spec fn detail_or_links(p: Av123PageView, labels: Seq<Seq<char>>, patterns: Seq<Seq<char>>) -> Seq<char> {
    first_or(
        detail_links(p.row_spans, p.row_links, labels),
        first_or(href_texts(p.links, patterns), Seq::empty()),
    )
}

pub open spec fn av123_studio(p: Av123PageView) -> Seq<char> {
    detail_or_links(
        p,
        seq!["制作人"@, "製作人"@, "制作商"@, "Maker"@, "Studio"@],
        seq!["/makers/"@, "/maker/"@, "/studios/"@, "/studio/"@],
    )
}

/// The first text of `v` that `tags` does not hold, empty when none.
pub open spec fn first_not_in(v: Seq<Seq<char>>, tags: Seq<char>) -> Seq<char>
    decreases v.len(),
{
    if v.len() == 0 {
        Seq::empty()
    } else if !contains(tags, v[0]) {
        v[0]
    } else {
        first_not_in(v.drop_first(), tags)
    }
}

pub open spec fn av123_plot(p: Av123PageView, code_upper: Seq<char>) -> Seq<char> {
    let body = trim(replace_all(either(first_or_empty(p.description_paragraphs), first_or_empty(p.descriptions)), "更多.."@, ""@));
    if body.len() > 0 {
        body
    } else {
        cleaned_description(p.head_description, code_upper)
    }
}

pub open spec fn av123_found(p: Av123PageView, code: Seq<char>) -> bool {
    og_title_parts(p.head_title, unicode_upper(trim(code))).0.len() > 0 || p.head_cover.len() > 0
}

/// The result read from a 123av detail page.
pub open spec fn av123_fields(r: SearchResult, p: Av123PageView, code: Seq<char>) -> bool {
    let cu = unicode_upper(trim(code));
    let premiered = detail_value(p.row_spans, seq!["发布日期"@, "發佈日期"@, "Release Date"@]);
    let studio = av123_studio(p);
    let tags = av123_tags(p);
    let plot = av123_plot(p, cu);
    &&& r.code@ == cu
    &&& r.title@ == og_title_parts(p.head_title, cu).0
    &&& r.actors@ == av123_actors(p, cu)
    &&& r.duration@ == detail_value(p.row_spans, seq!["时长"@, "時長"@, "Duration"@])
    &&& r.studio@ == studio
    &&& r.maker@ == studio
    &&& r.page_url@ == p.head_page_url
    &&& r.cover_url@ == p.head_cover
    &&& r.director@ == detail_or_links(p, seq!["导演"@, "導演"@, "Director"@], seq!["/directors/"@, "/director/"@])
    &&& r.tags@ == tags
    &&& r.genres@ == tags
    &&& r.premiered@ == premiered
    &&& r.tagline@ == (if premiered.len() == 0 {
        Seq::empty()
    } else {
        "发行日期 "@ + premiered
    })
    &&& r.plot@ == plot
    &&& r.outline@ == plot
    &&& r.set_name@ == detail_or_links(p, seq!["系列"@, "Series"@], seq!["/series/"@])
    &&& r.label@ == first_not_in(detail_links(p.row_spans, p.row_links, seq!["标签"@, "Label"@]), tags)
    &&& r.source@ == "123av"@
    &&& r.mpaa@ == "JP-18+"@
    &&& r.custom_rating@ == "JP-18+"@
    &&& r.country_code@ == "JP"@
    &&& r.poster_url@.len() == 0
    &&& r.thumbs@.len() == 0
    &&& r.rating is None
    &&& r.remote_cover_url is None
    &&& r.original_plot@.len() == 0
    &&& r.actor_avatars@.len() == 0
    &&& r.detail_level@.len() == 0
    &&& r.detail_score == 0
    &&& r.remote_thumb_urls is None
    &&& r.original_title is None
    &&& r.target_title is None
    &&& r.sort_title@.len() == 0
    &&& !r.is_uncensored
    &&& r.critic_rating is None
    &&& r.publisher@.len() == 0
    &&& r.cover_orientation is None
    &&& r.cover_candidates@.len() == 0
}

fn no_chars() -> (r: Vec<char>)
    ensures
        r@ == Seq::<char>::empty(),
{
    let v: Vec<char> = Vec::new();
    assert(v@ =~= Seq::<char>::empty());
    v
}

fn empty_string() -> (r: String)
    ensures
        r@ == Seq::<char>::empty(),
{
    string_of(&no_chars())
}

fn text_of_element(e: &(Option<String>, Vec<String>)) -> (r: Vec<char>)
    ensures
        r@ == element_text(element_view(*e)),
{
    collapse_ws_chars(&chars_of(join_strings(&e.1, " ").as_str()))
}

fn row_label_of(row: &(Vec<String>, Vec<(Option<String>, Vec<String>)>)) -> (r: Vec<char>)
    requires
        row.1.len() > 0,
    ensures
        r@ == row_label(nested_view(*row)),
{
    assert(nested_view(*row).1[0] == element_view(row.1@[0]));
    let mut colon: Vec<char> = Vec::new();
    colon.push(':');
    let mut wide: Vec<char> = Vec::new();
    wide.push('：');
    assert(colon@ =~= seq![':']);
    assert(wide@ =~= seq!['：']);
    let t = trim_chars(&chars_of(join_strings(&row.1[0].1, "").as_str()));
    trim_chars(&trim_end_set_chars(&trim_end_set_chars(&t, &colon), &wide))
}

fn entry_of(row: &(Vec<String>, Vec<(Option<String>, Vec<String>)>)) -> (r: Option<(Vec<char>, Vec<char>)>)
    ensures
        match detail_entry(nested_view(*row)) {
            Some((l, v)) => r matches Some(x) && x.0@ == l && x.1@ == v,
            None => r is None,
        },
{
    if row.1.len() < 2 {
        return None;
    }
    assert(nested_view(*row).1[1] == element_view(row.1@[1]));
    let label = row_label_of(row);
    let value = text_of_element(&row.1[1]);
    if label.len() == 0 || value.len() == 0 {
        None
    } else {
        Some((label, value))
    }
}

fn lookup_detail(rows: &Vec<(Vec<String>, Vec<(Option<String>, Vec<String>)>)>, label: &str) -> (r: Option<String>)
    ensures
        match detail_lookup(nested_views(rows@), label@) {
            Some(v) => r matches Some(x) && x@ == v,
            None => r is None,
        },
{
    let ghost rv = nested_views(rows@);
    let want = chars_of(label);
    let mut found: Option<String> = None;
    let mut i: usize = 0;
    while i < rows.len()
        invariant
            i <= rows.len(),
            rv == nested_views(rows@),
            want@ == label@,
            match detail_lookup(rv.take(i as int), label@) {
                Some(v) => found matches Some(x) && x@ == v,
                None => found is None,
            },
        decreases rows.len() - i,
    {
        assert(rv.take(i + 1).drop_last() =~= rv.take(i as int));
        assert(rv.take(i + 1).last() == nested_view(rows@[i as int]));
        match entry_of(&rows[i]) {
            Some((l, v)) => {
                if same(&l, &want) {
                    found = Some(string_of(&v));
                }
            },
            None => {},
        }
        i += 1;
    }
    assert(rv.take(rows.len() as int) =~= rv);
    found
}

fn detail_value_of(rows: &Vec<(Vec<String>, Vec<(Option<String>, Vec<String>)>)>, labels: &Vec<&str>) -> (r: String)
    ensures
        r@ == detail_value(nested_views(rows@), str_views(labels@)),
{
    let ghost lv = str_views(labels@);
    let mut i: usize = 0;
    assert(lv.skip(0) =~= lv);
    while i < labels.len()
        invariant
            i <= labels.len(),
            lv == str_views(labels@),
            detail_value(nested_views(rows@), lv) == detail_value(nested_views(rows@), lv.skip(i as int)),
        decreases labels.len() - i,
    {
        assert(lv.skip(i as int)[0] == labels@[i as int]@);
        assert(lv.skip(i as int).drop_first() =~= lv.skip(i + 1));
        match lookup_detail(rows, labels[i]) {
            Some(v) => {
                return v;
            },
            None => {},
        }
        i += 1;
    }
    empty_string()
}

fn matches_any(text: &Vec<char>, labels: &Vec<&str>) -> (r: bool)
    ensures
        r == label_matches(text@, str_views(labels@)),
{
    let ghost lv = str_views(labels@);
    let mut i: usize = 0;
    while i < labels.len()
        invariant
            i <= labels.len(),
            lv == str_views(labels@),
            forall|k: int| 0 <= k < i ==> !contains(text@, #[trigger] lv[k]),
        decreases labels.len() - i,
    {
        assert(lv[i as int] == labels@[i as int]@);
        if contains_str(text, labels[i]) {
            return true;
        }
        i += 1;
    }
    false
}

fn detail_links_of(
    spans: &Vec<(Vec<String>, Vec<(Option<String>, Vec<String>)>)>,
    anchors: &Vec<(Vec<String>, Vec<(Option<String>, Vec<String>)>)>,
    labels: &Vec<&str>,
) -> (r: Vec<String>)
    ensures
        string_views(r@) == detail_links(nested_views(spans@), nested_views(anchors@), str_views(labels@)),
{
    let ghost sv = nested_views(spans@);
    let ghost av = nested_views(anchors@);
    let ghost lv = str_views(labels@);
    let mut out: Vec<String> = Vec::new();
    let mut i: usize = 0;
    while i < spans.len()
        invariant
            i <= spans.len(),
            sv == nested_views(spans@),
            av == nested_views(anchors@),
            lv == str_views(labels@),
            string_views(out@) == detail_links(sv.take(i as int), av, lv),
        decreases spans.len() - i,
    {
        assert(sv.take(i + 1).drop_last() =~= sv.take(i as int));
        assert(sv.take(i + 1)[i as int] == nested_view(spans@[i as int]));
        let row = &spans[i];
        if row.1.len() > 0 {
            let label = row_label_of(row);
            if matches_any(&label, labels) {
                let ghost prev = string_views(out@);
                if i < anchors.len() {
                    assert(av[i as int] == nested_view(anchors@[i as int]));
                    let es = &anchors[i].1;
                    let ghost ev = element_views(es@).map_values(|e: (Option<Seq<char>>, Seq<Seq<char>>)| element_text(e));
                    let ghost kept = nonblank(ev);
                    let mut k: usize = 0;
                    while k < es.len()
                        invariant
                            k <= es.len(),
                            ev == element_views(es@).map_values(|e: (Option<Seq<char>>, Seq<Seq<char>>)| element_text(e)),
                            string_views(out@) == prev + nonblank(ev.take(k as int)),
                        decreases es.len() - k,
                    {
                        assert(ev.take(k + 1).drop_last() =~= ev.take(k as int));
                        assert(ev.take(k + 1).last() == element_text(element_view(es@[k as int])));
                        let t = text_of_element(&es[k]);
                        if t.len() > 0 {
                            let ghost before = string_views(out@);
                            out.push(string_of(&t));
                            assert(string_views(out@) =~= before.push(t@));
                            assert(prev + nonblank(ev.take(k + 1)) =~= (prev + nonblank(ev.take(k as int))).push(t@));
                        }
                        k += 1;
                    }
                    assert(ev.take(es.len() as int) =~= ev);
                } else {
                    assert(string_views(out@) =~= prev + Seq::<Seq<char>>::empty());
                }
                if out.len() == 0 && row.1.len() >= 2 {
                    assert(sv[i as int].1[1] == element_view(row.1@[1]));
                    let v = text_of_element(&row.1[1]);
                    if v.len() > 0 {
                        let ghost before = string_views(out@);
                        out.push(string_of(&v));
                        assert(string_views(out@) =~= before.push(v@));
                    }
                }
            }
        }
        i += 1;
    }
    assert(sv.take(spans.len() as int) =~= sv);
    out
}

fn href_texts_of(links: &Vec<(String, String)>, patterns: &Vec<&str>) -> (r: Vec<String>)
    ensures
        string_views(r@) == href_texts(pair_views(links@), str_views(patterns@)),
{
    let ghost lv = pair_views(links@);
    let mut out: Vec<String> = Vec::new();
    let mut i: usize = 0;
    while i < links.len()
        invariant
            i <= links.len(),
            lv == pair_views(links@),
            string_views(out@) == href_texts_raw(lv.take(i as int), str_views(patterns@)),
        decreases links.len() - i,
    {
        assert(lv.take(i + 1).drop_last() =~= lv.take(i as int));
        assert(lv.take(i + 1).last() == (links@[i as int].0@, links@[i as int].1@));
        let href = chars_of(links[i].0.as_str());
        if matches_any(&href, patterns) {
            let c = collapse_ws_chars(&chars_of(links[i].1.as_str()));
            if c.len() > 0 {
                let ghost before = string_views(out@);
                out.push(string_of(&c));
                assert(string_views(out@) =~= before.push(c@));
            }
        }
        i += 1;
    }
    assert(lv.take(links.len() as int) =~= lv);
    dedup_strings(&out)
}

fn og_cleaned_of(raw: &str) -> (r: Vec<char>)
    ensures
        r@ == og_cleaned(raw@),
{
    let lower = chars_of(to_lowercase(raw).as_str());
    let rv = chars_of(raw);
    if contains_str(&lower, "- 123av") {
        trim_chars(&strip_from_ci_chars(&rv, &chars_of("- 123av")))
    } else if contains_str(&lower, "| 123av") {
        trim_chars(&strip_from_ci_chars(&rv, &chars_of("| 123av")))
    } else {
        trim_chars(&rv)
    }
}

/// The title and actors of the head's title (see `og_title_parts`).
pub fn parse_og_title(raw: &str, code_upper: &str) -> (r: (String, String))
    ensures
        (r.0@, r.1@) == og_title_parts(raw@, code_upper@),
{
    let c = og_cleaned_of(raw);
    let sep = chars_of(", ");
    proof {
        reveal_strlit(", ");
    }
    let parts = split_str_chars(&c, &sep);
    let ghost pv = string_views(parts@);
    if parts.len() < 2 {
        let cs = string_of(&c);
        return (strip_code_and_suffix(cs.as_str(), code_upper), empty_string());
    }
    if parts.len() == 2 {
        assert(pv[1] == parts@[1]@);
        return (strip_code_and_suffix(parts[1].as_str(), code_upper), empty_string());
    }
    let n = parts.len();
    assert(pv.last() == parts@[n - 1]@);
    let title = string_of(&trim_chars(&chars_of(parts[n - 1].as_str())));
    let ghost mid = pv.subrange(1, n - 1).map_values(|a: Seq<char>| trim(a));
    let mut middle: Vec<String> = Vec::new();
    let mut k: usize = 1;
    while k < n - 1
        invariant
            1 <= k <= n - 1,
            n == parts.len(),
            pv == string_views(parts@),
            mid == pv.subrange(1, n - 1).map_values(|a: Seq<char>| trim(a)),
            string_views(middle@) == mid.take(k - 1),
        decreases n - 1 - k,
    {
        let ghost before = string_views(middle@);
        middle.push(string_of(&trim_chars(&chars_of(parts[k].as_str()))));
        assert(mid[k - 1] == trim(parts@[k as int]@));
        assert(string_views(middle@) =~= before.push(mid[k - 1]));
        assert(mid.take(k as int) =~= mid.take(k - 1).push(mid[k - 1]));
        k += 1;
    }
    assert(mid.take(n - 2) =~= mid);
    (title, join_strings(&nonblank_strings(&middle), ", "))
}

/// The head's description without the site's boilerplate (see
/// `cleaned_description`).
pub fn clean_description(raw: &str, code_upper: &str) -> (r: String)
    ensures
        r@ == cleaned_description(raw@, code_upper@),
{
    let cu = chars_of(code_upper);
    let low = chars_of(to_lowercase(code_upper).as_str());
    let mid = chars_of(" 在线观看并免费下载 ");
    let dot = chars_of("。");
    let p0 = concat(&concat(&concat(&cu, &mid), &cu), &dot);
    let p1 = concat(&concat(&concat(&cu, &mid), &low), &dot);
    let p2 = concat(&cu, &chars_of(" 在线观看"));
    let ghost pats = description_patterns(code_upper@);
    assert(pats[0] == p0@ && pats[1] == p1@ && pats[2] == p2@);
    let text = trim_chars(&chars_of(raw));
    let mut pv: Vec<Vec<char>> = Vec::new();
    pv.push(p0);
    pv.push(p1);
    pv.push(p2);
    assert(crate::text::views(pv@) =~= pats);
    let mut i: usize = 0;
    let mut after = copy_chars(&text);
    assert(pats.skip(0) =~= pats);
    while i < 3
        invariant
            i <= 3,
            pats == description_patterns(code_upper@),
            text@ == trim(raw@),
            pv@.len() == 3,
            crate::text::views(pv@) == pats,
            after@ == text@,
            after_first_pattern(text@, pats) == after_first_pattern(text@, pats.skip(i as int)),
        decreases 3 - i,
    {
        assert(pats.skip(i as int)[0] == pv@[i as int]@);
        assert(pats.skip(i as int).drop_first() =~= pats.skip(i + 1));
        proof {
            crate::text::lemma_find_from_bounds(text@, pv@[i as int]@, 0);
        }
        match find_chars(&text, &pv[i]) {
            Some(p) => {
                let rest = slice(&text, p + pv[i].len(), text.len());
                assert(rest@ =~= text@.skip(p + pv@[i as int]@.len()));
                after = trim_chars(&rest);
                assert(pats.skip(i as int).len() > 0);
                assert(after_first_pattern(text@, pats.skip(i as int)) == after@);
                let cut = strip_from_ci_chars(&after, &chars_of("- 123av"));
                return string_of(&trim_chars(&cut));
            },
            None => {},
        }
        i += 1;
    }
    assert(pats.skip(3).len() == 0);
    let cut = strip_from_ci_chars(&after, &chars_of("- 123av"));
    string_of(&trim_chars(&cut))
}

fn first_or_string(v: &Vec<String>, fallback: String) -> (r: String)
    ensures
        r@ == first_or(string_views(v@), fallback@),
{
    if v.len() > 0 {
        owned(v[0].as_str())
    } else {
        fallback
    }
}

fn detail_or_links_of(page: &Av123Page, labels: &Vec<&str>, patterns: &Vec<&str>) -> (r: String)
    ensures
        r@ == detail_or_links(page@, str_views(labels@), str_views(patterns@)),
{
    let d = detail_links_of(&page.row_spans, &page.row_links, labels);
    let h = href_texts_of(&page.links, patterns);
    first_or_string(&d, first_or_string(&h, empty_string()))
}

fn first_not_in_of(v: &Vec<String>, tags: &String) -> (r: String)
    ensures
        r@ == first_not_in(string_views(v@), tags@),
{
    let ghost sv = string_views(v@);
    let t = chars_of(tags.as_str());
    let mut i: usize = 0;
    assert(sv.skip(0) =~= sv);
    while i < v.len()
        invariant
            i <= v.len(),
            sv == string_views(v@),
            t@ == tags@,
            first_not_in(sv, tags@) == first_not_in(sv.skip(i as int), tags@),
        decreases v.len() - i,
    {
        assert(sv.skip(i as int)[0] == v@[i as int]@);
        assert(sv.skip(i as int).drop_first() =~= sv.skip(i + 1));
        if !contains_str(&t, v[i].as_str()) {
            return owned(v[i].as_str());
        }
        i += 1;
    }
    empty_string()
}

fn concat_lists(a: Vec<String>, b: &Vec<String>) -> (r: Vec<String>)
    ensures
        string_views(r@) == string_views(a@) + string_views(b@),
{
    let mut out = a;
    let ghost a0 = string_views(out@);
    let mut k: usize = 0;
    while k < b.len()
        invariant
            k <= b.len(),
            string_views(out@) == a0 + string_views(b@).take(k as int),
        decreases b.len() - k,
    {
        let ghost before = string_views(out@);
        out.push(owned(b[k].as_str()));
        assert(string_views(out@) =~= before.push(b@[k as int]@));
        assert(string_views(b@).take(k + 1) =~= string_views(b@).take(k as int).push(b@[k as int]@));
        k += 1;
    }
    assert(string_views(b@).take(b.len() as int) =~= string_views(b@));
    out
}

/// The result read from the selections of a 123av detail page for the
/// designation `code`; `None` when the page has neither title nor cover.
pub fn av123_page_result(page: &Av123Page, code: &str) -> (r: Option<SearchResult>)
    ensures
        match r {
            Some(x) => av123_found(page@, code@) && av123_fields(x, page@, code@),
            None => !av123_found(page@, code@),
        },
{
    let cu = to_uppercase(string_of(&trim_chars(&chars_of(code))).as_str());
    let (title, head_actors) = parse_og_title(page.head_title.as_str(), cu.as_str());
    let cover_url = owned(page.head_cover.as_str());
    if title.as_str().is_empty() && cover_url.as_str().is_empty() {
        return None;
    }
    let released = vec!["发布日期", "發佈日期", "Release Date"];
    let lengths = vec!["时长", "時長", "Duration"];
    let actress = vec!["女演员", "女優", "Actress", "演员"];
    let actress_links = vec!["/actresses/", "/actress/"];
    let genre_labels = vec!["类型", "類型", "Genre", "Genres"];
    let tag_labels = vec!["标签", "標籤", "Tag", "Tags"];
    let tag_links = vec!["/genres/", "/genre/", "/tags/", "/tag/"];
    let series_labels = vec!["系列", "Series"];
    let series_links = vec!["/series/"];
    let maker_labels = vec!["制作人", "製作人", "制作商", "Maker", "Studio"];
    let maker_links = vec!["/makers/", "/maker/", "/studios/", "/studio/"];
    let label_labels = vec!["标签", "Label"];
    let director_labels = vec!["导演", "導演", "Director"];
    let director_links = vec!["/directors/", "/director/"];
    assert(str_views(released@) =~= seq!["发布日期"@, "發佈日期"@, "Release Date"@]);
    assert(str_views(lengths@) =~= seq!["时长"@, "時長"@, "Duration"@]);
    assert(str_views(actress@) =~= seq!["女演员"@, "女優"@, "Actress"@, "演员"@]);
    assert(str_views(actress_links@) =~= seq!["/actresses/"@, "/actress/"@]);
    assert(str_views(genre_labels@) =~= seq!["类型"@, "類型"@, "Genre"@, "Genres"@]);
    assert(str_views(tag_labels@) =~= seq!["标签"@, "標籤"@, "Tag"@, "Tags"@]);
    assert(str_views(tag_links@) =~= seq!["/genres/"@, "/genre/"@, "/tags/"@, "/tag/"@]);
    assert(str_views(series_labels@) =~= seq!["系列"@, "Series"@]);
    assert(str_views(series_links@) =~= seq!["/series/"@]);
    assert(str_views(maker_labels@) =~= seq!["制作人"@, "製作人"@, "制作商"@, "Maker"@, "Studio"@]);
    assert(str_views(maker_links@) =~= seq!["/makers/"@, "/maker/"@, "/studios/"@, "/studio/"@]);
    assert(str_views(label_labels@) =~= seq!["标签"@, "Label"@]);
    assert(str_views(director_labels@) =~= seq!["导演"@, "導演"@, "Director"@]);
    assert(str_views(director_links@) =~= seq!["/directors/"@, "/director/"@]);
    let premiered = detail_value_of(&page.row_spans, &released);
    let duration = detail_value_of(&page.row_spans, &lengths);
    let from_detail = detail_links_of(&page.row_spans, &page.row_links, &actress);
    let actors = if from_detail.len() > 0 {
        join_strings(&dedup_strings(&from_detail), ", ")
    } else {
        let from_body = href_texts_of(&page.links, &actress_links);
        if from_body.len() > 0 {
            join_strings(&dedup_strings(&from_body), ", ")
        } else {
            head_actors
        }
    };
    let genres = detail_links_of(&page.row_spans, &page.row_links, &genre_labels);
    let tag_list = detail_links_of(&page.row_spans, &page.row_links, &tag_labels);
    let all_tags = concat_lists(genres, &tag_list);
    let chosen = if all_tags.len() > 0 {
        all_tags
    } else {
        href_texts_of(&page.links, &tag_links)
    };
    let tags = join_strings(&dedup_strings(&chosen), ", ");
    let set_name = detail_or_links_of(page, &series_labels, &series_links);
    let studio = detail_or_links_of(page, &maker_labels, &maker_links);
    let label = first_not_in_of(&detail_links_of(&page.row_spans, &page.row_links, &label_labels), &tags);
    let director = detail_or_links_of(page, &director_labels, &director_links);
    let body_raw = {
        let a = first_string(&page.description_paragraphs);
        if a.as_str().is_empty() {
            first_string(&page.descriptions)
        } else {
            a
        }
    };
    let body = trim_chars(&replace_str(&chars_of(body_raw.as_str()), "更多..", &chars_of("")));
    let plot = if body.len() > 0 {
        string_of(&body)
    } else {
        clean_description(page.head_description.as_str(), cu.as_str())
    };
    let tagline = if premiered.as_str().is_empty() {
        empty_string()
    } else {
        string_of(&concat(&chars_of("发行日期 "), &chars_of(premiered.as_str())))
    };
    Some(SearchResult {
        code: cu,
        title,
        actors,
        actor_avatars: Vec::new(),
        duration,
        maker: studio.clone(),
        studio,
        source: owned("123av"),
        page_url: owned(page.head_page_url.as_str()),
        detail_level: empty_string(),
        detail_score: 0,
        cover_url,
        poster_url: empty_string(),
        director,
        genres: tags.clone(),
        tags,
        premiered,
        rating: None,
        thumbs: Vec::new(),
        remote_thumb_urls: None,
        outline: plot.clone(),
        plot,
        original_plot: empty_string(),
        original_title: None,
        target_title: None,
        tagline,
        sort_title: empty_string(),
        mpaa: owned("JP-18+"),
        custom_rating: owned("JP-18+"),
        country_code: owned("JP"),
        is_uncensored: false,
        critic_rating: None,
        set_name,
        publisher: empty_string(),
        label,
        remote_cover_url: None,
        cover_orientation: None,
        cover_candidates: Vec::new(),
    })
}

impl crate::sources::Av123 {
    /// Reads a detail page of the designation `code`.
    pub fn parse(&self, html: &str, code: &str) -> (r: Option<SearchResult>)
        ensures
            match r {
                Some(x) => av123_found(av123_page_of(html@), code@) && av123_fields(x, av123_page_of(html@), code@),
                None => !av123_found(av123_page_of(html@), code@),
            },
    {
        let page = read_av123_page(html);
        av123_page_result(&page, code)
    }
}

} // verus!
