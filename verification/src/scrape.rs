//! Scrape results: what a source yields, how rich it is, when it is kept,
//! and how it becomes the metadata that is saved.

use vstd::prelude::*;
use crate::designation::{is_uncensored, is_uncensored_designation, recognize_standard, standard_form};
use crate::subtitle::alnum_upper;
use crate::text::{
    owned,
    chars_of, collapse_ws, collapse_ws_chars, concat, contains, contains_str, digits_value,
    is_blank, is_blank_str, leading_digits, leading_digits_chars, parse_int, parse_int_chars, same,
    split_set, split_set_chars, starts_with, starts_with_str, string_of, string_views,
    take_at_most, take_at_most_chars, to_lowercase, to_uppercase, trim, trim_chars, trim_str,
    unicode_lower, unicode_upper, views,
};
use crate::urls::{join_url, scheme_of, url_joined, url_scheme};

verus! {

/// An actor as shown on a detail page: name, avatar and the code of the
/// actor's page.
#[derive(Debug, Clone, Default)]
pub struct ActorAvatar {
    pub name: String,
    pub avatar_url: String,
    pub star_code: String,
}

/// The result of one source for one designation. `rating` holds the bit
/// pattern of the `f64` rating.
#[derive(Debug, Clone, Default)]
pub struct SearchResult {
    pub code: String,
    pub title: String,
    /// Comma-separated actors.
    pub actors: String,
    pub actor_avatars: Vec<ActorAvatar>,
    /// Such as `120分钟`.
    pub duration: String,
    pub studio: String,
    /// Name of the source.
    pub source: String,
    /// Detail page of the result.
    pub page_url: String,
    /// Richness label such as `完整`.
    pub detail_level: String,
    /// Richness score, used to rank results.
    pub detail_score: i32,
    pub cover_url: String,
    pub poster_url: String,
    pub director: String,
    /// Comma-separated tags.
    pub tags: String,
    pub premiered: String,
    pub rating: Option<u64>,
    pub thumbs: Vec<String>,
    /// Remote preview URLs kept after the previews were cached locally.
    pub remote_thumb_urls: Option<Vec<String>>,
    pub plot: String,
    pub outline: String,
    pub original_plot: String,
    pub original_title: Option<String>,
    /// Title to rename the files to when the result is saved.
    pub target_title: Option<String>,
    pub tagline: String,
    pub sort_title: String,
    pub mpaa: String,
    pub custom_rating: String,
    pub country_code: String,
    /// Uncensored work (by the form or label of the designation).
    pub is_uncensored: bool,
    pub critic_rating: Option<i32>,
    pub set_name: String,
    pub maker: String,
    pub publisher: String,
    pub label: String,
    /// Comma-separated genres.
    pub genres: String,
    /// Remote cover URL kept after the cover was cached locally.
    pub remote_cover_url: Option<String>,
    /// `landscape` or `portrait`, measured on the cached cover.
    pub cover_orientation: Option<String>,
    /// Cover candidates across sources, best first.
    pub cover_candidates: Vec<String>,
}

/// How one source did in a fused scrape.
#[derive(Debug, Clone, Default)]
pub struct SourceDiagnostic {
    /// Source id, as in the settings.
    pub source: String,
    /// Display name of the site.
    pub site_name: String,
    /// Detail page on success, else the home page of the site.
    pub url: String,
    /// `success`, `empty`, `failed` or `timeout`.
    pub status: String,
    /// Why it failed.
    pub error: Option<String>,
    pub elapsed_ms: u64,
}

/// Scraped metadata of a video, as saved (NFO and database). `score` holds
/// the bit pattern of the `f64` score.
#[derive(Debug, Clone, Default)]
pub struct ScrapeMetadata {
    pub title: String,
    pub local_id: String,
    pub original_title: Option<String>,
    pub plot: String,
    pub outline: String,
    pub original_plot: String,
    pub tagline: String,
    pub studio: String,
    pub premiered: String,
    /// Minutes.
    pub duration: Option<i64>,
    pub poster_url: String,
    pub cover_url: String,
    pub actors: Vec<String>,
    pub actor_avatars: Vec<ActorAvatar>,
    pub director: String,
    pub score: Option<u64>,
    pub critic_rating: Option<i32>,
    pub sort_title: String,
    pub mpaa: String,
    pub custom_rating: String,
    pub country_code: String,
    pub is_uncensored: bool,
    pub set_name: String,
    pub maker: String,
    pub publisher: String,
    pub label: String,
    pub tags: Vec<String>,
    pub genres: Vec<String>,
    pub thumbs: Vec<String>,
    /// Detail page, written to the NFO.
    pub website: String,
}

// ------------------------------------------------------------------
// Small predicates
// ------------------------------------------------------------------

/// Does the text hold something besides white space?
pub fn has_text(value: &str) -> (r: bool)
    ensures
        r == !is_blank(value@),
{
    !is_blank_str(value)
}

/// Longest preview of a page kept in logs, in characters.
pub open spec fn preview_len() -> nat {
    300
}

/// A page for the log: white space collapsed, cut at 300 characters, `...`
/// appended when it was longer.
pub open spec fn page_preview(html: Seq<char>) -> Seq<char> {
    let c = collapse_ws(html);
    if c.len() > preview_len() {
        take_at_most(c, preview_len()) + "..."@
    } else {
        c
    }
}

pub fn preview_html(html: &str) -> (r: String)
    ensures
        r@ == page_preview(html@),
{
    let v = chars_of(html);
    let c = collapse_ws_chars(&v);
    let p = take_at_most_chars(&c, 300);
    if c.len() > 300 {
        let dots = chars_of("...");
        let out = concat(&p, &dots);
        string_of(&out)
    } else {
        string_of(&p)
    }
}

// ------------------------------------------------------------------
// Validity
// ------------------------------------------------------------------

/// A lower-cased title that marks a missing page.
pub open spec fn marks_not_found(lower: Seq<char>) -> bool {
    contains(lower, "404"@) || contains(lower, "not found"@) || contains(lower, "页面不存在"@)
        || contains(lower, "頁面不存在"@) || contains(lower, "page not found"@)
}

/// A result is kept unless its (lower-cased) title marks a missing page, or it
/// has no cover, no actors and no release date.
pub open spec fn valid_result(title_lower: Seq<char>, r: SearchResult) -> bool {
    !marks_not_found(title_lower) && !(r.cover_url@.len() == 0 && r.actors@.len() == 0
        && r.premiered@.len() == 0)
}

/// Validity of a result whose title has been lower-cased into `title_lower`.
pub fn is_valid_with_title(title_lower: &str, result: &SearchResult) -> (r: bool)
    ensures
        r == valid_result(title_lower@, *result),
{
    let t = chars_of(title_lower);
    let not_found = contains_str(&t, "404") || contains_str(&t, "not found") || contains_str(
        &t,
        "页面不存在",
    ) || contains_str(&t, "頁面不存在") || contains_str(&t, "page not found");
    if not_found {
        return false;
    }
    !(result.cover_url.as_str().is_empty() && result.actors.as_str().is_empty()
        && result.premiered.as_str().is_empty())
}

/// Whether a result is kept (missing pages and empty pages are not).
pub fn is_valid_search_result(result: &SearchResult) -> (r: bool)
    ensures
        r == valid_result(unicode_lower(result.title@), *result),
{
    let lower = to_lowercase(result.title.as_str());
    is_valid_with_title(lower.as_str(), result)
}

// ------------------------------------------------------------------
// Richness score
// ------------------------------------------------------------------

pub open spec fn pts(b: bool, n: int) -> int {
    if b {
        n
    } else {
        0
    }
}

pub open spec fn has(s: String) -> bool {
    !is_blank(s@)
}

/// Points of the main fields: title, actors, date, duration, studio, cover;
/// previews 12 plus one per preview up to 12.
pub open spec fn core_points(r: SearchResult) -> int {
    let n = r.thumbs@.len();
    pts(has(r.title), 18) + pts(has(r.actors), 12) + pts(has(r.premiered), 10) + pts(
        has(r.duration),
        8,
    ) + pts(has(r.studio), 8) + pts(has(r.cover_url) || has(r.poster_url), 10) + pts(
        n > 0,
        12 + (if n < 12 {
            n as int
        } else {
            12
        }),
    )
}

/// Points of the secondary fields: director, tags, genres, rating, plot.
pub open spec fn extra_points(r: SearchResult) -> int {
    pts(has(r.director), 6) + pts(has(r.tags), 6) + pts(has(r.genres), 6) + pts(
        r.rating is Some,
        4,
    ) + pts(has(r.plot) || has(r.outline), 12)
}

/// Points of the minor fields: tagline, set, maker, publisher, label.
pub open spec fn minor_points(r: SearchResult) -> int {
    pts(has(r.tagline), 4) + pts(has(r.set_name), 4) + pts(has(r.maker), 2) + pts(
        has(r.publisher),
        2,
    ) + pts(has(r.label), 2)
}

/// +12 when the cover has the preferred orientation, -10 when it has the
/// other, 0 when it is unknown.
pub open spec fn orientation_points(r: SearchResult, preferred: Seq<char>) -> int {
    match r.cover_orientation {
        Some(o) => if o@ == preferred {
            12
        } else {
            -10
        },
        None => 0,
    }
}

/// The richness points of a result before clamping.
pub open spec fn raw_detail_score(r: SearchResult, preferred: Seq<char>) -> int {
    core_points(r) + extra_points(r) + minor_points(r) + orientation_points(r, preferred)
}

/// The richness score: the points, at least 0, at most 100; at most 20 when
/// the result has no preview.
pub open spec fn detail_score(r: SearchResult, preferred: Seq<char>) -> int {
    let raw = raw_detail_score(r, preferred);
    let s = if raw < 0 {
        0
    } else {
        raw
    };
    if r.thumbs@.len() == 0 {
        if s < 20 {
            s
        } else {
            20
        }
    } else {
        if s < 100 {
            s
        } else {
            100
        }
    }
}

fn add_if(score: i32, b: bool, n: i32) -> (r: i32)
    requires
        -1000 <= score <= 1000,
        -100 <= n <= 100,
    ensures
        r == score + pts(b, n as int),
{
    if b {
        score + n
    } else {
        score
    }
}

fn core_points_of(result: &SearchResult) -> (r: i32)
    ensures
        r == core_points(*result),
        0 <= r <= 90,
{
    let n = result.thumbs.len();
    let mut s: i32 = 0;
    s = add_if(s, has_text(result.title.as_str()), 18);
    s = add_if(s, has_text(result.actors.as_str()), 12);
    s = add_if(s, has_text(result.premiered.as_str()), 10);
    s = add_if(s, has_text(result.duration.as_str()), 8);
    s = add_if(s, has_text(result.studio.as_str()), 8);
    s = add_if(s, has_text(result.cover_url.as_str()) || has_text(result.poster_url.as_str()), 10);
    let extra: i32 = if n < 12 {
        n as i32
    } else {
        12
    };
    add_if(s, n > 0, 12 + extra)
}

fn extra_points_of(result: &SearchResult) -> (r: i32)
    ensures
        r == extra_points(*result),
        0 <= r <= 34,
{
    let mut s: i32 = 0;
    s = add_if(s, has_text(result.director.as_str()), 6);
    s = add_if(s, has_text(result.tags.as_str()), 6);
    s = add_if(s, has_text(result.genres.as_str()), 6);
    s = add_if(s, result.rating.is_some(), 4);
    add_if(s, has_text(result.plot.as_str()) || has_text(result.outline.as_str()), 12)
}

fn minor_points_of(result: &SearchResult) -> (r: i32)
    ensures
        r == minor_points(*result),
        0 <= r <= 14,
{
    let mut s: i32 = 0;
    s = add_if(s, has_text(result.tagline.as_str()), 4);
    s = add_if(s, has_text(result.set_name.as_str()), 4);
    s = add_if(s, has_text(result.maker.as_str()), 2);
    s = add_if(s, has_text(result.publisher.as_str()), 2);
    add_if(s, has_text(result.label.as_str()), 2)
}

fn orientation_points_of(result: &SearchResult, preferred: &str) -> (r: i32)
    ensures
        r == orientation_points(*result, preferred@),
{
    match &result.cover_orientation {
        Some(o) => {
            let ov = chars_of(o.as_str());
            let pv = chars_of(preferred);
            if same(&ov, &pv) {
                12
            } else {
                -10
            }
        },
        None => 0,
    }
}

/// How rich a result is (0-100), given the preferred cover orientation.
pub fn compute_search_result_detail_score(result: &SearchResult, preferred_cover_type: &str) -> (r: i32)
    ensures
        r == detail_score(*result, preferred_cover_type@),
{
    let a = core_points_of(result);
    let b = extra_points_of(result);
    let m = minor_points_of(result);
    let c = orientation_points_of(result, preferred_cover_type);
    let mut s: i32 = a + b + m + c;
    if s < 0 {
        s = 0;
    }
    if result.thumbs.len() == 0 {
        if s < 20 {
            s
        } else {
            20
        }
    } else {
        if s < 100 {
            s
        } else {
            100
        }
    }
}

/// The richness score lies between 0 and 100, and is at most 20 for a
/// result without previews.
pub proof fn lemma_detail_score_range(r: SearchResult, preferred: Seq<char>)
    ensures
        0 <= detail_score(r, preferred) <= 100,
        r.thumbs@.len() == 0 ==> detail_score(r, preferred) <= 20,
{
}

/// `r` with its cover orientation replaced by `o`.
pub open spec fn with_orientation(r: SearchResult, o: Option<String>) -> SearchResult {
    SearchResult { cover_orientation: o, ..r }
}

/// The highest score a result can have: 100, or 20 without previews.
pub open spec fn score_cap(r: SearchResult) -> int {
    if r.thumbs@.len() == 0 {
        20
    } else {
        100
    }
}

/// The cover's orientation ranks otherwise equal results: against an unknown
/// orientation, the preferred one adds 12 points and the other takes 10
/// away, within 0 and the cap. So a cover of the preferred orientation scores
/// higher than an unknown one, which scores higher than the other orientation,
/// wherever the cap and 0 leave room.
pub proof fn lemma_orientation_ranks(r: SearchResult, preferred: Seq<char>, same: String, other: String)
    requires
        same@ == preferred,
        other@ != preferred,
    ensures
        detail_score(with_orientation(r, Some(same)), preferred) == (if detail_score(
            with_orientation(r, None),
            preferred,
        ) + 12 < score_cap(r) {
            detail_score(with_orientation(r, None), preferred) + 12
        } else {
            score_cap(r)
        }),
        detail_score(with_orientation(r, None), preferred) < score_cap(r) ==> detail_score(
            with_orientation(r, Some(other)),
            preferred,
        ) == (if detail_score(with_orientation(r, None), preferred) >= 10 {
            detail_score(with_orientation(r, None), preferred) - 10
        } else {
            0
        }),
        detail_score(with_orientation(r, Some(other)), preferred) <= detail_score(
            with_orientation(r, None),
            preferred,
        ) <= detail_score(with_orientation(r, Some(same)), preferred),
        detail_score(with_orientation(r, None), preferred) < score_cap(r) ==> detail_score(
            with_orientation(r, None),
            preferred,
        ) < detail_score(with_orientation(r, Some(same)), preferred),
        0 < detail_score(with_orientation(r, None), preferred) < score_cap(r) ==> detail_score(
            with_orientation(r, Some(other)),
            preferred,
        ) < detail_score(with_orientation(r, None), preferred),
{
    let base = with_orientation(r, None);
    let up = with_orientation(r, Some(same));
    let down = with_orientation(r, Some(other));
    assert(core_points(up) == core_points(base) && core_points(down) == core_points(base));
    assert(extra_points(up) == extra_points(base) && extra_points(down) == extra_points(base));
    assert(minor_points(up) == minor_points(base) && minor_points(down) == minor_points(base));
    assert(orientation_points(base, preferred) == 0);
    assert(orientation_points(up, preferred) == 12);
    assert(orientation_points(down, preferred) == -10);
    assert(core_points(base) >= 0 && extra_points(base) >= 0 && minor_points(base) >= 0);
}

/// Each field adds its own points to an otherwise equal result, wherever 0
/// and the cap leave room: title 18, actors 12, date 10, duration 8, studio
/// 8, cover 10, director, tags and genres 6 each, rating 4, plot 12, tagline
/// and set 4 each, maker, publisher and label 2 each.
pub proof fn lemma_field_points(r: SearchResult, preferred: Seq<char>, full: String, blank: String, bits: u64)
    requires
        has(full),
        is_blank(blank@),
    ensures
        (0 < detail_score(SearchResult { title: blank, ..r }, preferred) && detail_score(SearchResult { title: blank, ..r }, preferred) + 18 < score_cap(r)) ==> detail_score(SearchResult { title: full, ..r }, preferred) == detail_score(SearchResult { title: blank, ..r }, preferred) + 18,
        (0 < detail_score(SearchResult { actors: blank, ..r }, preferred) && detail_score(SearchResult { actors: blank, ..r }, preferred) + 12 < score_cap(r)) ==> detail_score(SearchResult { actors: full, ..r }, preferred) == detail_score(SearchResult { actors: blank, ..r }, preferred) + 12,
        (0 < detail_score(SearchResult { premiered: blank, ..r }, preferred) && detail_score(SearchResult { premiered: blank, ..r }, preferred) + 10 < score_cap(r)) ==> detail_score(SearchResult { premiered: full, ..r }, preferred) == detail_score(SearchResult { premiered: blank, ..r }, preferred) + 10,
        (0 < detail_score(SearchResult { duration: blank, ..r }, preferred) && detail_score(SearchResult { duration: blank, ..r }, preferred) + 8 < score_cap(r)) ==> detail_score(SearchResult { duration: full, ..r }, preferred) == detail_score(SearchResult { duration: blank, ..r }, preferred) + 8,
        (0 < detail_score(SearchResult { studio: blank, ..r }, preferred) && detail_score(SearchResult { studio: blank, ..r }, preferred) + 8 < score_cap(r)) ==> detail_score(SearchResult { studio: full, ..r }, preferred) == detail_score(SearchResult { studio: blank, ..r }, preferred) + 8,
        (0 < detail_score(SearchResult { director: blank, ..r }, preferred) && detail_score(SearchResult { director: blank, ..r }, preferred) + 6 < score_cap(r)) ==> detail_score(SearchResult { director: full, ..r }, preferred) == detail_score(SearchResult { director: blank, ..r }, preferred) + 6,
        (0 < detail_score(SearchResult { tags: blank, ..r }, preferred) && detail_score(SearchResult { tags: blank, ..r }, preferred) + 6 < score_cap(r)) ==> detail_score(SearchResult { tags: full, ..r }, preferred) == detail_score(SearchResult { tags: blank, ..r }, preferred) + 6,
        (0 < detail_score(SearchResult { genres: blank, ..r }, preferred) && detail_score(SearchResult { genres: blank, ..r }, preferred) + 6 < score_cap(r)) ==> detail_score(SearchResult { genres: full, ..r }, preferred) == detail_score(SearchResult { genres: blank, ..r }, preferred) + 6,
        (0 < detail_score(SearchResult { tagline: blank, ..r }, preferred) && detail_score(SearchResult { tagline: blank, ..r }, preferred) + 4 < score_cap(r)) ==> detail_score(SearchResult { tagline: full, ..r }, preferred) == detail_score(SearchResult { tagline: blank, ..r }, preferred) + 4,
        (0 < detail_score(SearchResult { set_name: blank, ..r }, preferred) && detail_score(SearchResult { set_name: blank, ..r }, preferred) + 4 < score_cap(r)) ==> detail_score(SearchResult { set_name: full, ..r }, preferred) == detail_score(SearchResult { set_name: blank, ..r }, preferred) + 4,
        (0 < detail_score(SearchResult { maker: blank, ..r }, preferred) && detail_score(SearchResult { maker: blank, ..r }, preferred) + 2 < score_cap(r)) ==> detail_score(SearchResult { maker: full, ..r }, preferred) == detail_score(SearchResult { maker: blank, ..r }, preferred) + 2,
        (0 < detail_score(SearchResult { publisher: blank, ..r }, preferred) && detail_score(SearchResult { publisher: blank, ..r }, preferred) + 2 < score_cap(r)) ==> detail_score(SearchResult { publisher: full, ..r }, preferred) == detail_score(SearchResult { publisher: blank, ..r }, preferred) + 2,
        (0 < detail_score(SearchResult { label: blank, ..r }, preferred) && detail_score(SearchResult { label: blank, ..r }, preferred) + 2 < score_cap(r)) ==> detail_score(SearchResult { label: full, ..r }, preferred) == detail_score(SearchResult { label: blank, ..r }, preferred) + 2,
        (0 < detail_score(SearchResult { cover_url: blank, poster_url: blank, ..r }, preferred) && detail_score(SearchResult { cover_url: blank, poster_url: blank, ..r }, preferred) + 10 < score_cap(r)) ==> detail_score(SearchResult { cover_url: full, poster_url: blank, ..r }, preferred) == detail_score(SearchResult { cover_url: blank, poster_url: blank, ..r }, preferred) + 10,
        (0 < detail_score(SearchResult { plot: blank, outline: blank, ..r }, preferred) && detail_score(SearchResult { plot: blank, outline: blank, ..r }, preferred) + 12 < score_cap(r)) ==> detail_score(SearchResult { plot: full, outline: blank, ..r }, preferred) == detail_score(SearchResult { plot: blank, outline: blank, ..r }, preferred) + 12,
        (0 < detail_score(SearchResult { rating: None, ..r }, preferred) && detail_score(SearchResult { rating: None, ..r }, preferred) + 4 < score_cap(r)) ==> detail_score(SearchResult { rating: Some(bits), ..r }, preferred) == detail_score(SearchResult { rating: None, ..r }, preferred) + 4,
{
}

/// Richness label of a score.
pub open spec fn detail_level(score: int) -> Seq<char> {
    if 75 <= score <= 100 {
        "完整"@
    } else if 50 <= score <= 74 {
        "丰富"@
    } else if 30 <= score <= 49 {
        "标准"@
    } else {
        "简略"@
    }
}

pub fn detail_level_from_score(score: i32) -> (r: &'static str)
    ensures
        r@ == detail_level(score as int),
{
    if 75 <= score && score <= 100 {
        "完整"
    } else if 50 <= score && score <= 74 {
        "丰富"
    } else if 30 <= score && score <= 49 {
        "标准"
    } else {
        "简略"
    }
}

/// Records the richness of a result, and marks it uncensored when its
/// designation says so; nothing else changes.
pub fn enrich_search_result_detail(result: &mut SearchResult, preferred_cover_type: &str)
    ensures
        final(result).detail_score == detail_score(*old(result), preferred_cover_type@),
        final(result).detail_level@ == detail_level(detail_score(*old(result), preferred_cover_type@)),
        final(result).is_uncensored == (old(result).is_uncensored || is_uncensored(old(result).code@)),
        (*final(result)) == (SearchResult {
            detail_score: final(result).detail_score,
            detail_level: final(result).detail_level,
            is_uncensored: final(result).is_uncensored,
            ..*old(result)
        }),
{
    let score = compute_search_result_detail_score(result, preferred_cover_type);
    result.detail_score = score;
    let level = detail_level_from_score(score);
    result.detail_level = crate::text::owned(level);
    if !result.is_uncensored {
        result.is_uncensored = is_uncensored_designation(result.code.as_str());
    }
}

// ------------------------------------------------------------------
// Duration
// ------------------------------------------------------------------

/// Minutes of a duration text such as `120分钟`, `120 min` or `120`: the
/// leading digits after trimming, as an `i64`.
pub open spec fn duration_minutes(d: Seq<char>) -> Option<int> {
    let ds = leading_digits(trim(d));
    if ds.len() == 0 {
        None
    } else {
        parse_int(ds, -0x8000_0000_0000_0000, 0x7fff_ffff_ffff_ffff)
    }
}

pub fn parse_duration_minutes(duration: &str) -> (r: Option<i64>)
    ensures
        match duration_minutes(duration@) {
            Some(v) => r matches Some(x) && x as int == v,
            None => r is None,
        },
{
    let t = trim_str(duration);
    let ds = leading_digits_chars(&t);
    if ds.len() == 0 {
        return None;
    }
    match parse_int_chars(&ds, -0x8000_0000_0000_0000, 0x7fff_ffff_ffff_ffff) {
        Some(v) => Some(v as i64),
        None => None,
    }
}

/// The duration (seconds) stored for a video after a scrape: the existing one
/// unless it is missing or zero; then the scraped minutes times 60, as an
/// `i32` (truncated).
pub open spec fn scraped_duration(existing: Option<i32>, scraped_minutes: Option<i64>) -> Option<i32> {
    let e = match existing {
        Some(x) => x,
        None => 0,
    };
    if e == 0 {
        match scraped_minutes {
            Some(m) => Some((m * 60) as i32),
            None => None,
        }
    } else {
        existing
    }
}

/// A duration already known is never replaced by a scraped one; a missing
/// or zero one is filled from the scraped minutes.
pub proof fn lemma_known_duration_kept(existing: Option<i32>, scraped_minutes: Option<i64>)
    ensures
        (existing matches Some(d) && d != 0) ==> scraped_duration(existing, scraped_minutes) == existing,
        (existing is None || existing == Some(0i32)) ==> (scraped_duration(existing, scraped_minutes) is Some
            <==> scraped_minutes is Some),
{
}

pub fn resolve_scraped_duration(existing_duration: Option<i32>, scraped_duration_minutes: Option<i64>) -> (r: Option<i32>)
    requires
        scraped_duration_minutes matches Some(m) ==> -0x8000_0000_0000_0000 <= m * 60
            <= 0x7fff_ffff_ffff_ffff,
    ensures
        r == scraped_duration(existing_duration, scraped_duration_minutes),
{
    let e = match existing_duration {
        Some(x) => x,
        None => 0,
    };
    if e == 0 {
        match scraped_duration_minutes {
            Some(m) => Some((m * 60) as i32),
            None => None,
        }
    } else {
        existing_duration
    }
}

// ------------------------------------------------------------------
// Designation entered for a search
// ------------------------------------------------------------------

/// The designation searched for, given the trimmed input `t` and its
/// upper-cased form `upper`: the standard form when the input is that
/// designation up to case and hyphens, else `upper`.
pub open spec fn search_code(t: Seq<char>, upper: Seq<char>) -> Seq<char> {
    match standard_form(t) {
        Some(f) => if alnum_upper(f) == alnum_upper(t) {
            f
        } else {
            upper
        },
        None => upper,
    }
}

/// Chooses the searched designation for a trimmed input, given its upper-cased
/// form.
pub fn choose_search_code(trimmed: &str, upper: String) -> (r: String)
    ensures
        r@ == search_code(trimmed@, upper@),
{
    match recognize_standard(trimmed) {
        Some(f) => {
            let a = crate::subtitle::normalize_id(f.as_str());
            let b = crate::subtitle::normalize_id(trimmed);
            let av = chars_of(a.as_str());
            let bv = chars_of(b.as_str());
            if same(&av, &bv) {
                f
            } else {
                upper
            }
        },
        None => upper,
    }
}

/// Normalises a designation entered for a search: `ssis666` and `ssis-666`
/// both become `SSIS-666`; any other input is only trimmed and upper-cased.
pub fn normalize_search_code(raw: &str) -> (r: String)
    ensures
        r@ == search_code(trim(raw@), unicode_upper(trim(raw@))),
{
    let t = trim_str(raw);
    let ts = string_of(&t);
    let upper = to_uppercase(ts.as_str());
    choose_search_code(ts.as_str(), upper)
}

/// The designation of a search request: an error for a blank input, else the
/// normalised designation.
pub fn search_request_code(code: &str) -> (r: Result<String, String>)
    ensures
        r is Err <==> trim(code@).len() == 0,
        r matches Err(e) ==> e@ == "番号不能为空"@,
        r matches Ok(c) ==> c@ == search_code(trim(code@), unicode_upper(trim(code@))),
{
    let t = trim_str(code);
    if t.len() == 0 {
        return Err(string_of(&chars_of("番号不能为空")));
    }
    Ok(normalize_search_code(code))
}

} // verus!

verus! {

// ------------------------------------------------------------------
// Result URLs
// ------------------------------------------------------------------

/// URLs kept as they are: absolute `http(s)`, `data:`, `blob:`, `file://`,
/// Windows drive paths and UNC paths.
pub open spec fn kept_verbatim(t: Seq<char>) -> bool {
    starts_with(t, "http://"@) || starts_with(t, "https://"@) || starts_with(t, "data:"@)
        || starts_with(t, "blob:"@) || starts_with(t, "file://"@) || contains(t, ":\\"@)
        || starts_with(t, "\\\\"@)
}

/// A URL found on a page, made absolute against the page URL `base`: empty
/// when blank; kept when already absolute; a scheme-relative `//` link takes
/// the scheme of `base` (`https` when it does not parse); other links are
/// resolved against `base`, or kept when that fails.
pub open spec fn normalized_url(raw: Seq<char>, base: Seq<char>) -> Seq<char> {
    let t = trim(raw);
    if t.len() == 0 {
        Seq::empty()
    } else if kept_verbatim(t) {
        t
    } else if starts_with(t, "//"@) {
        match url_scheme(base) {
            Some(s) => s + seq![':'] + t,
            None => "https:"@ + t,
        }
    } else {
        match url_joined(base, t) {
            Some(u) => u,
            None => t,
        }
    }
}

pub open spec fn opt_string_view(o: Option<String>) -> Option<Seq<char>> {
    match o {
        Some(s) => Some(s@),
        None => None,
    }
}

/// A protocol-relative URL `t` (`//host/..`) given the scheme of the page it
/// was found on (`None`: the page URL does not parse, and `https` is used).
pub fn with_page_scheme(t: &str, page_scheme: &Option<String>) -> (r: String)
    ensures
        r@ == match opt_string_view(*page_scheme) {
            Some(s) => s + seq![':'] + t@,
            None => "https:"@ + t@,
        },
{
    let tv = chars_of(t);
    match page_scheme {
        Some(s) => {
            let sv = chars_of(s.as_str());
            let mut colon: Vec<char> = Vec::new();
            colon.push(':');
            assert(colon@ =~= seq![':']);
            let a = concat(&sv, &colon);
            let out = concat(&a, &tv);
            string_of(&out)
        },
        None => {
            let h = chars_of("https:");
            let out = concat(&h, &tv);
            string_of(&out)
        },
    }
}

/// A relative URL `t` given what resolving it against its page gave
/// (`None`: it could not be resolved, and it is kept as it is).
pub fn resolved_or_kept(t: &str, resolved: &Option<String>) -> (r: String)
    ensures
        r@ == match opt_string_view(*resolved) {
            Some(u) => u,
            None => t@,
        },
{
    match resolved {
        Some(u) => u.clone(),
        None => owned(t),
    }
}

/// Makes a URL found on the page `base_url` absolute.
pub fn normalize_result_url(raw: &str, base_url: &str) -> (r: String)
    ensures
        r@ == normalized_url(raw@, base_url@),
{
    let t = trim_str(raw);
    if t.len() == 0 {
        return String::new();
    }
    let ts = string_of(&t);
    if starts_with_str(&t, "http://") || starts_with_str(&t, "https://") || starts_with_str(&t, "data:")
        || starts_with_str(&t, "blob:") || starts_with_str(&t, "file://") || contains_str(&t, ":\\")
        || starts_with_str(&t, "\\\\") {
        return ts;
    }
    if starts_with_str(&t, "//") {
        let scheme = scheme_of(base_url);
        return with_page_scheme(ts.as_str(), &scheme);
    }
    let joined = join_url(base_url, ts.as_str());
    resolved_or_kept(ts.as_str(), &joined)
}

/// Image URLs are normalised like any other result URL.
pub fn normalize_result_image_url(raw: &str, base_url: &str) -> (r: String)
    ensures
        r@ == normalized_url(raw@, base_url@),
{
    normalize_result_url(raw, base_url)
}

/// The preview URLs, normalised, empty ones dropped.
pub open spec fn normalized_thumbs(thumbs: Seq<Seq<char>>, base: Seq<char>) -> Seq<Seq<char>> {
    thumbs.map_values(|t: Seq<char>| normalized_url(t, base)).filter(|t: Seq<char>| t.len() > 0)
}

/// Makes the cover, poster and preview URLs of a result absolute against the
/// page it came from; nothing else changes.
pub fn normalize_search_result_urls(result: &mut SearchResult, base_url: &str)
    ensures
        final(result).cover_url@ == normalized_url(old(result).cover_url@, base_url@),
        final(result).poster_url@ == normalized_url(old(result).poster_url@, base_url@),
        string_views(final(result).thumbs@) == normalized_thumbs(
            string_views(old(result).thumbs@),
            base_url@,
        ),
        (*final(result)) == (SearchResult {
            cover_url: final(result).cover_url,
            poster_url: final(result).poster_url,
            thumbs: final(result).thumbs,
            ..*old(result)
        }),
{
    let c = normalize_result_image_url(result.cover_url.as_str(), base_url);
    let p = normalize_result_image_url(result.poster_url.as_str(), base_url);
    let ghost tv = string_views(result.thumbs@);
    let ghost f = |t: Seq<char>| t.len() > 0;
    let ghost m = tv.map_values(|t: Seq<char>| normalized_url(t, base_url@));
    let mut out: Vec<String> = Vec::new();
    let mut i: usize = 0;
    while i < result.thumbs.len()
        invariant
            i <= result.thumbs.len(),
            tv == string_views(result.thumbs@),
            m == tv.map_values(|t: Seq<char>| normalized_url(t, base_url@)),
            f == (|t: Seq<char>| t.len() > 0),
            string_views(out@) == m.take(i as int).filter(f),
        decreases result.thumbs.len() - i,
    {
        reveal_with_fuel(Seq::<_>::filter, 1);
        assert(m.take(i + 1).drop_last() =~= m.take(i as int));
        let u = normalize_result_image_url(result.thumbs[i].as_str(), base_url);
        assert(m[i as int] == u@);
        if !u.as_str().is_empty() {
            let ghost before = string_views(out@);
            out.push(u);
            assert(string_views(out@) =~= before.push(m[i as int]));
        }
        i += 1;
        assert(string_views(out@) =~= m.take(i as int).filter(f));
    }
    assert(m.take(result.thumbs.len() as int) =~= m);
    result.cover_url = c;
    result.poster_url = p;
    result.thumbs = out;
}

// ------------------------------------------------------------------
// Lists held in one text
// ------------------------------------------------------------------

/// The items of a text list: the pieces between separators, trimmed, empty
/// ones dropped.
pub open spec fn list_items(s: Seq<char>, seps: Seq<char>) -> Seq<Seq<char>> {
    split_set(s, seps).map_values(|p: Seq<char>| trim(p)).filter(|p: Seq<char>| p.len() > 0)
}

/// The items of a text list separated by any character of `seps`.
pub fn split_list(s: &str, seps: &Vec<char>) -> (r: Vec<String>)
    ensures
        string_views(r@) == list_items(s@, seps@),
{
    let v = chars_of(s);
    let pieces = split_set_chars(&v, seps);
    let ghost pv = views(pieces@);
    let ghost m = pv.map_values(|p: Seq<char>| trim(p));
    let ghost f = |p: Seq<char>| p.len() > 0;
    let mut out: Vec<String> = Vec::new();
    let mut i: usize = 0;
    while i < pieces.len()
        invariant
            i <= pieces.len(),
            pv == views(pieces@),
            m == pv.map_values(|p: Seq<char>| trim(p)),
            f == (|p: Seq<char>| p.len() > 0),
            string_views(out@) == m.take(i as int).filter(f),
        decreases pieces.len() - i,
    {
        reveal_with_fuel(Seq::<_>::filter, 1);
        assert(m.take(i + 1).drop_last() =~= m.take(i as int));
        let t = trim_chars(&pieces[i]);
        assert(pv[i as int] == pieces@[i as int]@);
        assert(m[i as int] == t@);
        if t.len() > 0 {
            let ghost before = string_views(out@);
            out.push(string_of(&t));
            assert(string_views(out@) =~= before.push(m[i as int]));
        }
        i += 1;
        assert(string_views(out@) =~= m.take(i as int).filter(f));
    }
    assert(m.take(pieces.len() as int) =~= m);
    assert(pv == split_set(s@, seps@));
    out
}

/// Separators of actor lists across sources: `、`, `,` and `，`.
pub open spec fn actor_separators() -> Seq<char> {
    seq!['、', ',', '，']
}

/// Actor names given by a source, for the alias evidence of a designation.
pub fn evidence_actors(actors: &str) -> (r: Vec<String>)
    ensures
        string_views(r@) == list_items(actors@, actor_separators()),
{
    let mut seps: Vec<char> = Vec::new();
    seps.push('、');
    seps.push(',');
    seps.push('，');
    assert(seps@ =~= actor_separators());
    split_list(actors, &seps)
}

/// Studio names given by a source (studio, then maker), trimmed, blank ones
/// dropped.
pub fn evidence_studios(studio: &str, maker: &str) -> (r: Vec<String>)
    ensures
        string_views(r@) == seq![trim(studio@), trim(maker@)].filter(|p: Seq<char>| p.len() > 0),
{
    let a = trim_str(studio);
    let b = trim_str(maker);
    let mut out: Vec<String> = Vec::new();
    reveal_with_fuel(Seq::<_>::filter, 3);
    let ghost f = |p: Seq<char>| p.len() > 0;
    let ghost s = seq![a@, b@];
    assert(s.take(0).filter(f) =~= Seq::<Seq<char>>::empty());
    assert(s.take(1).drop_last() =~= s.take(0));
    assert(s.take(2).drop_last() =~= s.take(1));
    assert(s.take(2) =~= s);
    if a.len() > 0 {
        out.push(string_of(&a));
    }
    assert(string_views(out@) =~= s.take(1).filter(f));
    if b.len() > 0 {
        let ghost before = string_views(out@);
        out.push(string_of(&b));
        assert(string_views(out@) =~= before.push(b@));
    }
    assert(string_views(out@) =~= s.take(2).filter(f));
    out
}

// ------------------------------------------------------------------
// From a result to saved metadata
// ------------------------------------------------------------------

pub fn copy_strings(v: &Vec<String>) -> (r: Vec<String>)
    ensures
        r@ == v@,
{
    let mut r: Vec<String> = Vec::new();
    let mut i: usize = 0;
    while i < v.len()
        invariant
            i <= v.len(),
            r@ == v@.take(i as int),
        decreases v.len() - i,
    {
        r.push(v[i].clone());
        i += 1;
        assert(r@ =~= v@.take(i as int));
    }
    assert(v@.take(v.len() as int) =~= v@);
    r
}

pub fn copy_avatar(a: &ActorAvatar) -> (r: ActorAvatar)
    ensures
        r == *a,
{
    ActorAvatar { name: a.name.clone(), avatar_url: a.avatar_url.clone(), star_code: a.star_code.clone() }
}

pub fn copy_avatars(v: &Vec<ActorAvatar>) -> (r: Vec<ActorAvatar>)
    ensures
        r@ == v@,
{
    let mut r: Vec<ActorAvatar> = Vec::new();
    let mut i: usize = 0;
    while i < v.len()
        invariant
            i <= v.len(),
            r@ == v@.take(i as int),
        decreases v.len() - i,
    {
        r.push(copy_avatar(&v[i]));
        i += 1;
        assert(r@ =~= v@.take(i as int));
    }
    assert(v@.take(v.len() as int) =~= v@);
    r
}

pub fn copy_opt_string(o: &Option<String>) -> (r: Option<String>)
    ensures
        r == *o,
{
    match o {
        Some(s) => Some(s.clone()),
        None => None,
    }
}

fn or_else_text(primary: &String, fallback: &String) -> (r: String)
    ensures
        r@ == (if primary@.len() == 0 {
            fallback@
        } else {
            primary@
        }),
{
    if primary.as_str().is_empty() {
        fallback.clone()
    } else {
        primary.clone()
    }
}

/// The items of a comma-separated list.
pub open spec fn comma_items(s: Seq<char>) -> Seq<Seq<char>> {
    list_items(s, seq![','])
}

fn comma_list(s: &String) -> (r: Vec<String>)
    ensures
        string_views(r@) == comma_items(s@),
{
    let mut seps: Vec<char> = Vec::new();
    seps.push(',');
    assert(seps@ =~= seq![',']);
    split_list(s.as_str(), &seps)
}

/// The metadata saved for a result: fields copied, the original title
/// defaulting to the title, outline and original plot to the plot, poster and
/// cover standing in for each other, the duration read as minutes, the lists
/// split at commas, the remote preview URLs preferred, and the uncensored flag
/// also set by the designation.
pub fn search_result_to_metadata(sr: &SearchResult) -> (m: ScrapeMetadata)
    ensures
        m.title == sr.title,
        m.local_id == sr.code,
        m.original_title == (match sr.original_title {
            Some(t) => Some(t),
            None => if sr.title@.len() > 0 {
                Some(sr.title)
            } else {
                None
            },
        }),
        m.plot == sr.plot,
        m.outline@ == (if sr.outline@.len() == 0 {
            sr.plot@
        } else {
            sr.outline@
        }),
        m.original_plot@ == (if sr.original_plot@.len() == 0 {
            sr.plot@
        } else {
            sr.original_plot@
        }),
        m.tagline == sr.tagline,
        m.studio == sr.studio,
        m.premiered == sr.premiered,
        match duration_minutes(sr.duration@) {
            Some(v) => m.duration matches Some(x) && x as int == v,
            None => m.duration is None,
        },
        m.poster_url@ == (if sr.poster_url@.len() == 0 {
            sr.cover_url@
        } else {
            sr.poster_url@
        }),
        m.cover_url@ == (if sr.cover_url@.len() == 0 {
            sr.poster_url@
        } else {
            sr.cover_url@
        }),
        string_views(m.actors@) == comma_items(sr.actors@),
        m.actor_avatars@ == sr.actor_avatars@,
        m.director == sr.director,
        m.score == sr.rating,
        m.critic_rating == sr.critic_rating,
        m.sort_title == sr.sort_title,
        m.mpaa == sr.mpaa,
        m.custom_rating == sr.custom_rating,
        m.country_code == sr.country_code,
        m.is_uncensored == (sr.is_uncensored || is_uncensored(sr.code@)),
        m.set_name == sr.set_name,
        m.maker == sr.maker,
        m.publisher == sr.publisher,
        m.label == sr.label,
        string_views(m.tags@) == comma_items(sr.tags@),
        string_views(m.genres@) == comma_items(sr.genres@),
        m.thumbs@ == (match sr.remote_thumb_urls {
            Some(r) => r@,
            None => sr.thumbs@,
        }),
        m.website == sr.page_url,
{
    let original_title = match &sr.original_title {
        Some(t) => Some(t.clone()),
        None => if sr.title.as_str().is_empty() {
            None
        } else {
            Some(sr.title.clone())
        },
    };
    let thumbs = match &sr.remote_thumb_urls {
        Some(r) => copy_strings(r),
        None => copy_strings(&sr.thumbs),
    };
    ScrapeMetadata {
        title: sr.title.clone(),
        local_id: sr.code.clone(),
        original_title,
        plot: sr.plot.clone(),
        outline: or_else_text(&sr.outline, &sr.plot),
        original_plot: or_else_text(&sr.original_plot, &sr.plot),
        tagline: sr.tagline.clone(),
        studio: sr.studio.clone(),
        premiered: sr.premiered.clone(),
        duration: parse_duration_minutes(sr.duration.as_str()),
        poster_url: or_else_text(&sr.poster_url, &sr.cover_url),
        cover_url: or_else_text(&sr.cover_url, &sr.poster_url),
        actors: comma_list(&sr.actors),
        actor_avatars: copy_avatars(&sr.actor_avatars),
        director: sr.director.clone(),
        score: sr.rating,
        critic_rating: sr.critic_rating,
        sort_title: sr.sort_title.clone(),
        mpaa: sr.mpaa.clone(),
        custom_rating: sr.custom_rating.clone(),
        country_code: sr.country_code.clone(),
        is_uncensored: sr.is_uncensored || is_uncensored_designation(sr.code.as_str()),
        set_name: sr.set_name.clone(),
        maker: sr.maker.clone(),
        publisher: sr.publisher.clone(),
        label: sr.label.clone(),
        tags: comma_list(&sr.tags),
        genres: comma_list(&sr.genres),
        thumbs,
        website: sr.page_url.clone(),
    }
}

} // verus!
