//! Catalogue entries of the avsox data interface and the search results made
//! of them.
//!
//! The interface answers `getMovie` with a JSON object; [`MovieEntry`] holds
//! the fields of it that a result is made of, each string field as it came
//! (`None` where the field is absent or not a string).

use vstd::prelude::*;
use crate::avsox::{loosely_same, queries_of, rewrite_sample_url, rewritten_sample, same_code_loose, search_queries};
use crate::seqs::first_match;
use crate::scrape::{ActorAvatar, SearchResult};
use crate::text::{
    unicode_upper,
    chars_of, concat, decimal, decimal_chars, join, join_chars, string_of, string_views, trim,
    trim_chars, views,
};

verus! {

/// A name in the language asked for, in Japanese and in English (the fields
/// `{key}`, `{key}_ja` and `{key}_en`).
#[derive(Debug, Clone, Default)]
pub struct LocalizedName {
    pub local: Option<String>,
    pub ja: Option<String>,
    pub en: Option<String>,
}

/// An actor of a catalogue entry (`starName*`, `avatarUrl`).
#[derive(Debug, Clone, Default)]
pub struct StarEntry {
    pub name: LocalizedName,
    pub avatar_url: Option<String>,
}

/// The fields of a `getMovie` answer that a result is made of.
#[derive(Debug, Clone, Default)]
pub struct MovieEntry {
    /// `movieId`.
    pub movie_id: Option<String>,
    /// `title*`.
    pub title: LocalizedName,
    /// `description*`.
    pub description: LocalizedName,
    /// `posterLarge`.
    pub poster_large: Option<String>,
    /// `posterSmall`.
    pub poster_small: Option<String>,
    /// `releaseDate`.
    pub release_date: Option<String>,
    /// `length`, where it is an integer.
    pub length: Option<i64>,
    /// `studio.studioName*`.
    pub studio: LocalizedName,
    /// `series.seriesName*`.
    pub series: LocalizedName,
    /// `genre[].genreName*`.
    pub genres: Vec<LocalizedName>,
    /// `star[]`.
    pub stars: Vec<StarEntry>,
    /// The string items of `sampleLarge`.
    pub samples: Vec<String>,
}

pub open spec fn opt_str(o: Option<String>) -> Option<Seq<char>> {
    match o {
        Some(s) => Some(s@),
        None => None,
    }
}

/// A string field trimmed, `None` where it is absent or blank.
pub open spec fn text_value(o: Option<String>) -> Option<Seq<char>> {
    match o {
        Some(s) => if trim(s@).len() > 0 {
            Some(trim(s@))
        } else {
            None
        },
        None => None,
    }
}

pub open spec fn or_empty(o: Option<Seq<char>>) -> Seq<char> {
    match o {
        Some(s) => s,
        None => Seq::empty(),
    }
}

/// The name in the language asked for, else in Japanese, else in English,
/// else empty.
pub open spec fn localized(n: LocalizedName) -> Seq<char> {
    match text_value(n.local) {
        Some(s) => s,
        None => match text_value(n.ja) {
            Some(s) => s,
            None => or_empty(text_value(n.en)),
        },
    }
}

/// The large poster, else the small one, else empty.
pub open spec fn cover_of(m: MovieEntry) -> Seq<char> {
    match text_value(m.poster_large) {
        Some(s) => s,
        None => or_empty(text_value(m.poster_small)),
    }
}

/// The non-empty genre names, in order.
pub open spec fn genre_names(gs: Seq<LocalizedName>) -> Seq<Seq<char>>
    decreases gs.len(),
{
    if gs.len() == 0 {
        Seq::empty()
    } else {
        let rest = genre_names(gs.drop_last());
        let n = localized(gs.last());
        if n.len() > 0 {
            rest.push(n)
        } else {
            rest
        }
    }
}

/// Name and avatar of each actor whose name is not empty, in order.
pub open spec fn star_views(stars: Seq<StarEntry>) -> Seq<(Seq<char>, Seq<char>)>
    decreases stars.len(),
{
    if stars.len() == 0 {
        Seq::empty()
    } else {
        let rest = star_views(stars.drop_last());
        let s = stars.last();
        let n = localized(s.name);
        if n.len() > 0 {
            rest.push((n, or_empty(text_value(s.avatar_url))))
        } else {
            rest
        }
    }
}

pub open spec fn avatar_views(v: Seq<ActorAvatar>) -> Seq<(Seq<char>, Seq<char>, Seq<char>)> {
    v.map_values(|a: ActorAvatar| (a.name@, a.avatar_url@, a.star_code@))
}

/// `length` minutes, as `N分钟` when positive, else empty.
pub open spec fn duration_text(length: Option<i64>) -> Seq<char> {
    match length {
        Some(n) => if n > 0 {
            decimal(n as nat) + "分钟"@
        } else {
            Seq::empty()
        },
        None => Seq::empty(),
    }
}

/// The page of the entry, or the search page of the designation when the
/// entry has no id.
pub open spec fn movie_page(m: MovieEntry, code: Seq<char>) -> Seq<char> {
    match text_value(m.movie_id) {
        Some(id) => "https://avsox.click/cn/movie/"@ + id,
        None => "https://avsox.click/cn/search/"@ + code,
    }
}

/// An entry with neither title nor cover is no result.
pub open spec fn is_listed(m: MovieEntry) -> bool {
    localized(m.title).len() > 0 || cover_of(m).len() > 0
}

/// The result made of entry `m` for designation `code`, field by field.
pub open spec fn movie_fields(r: SearchResult, m: MovieEntry, code: Seq<char>) -> bool {
    let title = localized(m.title);
    let studio = localized(m.studio);
    let tags = join(genre_names(m.genres@), ", "@);
    let stars = star_views(m.stars@);
    &&& r.code@ == code
    &&& r.title@ == title
    &&& r.sort_title@ == code + " "@ + title
    &&& r.actors@ == join(stars.map_values(|p: (Seq<char>, Seq<char>)| p.0), ", "@)
    &&& avatar_views(r.actor_avatars@) == stars.map_values(
        |p: (Seq<char>, Seq<char>)| (p.0, p.1, Seq::<char>::empty()),
    )
    &&& r.duration@ == duration_text(m.length)
    &&& r.studio@ == studio
    &&& r.maker@ == studio
    &&& r.label@ == localized(m.series)
    &&& r.source@ == "avsox"@
    &&& r.page_url@ == movie_page(m, code)
    &&& r.cover_url@ == cover_of(m)
    &&& r.poster_url@ == or_empty(text_value(m.poster_small))
    &&& r.tags@ == tags
    &&& r.genres@ == tags
    &&& r.premiered@ == or_empty(text_value(m.release_date))
    &&& r.rating is None
    &&& string_views(r.thumbs@) == m.samples@.map_values(|s: String| rewritten_sample(s@))
    &&& r.plot@ == localized(m.description)
    &&& r.mpaa@ == "JP-18+ 无码"@
    &&& r.custom_rating@ == "JP-18+"@
    &&& r.country_code@ == "JP"@
    &&& r.critic_rating == Some(0i32)
    &&& r.is_uncensored
    &&& r.detail_level@.len() == 0
    &&& r.detail_score == 0
    &&& r.director@.len() == 0
    &&& r.remote_thumb_urls is None
    &&& r.outline@.len() == 0
    &&& r.original_plot@.len() == 0
    &&& r.original_title is None
    &&& r.target_title is None
    &&& r.tagline@.len() == 0
    &&& r.set_name@.len() == 0
    &&& r.publisher@.len() == 0
    &&& r.remote_cover_url is None
    &&& r.cover_orientation is None
    &&& r.cover_candidates@.len() == 0
}

/// A string field trimmed, `None` where it is absent or blank.
pub fn text_of(o: &Option<String>) -> (r: Option<String>)
    ensures
        opt_str(r) == text_value(*o),
{
    match o {
        Some(s) => {
            let t = trim_chars(&chars_of(s.as_str()));
            if t.len() > 0 {
                Some(string_of(&t))
            } else {
                None
            }
        },
        None => None,
    }
}

fn text_or_empty(o: &Option<String>) -> (r: String)
    ensures
        r@ == or_empty(text_value(*o)),
{
    match text_of(o) {
        Some(s) => s,
        None => string_of(&Vec::new()),
    }
}

/// The name in the language asked for, falling back to Japanese, then
/// English, then empty.
pub fn localized_name(n: &LocalizedName) -> (r: String)
    ensures
        r@ == localized(*n),
{
    match text_of(&n.local) {
        Some(s) => s,
        None => match text_of(&n.ja) {
            Some(s) => s,
            None => text_or_empty(&n.en),
        },
    }
}

fn genre_tags(gs: &Vec<LocalizedName>) -> (r: String)
    ensures
        r@ == join(genre_names(gs@), ", "@),
{
    let mut names: Vec<Vec<char>> = Vec::new();
    let mut i: usize = 0;
    while i < gs.len()
        invariant
            i <= gs.len(),
            views(names@) == genre_names(gs@.take(i as int)),
        decreases gs.len() - i,
    {
        assert(gs@.take(i + 1).drop_last() =~= gs@.take(i as int));
        let n = localized_name(&gs[i]);
        let nv = chars_of(n.as_str());
        if nv.len() > 0 {
            let ghost before = views(names@);
            names.push(nv);
            assert(views(names@) =~= before.push(nv@));
        }
        i += 1;
    }
    assert(gs@.take(gs.len() as int) =~= gs@);
    let sep = chars_of(", ");
    let joined = join_chars(&names, &sep);
    string_of(&joined)
}

fn star_avatars(stars: &Vec<StarEntry>) -> (r: (Vec<ActorAvatar>, String))
    ensures
        avatar_views(r.0@) == star_views(stars@).map_values(
            |p: (Seq<char>, Seq<char>)| (p.0, p.1, Seq::<char>::empty()),
        ),
        r.1@ == join(star_views(stars@).map_values(|p: (Seq<char>, Seq<char>)| p.0), ", "@),
{
    let mut avatars: Vec<ActorAvatar> = Vec::new();
    let mut names: Vec<Vec<char>> = Vec::new();
    let mut i: usize = 0;
    while i < stars.len()
        invariant
            i <= stars.len(),
            avatar_views(avatars@) == star_views(stars@.take(i as int)).map_values(
                |p: (Seq<char>, Seq<char>)| (p.0, p.1, Seq::<char>::empty()),
            ),
            views(names@) == star_views(stars@.take(i as int)).map_values(
                |p: (Seq<char>, Seq<char>)| p.0,
            ),
        decreases stars.len() - i,
    {
        assert(stars@.take(i + 1).drop_last() =~= stars@.take(i as int));
        let ghost prev = star_views(stars@.take(i as int));
        let n = localized_name(&stars[i].name);
        let nv = chars_of(n.as_str());
        if nv.len() > 0 {
            let avatar = text_or_empty(&stars[i].avatar_url);
            let ghost a_before = avatar_views(avatars@);
            let ghost n_before = views(names@);
            let ghost item = (nv@, avatar@);
            avatars.push(ActorAvatar { name: n, avatar_url: avatar, star_code: string_of(&Vec::new()) });
            names.push(nv);
            assert(star_views(stars@.take(i + 1)) == prev.push(item));
            assert(avatar_views(avatars@) =~= a_before.push((item.0, item.1, Seq::<char>::empty())));
            assert(prev.push(item).map_values(|p: (Seq<char>, Seq<char>)| (p.0, p.1, Seq::<char>::empty()))
                =~= prev.map_values(|p: (Seq<char>, Seq<char>)| (p.0, p.1, Seq::<char>::empty())).push(
                (item.0, item.1, Seq::<char>::empty()),
            ));
            assert(views(names@) =~= n_before.push(item.0));
            assert(prev.push(item).map_values(|p: (Seq<char>, Seq<char>)| p.0)
                =~= prev.map_values(|p: (Seq<char>, Seq<char>)| p.0).push(item.0));
        }
        i += 1;
    }
    assert(stars@.take(stars.len() as int) =~= stars@);
    let sep = chars_of(", ");
    let joined = join_chars(&names, &sep);
    (avatars, string_of(&joined))
}

fn sample_urls(samples: &Vec<String>) -> (r: Vec<String>)
    ensures
        string_views(r@) == samples@.map_values(|s: String| rewritten_sample(s@)),
{
    let mut out: Vec<String> = Vec::new();
    let mut i: usize = 0;
    while i < samples.len()
        invariant
            i <= samples.len(),
            string_views(out@) == samples@.take(i as int).map_values(|s: String| rewritten_sample(s@)),
        decreases samples.len() - i,
    {
        let u = rewrite_sample_url(samples[i].as_str());
        let ghost before = string_views(out@);
        out.push(u);
        assert(string_views(out@) =~= before.push(u@));
        assert(samples@.take(i + 1).map_values(|s: String| rewritten_sample(s@))
            =~= samples@.take(i as int).map_values(|s: String| rewritten_sample(s@)).push(u@));
        i += 1;
    }
    assert(samples@.take(samples.len() as int) =~= samples@);
    out
}

fn duration_of(length: Option<i64>) -> (r: String)
    ensures
        r@ == duration_text(length),
{
    match length {
        Some(n) => if n > 0 {
            let d = decimal_chars(n as u64);
            let unit = chars_of("分钟");
            let out = concat(&d, &unit);
            string_of(&out)
        } else {
            string_of(&Vec::new())
        },
        None => string_of(&Vec::new()),
    }
}

fn page_of(m: &MovieEntry, code: &str) -> (r: String)
    ensures
        r@ == movie_page(*m, code@),
{
    match text_of(&m.movie_id) {
        Some(id) => {
            let p = chars_of("https://avsox.click/cn/movie/");
            let out = concat(&p, &chars_of(id.as_str()));
            string_of(&out)
        },
        None => {
            let p = chars_of("https://avsox.click/cn/search/");
            let out = concat(&p, &chars_of(code));
            string_of(&out)
        },
    }
}

fn cover_url_of(m: &MovieEntry) -> (r: String)
    ensures
        r@ == cover_of(*m),
{
    match text_of(&m.poster_large) {
        Some(s) => s,
        None => text_or_empty(&m.poster_small),
    }
}

/// The search result made of a catalogue entry for designation `code`;
/// `None` for an entry with neither title nor cover.
pub fn movie_json_to_result(m: &MovieEntry, code: &str) -> (r: Option<SearchResult>)
    ensures
        r is Some <==> is_listed(*m),
        r matches Some(x) ==> movie_fields(x, *m, code@),
{
    let title = localized_name(&m.title);
    let cover_url = cover_url_of(m);
    if title.as_str().is_empty() && cover_url.as_str().is_empty() {
        return None;
    }
    let poster_url = text_or_empty(&m.poster_small);
    let premiered = text_or_empty(&m.release_date);
    let duration = duration_of(m.length);
    let studio = localized_name(&m.studio);
    let label = localized_name(&m.series);
    let tags = genre_tags(&m.genres);
    let (actor_avatars, actors) = star_avatars(&m.stars);
    let thumbs = sample_urls(&m.samples);
    let plot = localized_name(&m.description);
    let page_url = page_of(m, code);
    let code_chars = chars_of(code);
    let sort = concat(&concat(&code_chars, &chars_of(" ")), &chars_of(title.as_str()));
    let empty: Vec<char> = Vec::new();
    Some(SearchResult {
        code: string_of(&code_chars),
        sort_title: string_of(&sort),
        title,
        actors,
        actor_avatars,
        duration,
        maker: studio.clone(),
        studio,
        source: string_of(&chars_of("avsox")),
        page_url,
        detail_level: string_of(&empty),
        detail_score: 0,
        cover_url,
        poster_url,
        director: string_of(&empty),
        genres: tags.clone(),
        tags,
        premiered,
        rating: None,
        thumbs,
        remote_thumb_urls: None,
        plot,
        outline: string_of(&empty),
        original_plot: string_of(&empty),
        original_title: None,
        target_title: None,
        tagline: string_of(&empty),
        mpaa: string_of(&chars_of("JP-18+ 无码")),
        custom_rating: string_of(&chars_of("JP-18+")),
        country_code: string_of(&chars_of("JP")),
        is_uncensored: true,
        critic_rating: Some(0),
        set_name: string_of(&empty),
        publisher: string_of(&empty),
        label,
        remote_cover_url: None,
        cover_orientation: None,
        cover_candidates: Vec::new(),
    })
}


// ------------------------------------------------------------------
// Fetching through the data interface
// ------------------------------------------------------------------

/// Data interface of the catalogue (`POST <API_BASE>/<method>`).
pub const API_BASE: &'static str = "https://avsox.click/javu/data/api";

/// Language the interface answers in (titles, genres and names).
pub const API_LANG: &'static str = "cn";

/// Entries asked for per search.
pub const SEARCH_PAGE_SIZE: u32 = 60;

/// A fetch through the data interface: the designation, and the spellings to
/// search for in turn until the catalogue lists one.
#[derive(Debug, Clone)]
pub struct ApiFetch {
    pub code: String,
    pub queries: Vec<String>,
}

impl crate::sources::Avsox {
    /// The site is read through its data interface: what to search for.
    pub fn fetch_via_api(&self, code: &str) -> (r: Option<ApiFetch>)
        ensures
            r matches Some(f) && f.code@ == code@ && string_views(f.queries@) == queries_of(
                unicode_upper(trim(code@)),
            ),
    {
        Some(ApiFetch { code: string_of(&chars_of(code)), queries: search_queries(code) })
    }
}

/// An entry of a search answer lists the designation searched for.
pub open spec fn lists_code(code: Seq<char>) -> spec_fn((Option<Seq<char>>, Option<Seq<char>>)) -> bool {
    |e: (Option<Seq<char>>, Option<Seq<char>>)|
        e.0 matches Some(f) && loosely_same(f, code, unicode_upper(trim(f)), unicode_upper(trim(code)))
}

pub open spec fn search_entry_views(v: Seq<(Option<String>, Option<String>)>) -> Seq<(Option<Seq<char>>, Option<Seq<char>>)> {
    v.map_values(|e: (Option<String>, Option<String>)| (opt_str(e.0), opt_str(e.1)))
}

/// The id of the movie to fetch from a search answer (`movieFanHao`,
/// `movieId` of each entry): that of the first entry listing the designation
/// (loosely), when it has one.
pub open spec fn movie_id_in(entries: Seq<(Option<Seq<char>>, Option<Seq<char>>)>, code: Seq<char>) -> Option<Seq<char>> {
    match first_match(entries, lists_code(code)) {
        Some(k) => entries[k].1,
        None => None,
    }
}

pub fn pick_movie_id(entries: &Vec<(Option<String>, Option<String>)>, code: &str) -> (r: Option<String>)
    ensures
        opt_str(r) == movie_id_in(search_entry_views(entries@), code@),
{
    let ghost ev = search_entry_views(entries@);
    let ghost f = lists_code(code@);
    let mut i: usize = 0;
    while i < entries.len()
        invariant
            i <= entries.len(),
            ev == search_entry_views(entries@),
            f == lists_code(code@),
            first_match(ev.take(i as int), f) is None,
        decreases entries.len() - i,
    {
        assert(ev[i as int] == (opt_str(entries@[i as int].0), opt_str(entries@[i as int].1)));
        let hit = match &entries[i].0 {
            Some(fanhao) => same_code_loose(fanhao.as_str(), code),
            None => false,
        };
        if hit {
            proof {
                crate::seqs::lemma_first_match_at(ev, f, i as int);
            }
            return match &entries[i].1 {
                Some(id) => Some(id.clone()),
                None => None,
            };
        }
        proof {
            crate::seqs::lemma_first_match_step(ev, f, i as int);
        }
        i += 1;
    }
    proof {
        crate::seqs::lemma_first_match_none(ev, f);
    }
    None
}

} // verus!
