//! Actors and their works: profile fields as the sources write them, the
//! names an actor is searched under, paging through the works, batch
//! progress, and matching a genre of the library to a genre of a page.

use vstd::prelude::*;
use crate::seqs::{first_match, lemma_first_match_at, lemma_first_match_step};
use crate::text::{
    all_digits, chars_of, digits_value, eq_ignore_case, eq_ignore_case_chars, find, find_chars,
    is_blank, is_blank_str, leading_digits, leading_digits_chars, owned, parse_int, parse_int_chars,
    same, slice, split_set, string_of, string_views, to_uppercase, trim, trim_chars, trim_str,
    unicode_upper,
};

verus! {

/// Pages of an actor's works fetched at most.
pub const MAX_STAR_PAGES: u32 = 50;

/// Actors fetched at once in a batch.
pub const BATCH_CONCURRENCY: usize = 3;

/// What fetching one actor produced.
#[derive(Debug, Clone)]
pub struct ActorFetchResult {
    pub profile_updated: bool,
    pub works_total: usize,
    pub works_local: i64,
}

/// What a batch of actor fetches produced.
#[derive(Debug, Clone)]
pub struct BatchFetchSummary {
    pub total: usize,
    pub succeeded: usize,
    pub failed: usize,
}

/// What fetching the works of a studio, series or director produced.
#[derive(Debug, Clone)]
pub struct FacetFetchResult {
    pub works_total: usize,
    pub works_local: i64,
}

// ------------------------------------------------------------------
// Optional text fields
// ------------------------------------------------------------------

/// `s` itself unless it is blank.
pub fn opt(s: &str) -> (r: Option<&str>)
    ensures
        is_blank(s@) ==> r is None,
        !is_blank(s@) ==> (r matches Some(x) && x@ == s@),
{
    if is_blank_str(s) {
        None
    } else {
        Some(s)
    }
}

/// `s` trimmed unless that leaves nothing.
pub fn non_empty(s: &str) -> (r: Option<String>)
    ensures
        trim(s@).len() == 0 ==> r is None,
        trim(s@).len() > 0 ==> (r matches Some(x) && x@ == trim(s@)),
{
    let t = trim_str(s);
    if t.len() == 0 {
        None
    } else {
        Some(string_of(&t))
    }
}

// ------------------------------------------------------------------
// Measurements and birthday
// ------------------------------------------------------------------

/// The number after the first `prefix` of `upper`: its leading digits as an
/// `i32`.
pub open spec fn measurement_after(upper: Seq<char>, prefix: char) -> Option<int> {
    match find(upper, seq![prefix]) {
        Some(p) => parse_int(leading_digits(upper.skip(p + 1)), i32::MIN as int, i32::MAX as int),
        None => None,
    }
}

fn measurement_after_chars(upper: &Vec<char>, prefix: char) -> (r: Option<i32>)
    ensures
        match measurement_after(upper@, prefix) {
            Some(v) => r matches Some(x) && x as int == v,
            None => r is None,
        },
{
    let mut p: Vec<char> = Vec::new();
    p.push(prefix);
    assert(p@ =~= seq![prefix]);
    match find_chars(upper, &p) {
        Some(pos) => {
            proof {
                crate::text::lemma_find_from_bounds(upper@, p@, 0);
            }
            assert(crate::text::occurs_at(upper@, p@, pos as int));
            assert(p@.len() == 1);
            assert(pos + 1 <= upper@.len());
            assert(upper@.len() == upper.len());
            assert(pos < usize::MAX);
            let start: usize = pos + 1;
            let rest = slice(upper, start, upper.len());
            assert(rest@ =~= upper@.skip(pos + 1));
            let d = leading_digits_chars(&rest);
            match parse_int_chars(&d, i32::MIN as i128, i32::MAX as i128) {
                Some(v) => Some(v as i32),
                None => None,
            }
        },
        None => None,
    }
}

/// Bust, waist and hip read from an upper-cased measurement text such as
/// `B88/W58/H85`.
pub open spec fn measurements_of(upper: Seq<char>) -> (Option<int>, Option<int>, Option<int>) {
    (measurement_after(upper, 'B'), measurement_after(upper, 'W'), measurement_after(upper, 'H'))
}

pub open spec fn opt_i32(o: Option<i32>) -> Option<int> {
    match o {
        Some(x) => Some(x as int),
        None => None,
    }
}

/// Bust, waist and hip of an already upper-cased measurement text.
pub fn measurements_from_upper(upper: &str) -> (r: (Option<i32>, Option<i32>, Option<i32>))
    ensures
        (opt_i32(r.0), opt_i32(r.1), opt_i32(r.2)) == measurements_of(upper@),
{
    let u = chars_of(upper);
    (measurement_after_chars(&u, 'B'), measurement_after_chars(&u, 'W'), measurement_after_chars(&u, 'H'))
}

/// Bust, waist and hip of a measurement text (upper-cased first).
pub fn parse_measurements(s: &str) -> (r: (Option<i32>, Option<i32>, Option<i32>))
    ensures
        (opt_i32(r.0), opt_i32(r.1), opt_i32(r.2)) == measurements_of(unicode_upper(s@)),
{
    let u = to_uppercase(s);
    measurements_from_upper(u.as_str())
}

/// The characters of `s` before its first `c` (all of them when there is none).
pub open spec fn before_char(s: Seq<char>, c: char) -> Seq<char> {
    split_set(s, seq![c])[0]
}

pub open spec fn is_char(c: char) -> spec_fn(char) -> bool {
    |x: char| x == c
}

proof fn lemma_split_first(s: Seq<char>, c: char)
    ensures
        split_set(s, seq![c]).len() >= 1,
        first_match(s, is_char(c)) is None ==> split_set(s, seq![c]).len() == 1,
        first_match(s, is_char(c)) is Some ==> split_set(s, seq![c]).len() >= 2,
        split_set(s, seq![c])[0] == (match first_match(s, is_char(c)) {
            Some(k) => s.take(k),
            None => s,
        }),
    decreases s.len(),
{
    crate::text::lemma_split_set_nonempty(s, seq![c]);
    crate::seqs::lemma_first_match(s, is_char(c));
    if s.len() == 0 {
        assert(split_set(s, seq![c]) =~= seq![Seq::<char>::empty()]);
    } else {
        lemma_split_first(s.drop_last(), c);
        crate::seqs::lemma_first_match(s.drop_last(), is_char(c));
        let r = split_set(s.drop_last(), seq![c]);
        assert(seq![c].contains(s.last()) <==> s.last() == c) by {
            if s.last() == c {
                assert(seq![c][0] == c);
            }
        }
        match first_match(s.drop_last(), is_char(c)) {
            Some(k) => {
                assert(s.drop_last().take(k) =~= s.take(k));
            },
            None => {
                if s.last() == c {
                    assert(s.drop_last() =~= s.take(s.len() - 1));
                } else {
                    assert(r.update(0, r[0].push(s.last()))[0] =~= s);
                }
            },
        }
    }
}

fn before_char_chars(s: &Vec<char>, c: char) -> (r: Vec<char>)
    ensures
        r@ == before_char(s@, c),
{
    proof {
        lemma_split_first(s@, c);
    }
    let ghost f = is_char(c);
    let mut i: usize = 0;
    while i < s.len() && s[i] != c
        invariant
            i <= s.len(),
            f == is_char(c),
            first_match(s@.take(i as int), f) is None,
        decreases s.len() - i,
    {
        proof {
            lemma_first_match_step(s@, f, i as int);
        }
        i += 1;
    }
    if i < s.len() {
        proof {
            lemma_first_match_at(s@, f, i as int);
        }
        let r = slice(s, 0, i);
        assert(r@ =~= s@.take(i as int));
        r
    } else {
        proof {
            crate::seqs::lemma_first_match_none(s@, f);
        }
        slice(s, 0, s.len())
    }
}

/// The date of a birthday text (the part before `T`, trimmed), unless its
/// year (the part before the first `-`, as an `i32`, 0 when unreadable) is
/// before 1900, which marks an unknown birthday.
pub open spec fn birthday_of(raw: Seq<char>) -> Option<Seq<char>> {
    let date = trim(before_char(trim(raw), 'T'));
    let year = match parse_int(before_char(date, '-'), i32::MIN as int, i32::MAX as int) {
        Some(y) => y,
        None => 0,
    };
    if year < 1900 {
        None
    } else {
        Some(date)
    }
}

pub fn normalize_birthday(raw: &str) -> (r: Option<String>)
    ensures
        match birthday_of(raw@) {
            Some(d) => r matches Some(x) && x@ == d,
            None => r is None,
        },
{
    let t = trim_str(raw);
    let head = before_char_chars(&t, 'T');
    let date = trim_chars(&head);
    let ys = before_char_chars(&date, '-');
    let year: i128 = match parse_int_chars(&ys, i32::MIN as i128, i32::MAX as i128) {
        Some(y) => y,
        None => 0,
    };
    if year < 1900 {
        None
    } else {
        Some(string_of(&date))
    }
}

// ------------------------------------------------------------------
// Profile
// ------------------------------------------------------------------

/// An actor as the aggregation service describes one.
#[derive(Debug, Clone)]
pub struct ActorInfo {
    pub images: Vec<String>,
    pub birthday: String,
    pub height: i64,
    pub cup_size: String,
    pub measurements: String,
}

/// The profile stored for an actor.
#[derive(Debug, Clone)]
pub struct ActorProfileInput {
    pub avatar_url: Option<String>,
    pub birthday: Option<String>,
    pub height: Option<i32>,
    pub cup: Option<String>,
    pub bust: Option<i32>,
    pub waist: Option<i32>,
    pub hip: Option<i32>,
}

pub open spec fn first_image(images: Seq<Seq<char>>) -> Option<Seq<char>> {
    match first_match(images, |s: Seq<char>| !is_blank(s)) {
        Some(i) => Some(images[i]),
        None => None,
    }
}

fn first_image_of(images: &Vec<String>) -> (r: Option<String>)
    ensures
        match first_image(string_views(images@)) {
            Some(s) => r matches Some(x) && x@ == s,
            None => r is None,
        },
{
    let ghost iv = string_views(images@);
    let ghost f = |s: Seq<char>| !is_blank(s);
    let mut i: usize = 0;
    while i < images.len()
        invariant
            i <= images.len(),
            iv == string_views(images@),
            f == (|s: Seq<char>| !is_blank(s)),
            first_match(iv.take(i as int), f) is None,
        decreases images.len() - i,
    {
        assert(iv[i as int] == images@[i as int]@);
        if !is_blank_str(images[i].as_str()) {
            proof {
                lemma_first_match_at(iv, f, i as int);
            }
            return Some(images[i].clone());
        }
        proof {
            lemma_first_match_step(iv, f, i as int);
        }
        i += 1;
    }
    assert(iv.take(images.len() as int) =~= iv);
    None
}

/// The stored profile of an actor: the first non-blank image as avatar, the
/// birthday when known, a positive height (as `i32`), the cup when given,
/// and the measurements read from their text.
pub fn actor_info_to_profile(info: &ActorInfo) -> (r: ActorProfileInput)
    ensures
        match first_image(string_views(info.images@)) {
            Some(s) => r.avatar_url matches Some(x) && x@ == s,
            None => r.avatar_url is None,
        },
        match birthday_of(info.birthday@) {
            Some(d) => r.birthday matches Some(x) && x@ == d,
            None => r.birthday is None,
        },
        r.height == (if info.height > 0 {
            Some(info.height as i32)
        } else {
            None
        }),
        trim(info.cup_size@).len() == 0 ==> r.cup is None,
        trim(info.cup_size@).len() > 0 ==> (r.cup matches Some(x) && x@ == trim(info.cup_size@)),
        (opt_i32(r.bust), opt_i32(r.waist), opt_i32(r.hip)) == measurements_of(
            unicode_upper(info.measurements@),
        ),
{
    let (bust, waist, hip) = parse_measurements(info.measurements.as_str());
    ActorProfileInput {
        avatar_url: first_image_of(&info.images),
        birthday: normalize_birthday(info.birthday.as_str()),
        height: if info.height > 0 {
            Some(info.height as i32)
        } else {
            None
        },
        cup: non_empty(info.cup_size.as_str()),
        bust,
        waist,
        hip,
    }
}

// ------------------------------------------------------------------
// Search names
// ------------------------------------------------------------------

/// The trimmed non-blank names of `names` that are not in `acc` yet, appended
/// in order to `acc`.
pub open spec fn add_unique(acc: Seq<Seq<char>>, names: Seq<Seq<char>>) -> Seq<Seq<char>>
    decreases names.len(),
{
    if names.len() == 0 {
        acc
    } else {
        let a = add_unique(acc, names.drop_last());
        let t = trim(names.last());
        if t.len() > 0 && !a.contains(t) {
            a.push(t)
        } else {
            a
        }
    }
}

fn contains_text(v: &Vec<String>, t: &Vec<char>) -> (r: bool)
    ensures
        r == string_views(v@).contains(t@),
{
    let mut i: usize = 0;
    while i < v.len()
        invariant
            i <= v.len(),
            forall|k: int| 0 <= k < i ==> string_views(v@)[k] != t@,
        decreases v.len() - i,
    {
        let x = chars_of(v[i].as_str());
        assert(string_views(v@)[i as int] == x@);
        if same(&x, t) {
            return true;
        }
        i += 1;
    }
    false
}

/// The names an actor is searched under: the given names (main name and
/// aliases first), then the name in the library; trimmed, blank and repeated
/// names dropped, order kept.
pub fn actor_name_candidates(extra: &Vec<String>, name: &str) -> (r: Vec<String>)
    ensures
        string_views(r@) == add_unique(Seq::empty(), string_views(extra@).push(name@)),
{
    let ghost ev = string_views(extra@).push(name@);
    let mut out: Vec<String> = Vec::new();
    let mut i: usize = 0;
    while i < extra.len()
        invariant
            i <= extra.len(),
            ev == string_views(extra@).push(name@),
            string_views(out@) == add_unique(Seq::empty(), ev.take(i as int)),
        decreases extra.len() - i,
    {
        assert(ev.take(i + 1).drop_last() =~= ev.take(i as int));
        assert(ev.take(i + 1).last() == extra@[i as int]@);
        let t = trim_chars(&chars_of(extra[i].as_str()));
        if t.len() > 0 && !contains_text(&out, &t) {
            let ghost before = string_views(out@);
            out.push(string_of(&t));
            assert(string_views(out@) =~= before.push(t@));
        }
        i += 1;
    }
    assert(ev.take(extra.len() + 1) =~= ev);
    assert(ev.take(extra.len() + 1).drop_last() =~= ev.take(extra.len() as int));
    let t = trim_str(name);
    if t.len() > 0 && !contains_text(&out, &t) {
        let ghost before = string_views(out@);
        out.push(string_of(&t));
        assert(string_views(out@) =~= before.push(t@));
    }
    out
}

/// An actor found by the aggregation service: name and provider.
#[derive(Debug, Clone)]
pub struct ActorCandidate {
    pub name: String,
    pub provider: String,
    pub id: String,
}

pub open spec fn named(want: Seq<char>) -> spec_fn(ActorCandidate) -> bool {
    |c: ActorCandidate| trim(c.name@) == want
}

pub open spec fn named_on_javbus(want: Seq<char>) -> spec_fn(ActorCandidate) -> bool {
    |c: ActorCandidate| trim(c.name@) == want && eq_ignore_case(c.provider@, "javbus"@)
}

/// The candidate taken for a searched name: one of that name from JavBus,
/// else one of that name, else the first.
pub open spec fn picked_candidate(cands: Seq<ActorCandidate>, want: Seq<char>) -> Option<int> {
    match first_match(cands, named_on_javbus(trim(want))) {
        Some(i) => Some(i),
        None => match first_match(cands, named(trim(want))) {
            Some(i) => Some(i),
            None => if cands.len() > 0 {
                Some(0)
            } else {
                None
            },
        },
    }
}

fn find_candidate(cands: &Vec<ActorCandidate>, want: &Vec<char>, javbus_only: bool) -> (r: Option<usize>)
    ensures
        match r {
            Some(i) => Some(i as int) == first_match(
                cands@,
                if javbus_only {
                    named_on_javbus(want@)
                } else {
                    named(want@)
                },
            ),
            None => first_match(
                cands@,
                if javbus_only {
                    named_on_javbus(want@)
                } else {
                    named(want@)
                },
            ) is None,
        },
{
    let ghost f = if javbus_only {
        named_on_javbus(want@)
    } else {
        named(want@)
    };
    let jb = chars_of("javbus");
    let mut i: usize = 0;
    while i < cands.len()
        invariant
            i <= cands.len(),
            jb@ == "javbus"@,
            f == (if javbus_only {
                named_on_javbus(want@)
            } else {
                named(want@)
            }),
            first_match(cands@.take(i as int), f) is None,
        decreases cands.len() - i,
    {
        let n = trim_chars(&chars_of(cands[i].name.as_str()));
        let p = chars_of(cands[i].provider.as_str());
        let hit = same(&n, want) && (!javbus_only || eq_ignore_case_chars(&p, &jb));
        if hit {
            proof {
                lemma_first_match_at(cands@, f, i as int);
            }
            return Some(i);
        }
        proof {
            lemma_first_match_step(cands@, f, i as int);
        }
        i += 1;
    }
    assert(cands@.take(cands.len() as int) =~= cands@);
    None
}

/// The index of the candidate taken for a searched name.
pub fn pick_actor_candidate(cands: &Vec<ActorCandidate>, want: &str) -> (r: Option<usize>)
    ensures
        match picked_candidate(cands@, want@) {
            Some(i) => r matches Some(x) && x as int == i,
            None => r is None,
        },
{
    let w = trim_str(want);
    match find_candidate(cands, &w, true) {
        Some(i) => Some(i),
        None => match find_candidate(cands, &w, false) {
            Some(i) => Some(i),
            None => if cands.len() > 0 {
                Some(0)
            } else {
                None
            },
        },
    }
}

// ------------------------------------------------------------------
// Paging through works
// ------------------------------------------------------------------

/// What to do with a fetched page of works.
#[derive(Debug, Clone, Copy, PartialEq, Eq, Structural)]
pub enum PageStep {
    /// Nothing on the page: stop without saving.
    Stop,
    /// Save the page, then stop.
    SaveAndStop,
    /// Save the page, then fetch the next one.
    SaveAndContinue,
}

/// A page with neither works nor profile ends the walk unsaved; otherwise it
/// is saved, and the walk goes on while the page had works, announced a next
/// page, and the page limit is not reached.
pub open spec fn page_step_of(page: u32, works: nat, has_profile: bool, has_next: bool) -> PageStep {
    if works == 0 && !has_profile {
        PageStep::Stop
    } else if works == 0 || !has_next || page >= MAX_STAR_PAGES {
        PageStep::SaveAndStop
    } else {
        PageStep::SaveAndContinue
    }
}

pub fn star_page_step(page: u32, works: usize, has_profile: bool, has_next: bool) -> (r: PageStep)
    ensures
        r == page_step_of(page, works as nat, has_profile, has_next),
{
    if works == 0 && !has_profile {
        PageStep::Stop
    } else if works == 0 || !has_next || page >= MAX_STAR_PAGES {
        PageStep::SaveAndStop
    } else {
        PageStep::SaveAndContinue
    }
}

/// Nothing was found for an actor: the error to report, when neither star
/// page nor profile was found.
pub fn actor_not_found(name: &str, has_star: bool, has_uncensored_star: bool, has_profile: bool) -> (r: Option<String>)
    ensures
        (has_star || has_uncensored_star || has_profile) ==> r is None,
        !(has_star || has_uncensored_star || has_profile) ==> (r matches Some(m) && m@
            == "未在数据源搜到演员「"@ + name@ + "」，无法获取档案/全集"@),
{
    if has_star || has_uncensored_star || has_profile {
        return None;
    }
    let a = chars_of("未在数据源搜到演员「");
    let b = chars_of(name);
    let c = chars_of("」，无法获取档案/全集");
    let ab = crate::text::concat(&a, &b);
    let abc = crate::text::concat(&ab, &c);
    Some(string_of(&abc))
}

// ------------------------------------------------------------------
// Batch progress
// ------------------------------------------------------------------

/// Progress of a batch of fetches.
#[derive(Debug, Clone, Copy)]
pub struct BatchProgress {
    pub total: usize,
    pub done: usize,
    pub succeeded: usize,
    pub failed: usize,
}

impl BatchProgress {
    /// Every finished fetch either succeeded or failed, and no more finish
    /// than were started.
    pub open spec fn consistent(&self) -> bool {
        self.done == self.succeeded + self.failed && self.done <= self.total
    }

    pub fn new(total: usize) -> (r: Self)
        ensures
            r.consistent(),
            r.total == total && r.done == 0 && r.succeeded == 0 && r.failed == 0,
    {
        BatchProgress { total, done: 0, succeeded: 0, failed: 0 }
    }

    /// Records a finished fetch.
    pub fn record(&mut self, ok: bool)
        requires
            old(self).consistent(),
            old(self).done < old(self).total,
        ensures
            final(self).consistent(),
            final(self).total == old(self).total,
            final(self).done == old(self).done + 1,
            final(self).succeeded == old(self).succeeded + (if ok {
                1int
            } else {
                0
            }),
            final(self).failed == old(self).failed + (if ok {
                0int
            } else {
                1
            }),
    {
        if ok {
            self.succeeded = self.succeeded + 1;
        } else {
            self.failed = self.failed + 1;
        }
        self.done = self.done + 1;
    }

    /// The batch is still running: some fetch is unfinished and it was not
    /// cancelled.
    pub fn running(&self, cancelled: bool) -> (r: bool)
        ensures
            r == (self.done < self.total && !cancelled),
    {
        self.done < self.total && !cancelled
    }

    pub fn summary(&self) -> (r: BatchFetchSummary)
        ensures
            r.total == self.total && r.succeeded == self.succeeded && r.failed == self.failed,
    {
        BatchFetchSummary { total: self.total, succeeded: self.succeeded, failed: self.failed }
    }
}

// ------------------------------------------------------------------
// Facets and genres
// ------------------------------------------------------------------

/// The metadata table of a facet.
#[derive(Debug, Clone, Copy, PartialEq, Eq, Structural)]
pub enum MetadataTable {
    Studios,
    Series,
    Directors,
    Genres,
}

pub open spec fn facet_table(facet_type: Seq<char>) -> Option<MetadataTable> {
    if facet_type == "studio"@ {
        Some(MetadataTable::Studios)
    } else if facet_type == "series"@ {
        Some(MetadataTable::Series)
    } else if facet_type == "director"@ {
        Some(MetadataTable::Directors)
    } else if facet_type == "genre"@ {
        Some(MetadataTable::Genres)
    } else {
        None
    }
}

pub fn facet_metadata_table(facet_type: &str) -> (r: Option<MetadataTable>)
    ensures
        r == facet_table(facet_type@),
{
    let f = chars_of(facet_type);
    if same(&f, &chars_of("studio")) {
        Some(MetadataTable::Studios)
    } else if same(&f, &chars_of("series")) {
        Some(MetadataTable::Series)
    } else if same(&f, &chars_of("director")) {
        Some(MetadataTable::Directors)
    } else if same(&f, &chars_of("genre")) {
        Some(MetadataTable::Genres)
    } else {
        None
    }
}

pub open spec fn page_names(page: Seq<(String, String)>) -> Seq<Seq<char>> {
    page.map_values(|p: (String, String)| p.0@)
}

/// The genre id of the page for `want`, by elimination: when `want` is the
/// only genre of the library that the page does not name, and the page has
/// exactly one genre that the library does not name, the two are the same
/// genre written differently.
pub open spec fn genre_by_elimination(want: Seq<char>, app: Seq<Seq<char>>, page: Seq<(String, String)>) -> Option<Seq<char>> {
    let ua = app.filter(|n: Seq<char>| !page_names(page).contains(n));
    let up = page.filter(|p: (String, String)| !app.contains(p.0@));
    if ua.len() == 1 && ua[0] == want && up.len() == 1 {
        Some(up[0].1@)
    } else {
        None
    }
}

pub fn resolve_genre_by_elimination(want: &str, app_genres: &Vec<String>, page: &Vec<(String, String)>) -> (r: Option<String>)
    ensures
        match genre_by_elimination(want@, string_views(app_genres@), page@) {
            Some(g) => r matches Some(x) && x@ == g,
            None => r is None,
        },
{
    let ghost av = string_views(app_genres@);
    let ghost pn = page_names(page@);
    let ghost fa = |n: Seq<char>| !pn.contains(n);
    let ghost fp = |p: (String, String)| !av.contains(p.0@);
    let mut names: Vec<String> = Vec::new();
    let mut k: usize = 0;
    while k < page.len()
        invariant
            k <= page.len(),
            pn == page_names(page@),
            string_views(names@) == pn.take(k as int),
        decreases page.len() - k,
    {
        let ghost before = string_views(names@);
        names.push(page[k].0.clone());
        assert(string_views(names@) =~= before.push(page@[k as int].0@));
        k += 1;
        assert(string_views(names@) =~= pn.take(k as int));
    }
    assert(pn.take(page.len() as int) =~= pn);
    let mut ua: Vec<String> = Vec::new();
    let mut i: usize = 0;
    while i < app_genres.len()
        invariant
            i <= app_genres.len(),
            av == string_views(app_genres@),
            pn == page_names(page@),
            string_views(names@) == pn,
            fa == (|n: Seq<char>| !pn.contains(n)),
            string_views(ua@) == av.take(i as int).filter(fa),
        decreases app_genres.len() - i,
    {
        reveal_with_fuel(Seq::<_>::filter, 1);
        assert(av.take(i + 1).drop_last() =~= av.take(i as int));
        let g = chars_of(app_genres[i].as_str());
        assert(av[i as int] == g@);
        if !contains_text(&names, &g) {
            let ghost before = string_views(ua@);
            ua.push(app_genres[i].clone());
            assert(string_views(ua@) =~= before.push(g@));
        }
        i += 1;
        assert(string_views(ua@) =~= av.take(i as int).filter(fa));
    }
    assert(av.take(app_genres.len() as int) =~= av);
    let mut up: Vec<usize> = Vec::new();
    let mut j: usize = 0;
    while j < page.len()
        invariant
            j <= page.len(),
            av == string_views(app_genres@),
            fp == (|p: (String, String)| !av.contains(p.0@)),
            up@.map_values(|x: usize| page@[x as int]) == page@.take(j as int).filter(fp),
            forall|t: int| 0 <= t < up@.len() ==> up@[t] < page.len(),
        decreases page.len() - j,
    {
        reveal_with_fuel(Seq::<_>::filter, 1);
        assert(page@.take(j + 1).drop_last() =~= page@.take(j as int));
        let n = chars_of(page[j].0.as_str());
        if !contains_text(app_genres, &n) {
            let ghost before = up@.map_values(|x: usize| page@[x as int]);
            up.push(j);
            assert(up@.map_values(|x: usize| page@[x as int]) =~= before.push(page@[j as int]));
        }
        j += 1;
        assert(up@.map_values(|x: usize| page@[x as int]) =~= page@.take(j as int).filter(fp));
    }
    assert(page@.take(page.len() as int) =~= page@);
    let w = chars_of(want);
    if ua.len() == 1 && up.len() == 1 {
        let u0 = chars_of(ua[0].as_str());
        assert(string_views(ua@)[0] == u0@);
        if same(&u0, &w) {
            let idx = up[0];
            assert(up@.map_values(|x: usize| page@[x as int])[0] == page@[idx as int]);
            return Some(page[idx].1.clone());
        }
    }
    None
}

// ------------------------------------------------------------------
// Locating the source of a facet
// ------------------------------------------------------------------

/// The section of the source a facet's works are listed in.
#[derive(Debug, Clone, Copy, PartialEq, Eq, Structural)]
pub enum Lane {
    Censored,
    Uncensored,
}

/// A facet found through one of its works is listed in the uncensored
/// section when that work's designation is uncensored by its form.
pub fn lane_for_code(code: &str) -> (r: Lane)
    ensures
        r == (if crate::designation::is_uncensored(code@) {
            Lane::Uncensored
        } else {
            Lane::Censored
        }),
{
    if crate::designation::is_uncensored_designation(code) {
        Lane::Uncensored
    } else {
        Lane::Censored
    }
}

/// The detail page of a work on the source (the same path in both sections).
pub fn work_detail_url(code: &str) -> (r: String)
    ensures
        r@ == "https://www.javbus.com/"@ + code@,
{
    crate::text::string_of(&crate::text::concat(&chars_of("https://www.javbus.com/"), &chars_of(code)))
}

/// Only a facet's censored-section source id is kept for later; an
/// uncensored one is located anew each time.
pub fn caches_source_id(lane: Lane) -> (r: bool)
    ensures
        r == (lane == Lane::Censored),
{
    match lane {
        Lane::Censored => true,
        Lane::Uncensored => false,
    }
}

} // verus!
