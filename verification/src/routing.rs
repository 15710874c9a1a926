//! Which sources take part in a search and in a fused scrape.
//!
//! Uncensored designations go to uncensored and general sources, censored ones
//! to censored and general sources (all designations count as uncensored in
//! uncensored mode). A fused scrape takes the best-rated sources first (by the
//! average richness score of the settings, then by the configured priority)
//! and at most six of them.

use vstd::prelude::*;
use crate::designation::{is_uncensored, is_uncensored_designation};
use crate::seqs::{first_match, lemma_first_match, lemma_first_match_at, lemma_first_match_step};
use crate::storage::opt_view;
use crate::sources::{ResourceSite, SiteView, SourceCapability, site_views};
use crate::text::{
    chars_of, eq_ignore_case, eq_ignore_case_chars, replace_all, replace_chars, same, string_of,
    string_views, to_lowercase, unicode_lower,
};

verus! {

/// Sources taken at most by a fused scrape.
pub const FUSED_TOP_N: usize = 6;

/// A registered source: its name and what it can serve.
#[derive(Debug, Clone)]
pub struct SourceEntry {
    pub name: String,
    pub capability: SourceCapability,
}

pub open spec fn serves(c: SourceCapability, uncensored: bool) -> bool {
    match c {
        SourceCapability::General => true,
        SourceCapability::CensoredOnly => !uncensored,
        SourceCapability::UncensoredOnly => uncensored,
    }
}

/// The designation is routed as uncensored.
pub open spec fn routed_uncensored(uncensored_mode: bool, code: Seq<char>) -> bool {
    uncensored_mode || is_uncensored(code)
}

pub fn routes_uncensored(uncensored_mode: bool, code: &str) -> (r: bool)
    ensures
        r == routed_uncensored(uncensored_mode, code@),
{
    uncensored_mode || is_uncensored_designation(code)
}

/// Some id of `ids` names the source (ASCII case ignored).
pub open spec fn id_listed(ids: Seq<Seq<char>>, name: Seq<char>) -> bool {
    exists|i: int| 0 <= i < ids.len() && eq_ignore_case(#[trigger] ids[i], name)
}

fn id_listed_exec(ids: &Vec<String>, name: &str) -> (r: bool)
    ensures
        r == id_listed(string_views(ids@), name@),
{
    let n = chars_of(name);
    let mut i: usize = 0;
    while i < ids.len()
        invariant
            i <= ids.len(),
            n@ == name@,
            forall|k: int| 0 <= k < i ==> !eq_ignore_case(#[trigger] string_views(ids@)[k], name@),
        decreases ids.len() - i,
    {
        let v = chars_of(ids[i].as_str());
        assert(string_views(ids@)[i as int] == v@);
        if eq_ignore_case_chars(&v, &n) {
            return true;
        }
        i += 1;
    }
    false
}

/// A source asked for by name: the lower-cased names are equal, or the asked
/// name equals the lower-cased source name without spaces.
pub open spec fn name_requested(name_lower: Seq<char>, req_lower: Seq<char>) -> bool {
    name_lower == req_lower || req_lower == replace_all(name_lower, seq![' '], Seq::empty())
}

/// A source takes part in a search: when one source is asked for, the asked
/// one if enabled; else every enabled source that serves the designation.
pub open spec fn takes_part(e: SourceEntry, requested: Option<Seq<char>>, enabled_ids: Seq<Seq<char>>, uncensored: bool) -> bool {
    match requested {
        Some(req) => name_requested(unicode_lower(e.name@), unicode_lower(req)) && id_listed(
            enabled_ids,
            e.name@,
        ),
        None => id_listed(enabled_ids, e.name@) && serves(e.capability, uncensored),
    }
}

pub open spec fn participates(requested: Option<Seq<char>>, enabled_ids: Seq<Seq<char>>, uncensored: bool) -> spec_fn(SourceEntry) -> bool {
    |e: SourceEntry| takes_part(e, requested, enabled_ids, uncensored)
}

pub open spec fn entry_names(v: Seq<SourceEntry>) -> Seq<Seq<char>> {
    v.map_values(|e: SourceEntry| e.name@)
}

/// Only enabled sources take part in a search; without a requested source,
/// uncensored-only sources never take part for a censored designation and
/// censored-only ones never for an uncensored one; in uncensored mode every
/// designation is routed as uncensored.
pub proof fn lemma_search_routing(
    e: SourceEntry,
    requested: Option<Seq<char>>,
    enabled_ids: Seq<Seq<char>>,
    uncensored: bool,
    code: Seq<char>,
)
    ensures
        takes_part(e, requested, enabled_ids, uncensored) ==> id_listed(enabled_ids, e.name@),
        (requested is None && takes_part(e, requested, enabled_ids, uncensored)) ==> match e.capability {
            SourceCapability::CensoredOnly => !uncensored,
            SourceCapability::UncensoredOnly => uncensored,
            SourceCapability::General => true,
        },
        routed_uncensored(true, code),
{
}

/// The names of the sources that take part in a search, in registry order.
pub fn select_search_sources(
    entries: &Vec<SourceEntry>,
    requested: Option<&str>,
    enabled_ids: &Vec<String>,
    uncensored: bool,
) -> (r: Vec<String>)
    ensures
        string_views(r@) == entry_names(
            entries@.filter(participates(opt_view(requested), string_views(enabled_ids@), uncensored)),
        ),
{
    let ghost req = opt_view(requested);
    let ghost ids = string_views(enabled_ids@);
    let ghost f = participates(req, ids, uncensored);
    let req_lower: Option<String> = match requested {
        Some(q) => Some(to_lowercase(q)),
        None => None,
    };
    let mut out: Vec<String> = Vec::new();
    let mut i: usize = 0;
    while i < entries.len()
        invariant
            i <= entries.len(),
            ids == string_views(enabled_ids@),
            req == opt_view(requested),
            f == participates(req, ids, uncensored),
            match requested {
                Some(q) => req_lower matches Some(l) && l@ == unicode_lower(q@),
                None => req_lower is None,
            },
            string_views(out@) == entry_names(entries@.take(i as int).filter(f)),
        decreases entries.len() - i,
    {
        reveal_with_fuel(Seq::<_>::filter, 1);
        assert(entries@.take(i + 1).drop_last() =~= entries@.take(i as int));
        let e = &entries[i];
        let enabled = id_listed_exec(enabled_ids, e.name.as_str());
        let keep = match &req_lower {
            Some(rl) => {
                let nl = to_lowercase(e.name.as_str());
                let nv = chars_of(nl.as_str());
                let rv = chars_of(rl.as_str());
                let mut sp: Vec<char> = Vec::new();
                sp.push(' ');
                let empty: Vec<char> = Vec::new();
                assert(sp@ =~= seq![' ']);
                assert(empty@ =~= Seq::<char>::empty());
                let squeezed = replace_chars(&nv, &sp, &empty);
                (same(&nv, &rv) || same(&rv, &squeezed)) && enabled
            },
            None => enabled && e.capability.handles(uncensored),
        };
        assert(keep == f(entries@[i as int]));
        if keep {
            let ghost before = string_views(out@);
            out.push(e.name.clone());
            assert(string_views(out@) =~= before.push(entries@[i as int].name@));
        }
        i += 1;
        assert(string_views(out@) =~= entry_names(entries@.take(i as int).filter(f)));
    }
    assert(entries@.take(entries.len() as int) =~= entries@);
    out
}

/// MetaTube joins a search when it is enabled and ready, and no other source
/// was asked for.
pub open spec fn metatube_joins(requested: Option<Seq<char>>, enabled: bool, ready: bool) -> bool {
    let asked = match requested {
        Some(q) => eq_ignore_case(q, "metatube"@),
        None => true,
    };
    asked && enabled && ready
}

pub fn should_run_metatube(requested: Option<&str>, enabled: bool, ready: bool) -> (r: bool)
    ensures
        r == metatube_joins(opt_view(requested), enabled, ready),
{
    let asked = match requested {
        Some(q) => {
            let a = chars_of(q);
            let b = chars_of("metatube");
            eq_ignore_case_chars(&a, &b)
        },
        None => true,
    };
    asked && enabled && ready
}

/// Sources fetched at once in a search: the configured number (at least 1),
/// but no more than there are sources.
pub open spec fn search_concurrency_of(concurrent: u32, total: nat) -> nat {
    let c: nat = if concurrent < 1 {
        1
    } else {
        concurrent as nat
    };
    if c < total {
        c
    } else {
        total
    }
}

pub fn search_concurrency(concurrent: u32, total: usize) -> (r: usize)
    ensures
        r as nat == search_concurrency_of(concurrent, total as nat),
{
    let c: u64 = if concurrent < 1 {
        1
    } else {
        concurrent as u64
    };
    if c < total as u64 {
        c as usize
    } else {
        total
    }
}

// ------------------------------------------------------------------
// Ranking for a fused scrape
// ------------------------------------------------------------------

/// A source with its ranking keys.
#[derive(Debug, Clone)]
pub struct RankedSource {
    pub name: String,
    /// Average richness score of its site (0 when unknown).
    pub score: u32,
    /// Position in the priority list (`usize::MAX` when absent).
    pub prio: usize,
}

/// `a` ranks strictly before `b`: a higher score, or the same score and an
/// earlier priority.
pub open spec fn ranks_before(a: RankedSource, b: RankedSource) -> bool {
    a.score > b.score || (a.score == b.score && a.prio < b.prio)
}

/// `x` inserted into `s` before the first element it ranks before (after all
/// elements it ties with, so that the order is stable).
pub open spec fn insert_ranked(x: RankedSource, s: Seq<RankedSource>) -> Seq<RankedSource>
    decreases s.len(),
{
    if s.len() == 0 {
        seq![x]
    } else if ranks_before(x, s[0]) {
        seq![x] + s
    } else {
        seq![s[0]] + insert_ranked(x, s.drop_first())
    }
}

/// The stable sort of `s` by rank.
pub open spec fn sort_ranked(s: Seq<RankedSource>) -> Seq<RankedSource>
    decreases s.len(),
{
    if s.len() == 0 {
        Seq::empty()
    } else {
        insert_ranked(s.last(), sort_ranked(s.drop_last()))
    }
}

/// No element ranks before an earlier one.
pub open spec fn in_rank_order(s: Seq<RankedSource>) -> bool {
    forall|i: int, j: int| 0 <= i < j < s.len() ==> !ranks_before(#[trigger] s[j], #[trigger] s[i])
}

proof fn lemma_insert_at(x: RankedSource, s: Seq<RankedSource>, p: int)
    requires
        0 <= p <= s.len(),
        forall|i: int| 0 <= i < p ==> !ranks_before(x, #[trigger] s[i]),
        p < s.len() ==> ranks_before(x, s[p]),
    ensures
        insert_ranked(x, s) == s.insert(p, x),
    decreases s.len(),
{
    if s.len() == 0 {
        assert(s.insert(p, x) =~= seq![x]);
    } else if p == 0 {
        assert(s.insert(0, x) =~= seq![x] + s);
    } else {
        let t = s.drop_first();
        assert(!ranks_before(x, s[0]));
        assert forall|i: int| 0 <= i < p - 1 implies !ranks_before(x, #[trigger] t[i]) by {
            assert(t[i] == s[i + 1]);
        }
        if p - 1 < t.len() {
            assert(t[p - 1] == s[p]);
        }
        lemma_insert_at(x, t, p - 1);
        assert(seq![s[0]] + t.insert(p - 1, x) =~= s.insert(p, x));
    }
}

proof fn lemma_insert_ranked(x: RankedSource, s: Seq<RankedSource>)
    requires
        in_rank_order(s),
    ensures
        in_rank_order(insert_ranked(x, s)),
        insert_ranked(x, s).to_multiset() == s.to_multiset().insert(x),
        insert_ranked(x, s).len() == s.len() + 1,
    decreases s.len(),
{
    broadcast use vstd::seq_lib::to_multiset_insert;
    broadcast use vstd::multiset::group_multiset_axioms;

    if s.len() == 0 {
        assert(seq![x] =~= s.insert(0, x));
        assert(s.insert(0, x).to_multiset() == s.to_multiset().insert(x));
    } else if ranks_before(x, s[0]) {
        let r = seq![x] + s;
        assert forall|i: int, j: int| 0 <= i < j < r.len() implies !ranks_before(
            #[trigger] r[j],
            #[trigger] r[i],
        ) by {
            if i == 0 {
                assert(r[j] == s[j - 1]);
                if j - 1 > 0 {
                    assert(!ranks_before(s[j - 1], s[0]));
                }
            } else {
                assert(r[i] == s[i - 1] && r[j] == s[j - 1]);
            }
        }
        assert(r =~= s.insert(0, x));
        assert(s.insert(0, x).to_multiset() == s.to_multiset().insert(x));
    } else {
        let t = s.drop_first();
        assert(in_rank_order(t)) by {
            assert forall|i: int, j: int| 0 <= i < j < t.len() implies !ranks_before(
                #[trigger] t[j],
                #[trigger] t[i],
            ) by {
                assert(t[i] == s[i + 1] && t[j] == s[j + 1]);
            }
        }
        lemma_insert_ranked(x, t);
        let it = insert_ranked(x, t);
        let r = seq![s[0]] + it;
        assert forall|j: int| 0 <= j < it.len() implies !ranks_before(#[trigger] it[j], s[0]) by {
            broadcast use vstd::seq_lib::to_multiset_contains;

            let y = it[j];
            assert(it.contains(y));
            assert(it.to_multiset().count(y) > 0);
            assert(t.to_multiset().insert(x).count(y) > 0);
            if y != x {
                assert(t.to_multiset().count(y) > 0);
                assert(t.contains(y));
                let k = choose|k: int| 0 <= k < t.len() && t[k] == y;
                assert(t[k] == s[k + 1]);
            }
        }
        assert forall|i: int, j: int| 0 <= i < j < r.len() implies !ranks_before(
            #[trigger] r[j],
            #[trigger] r[i],
        ) by {
            if i == 0 {
                assert(r[j] == it[j - 1]);
            } else {
                assert(r[i] == it[i - 1] && r[j] == it[j - 1]);
            }
        }
        assert(r =~= it.insert(0, s[0]));
        assert(s =~= t.insert(0, s[0]));
        assert(it.insert(0, s[0]).to_multiset() == it.to_multiset().insert(s[0]));
        assert(t.insert(0, s[0]).to_multiset() == t.to_multiset().insert(s[0]));
        assert(t.to_multiset().insert(x).insert(s[0]) =~= t.to_multiset().insert(s[0]).insert(x));
    }
}

/// The rank sort is ordered and keeps exactly the elements it was given.
pub proof fn lemma_sort_ranked(s: Seq<RankedSource>)
    ensures
        in_rank_order(sort_ranked(s)),
        sort_ranked(s).to_multiset() == s.to_multiset(),
        sort_ranked(s).len() == s.len(),
    decreases s.len(),
{
    broadcast use vstd::seq_lib::to_multiset_build;

    if s.len() == 0 {
        assert(sort_ranked(s) =~= Seq::<RankedSource>::empty());
        assert(s =~= Seq::<RankedSource>::empty());
    } else {
        lemma_sort_ranked(s.drop_last());
        lemma_insert_ranked(s.last(), sort_ranked(s.drop_last()));
        assert(s.drop_last().push(s.last()) =~= s);
        assert(s.drop_last().push(s.last()).to_multiset() == s.drop_last().to_multiset().insert(
            s.last(),
        ));
    }
}

/// The score of the configured site of a source (0 when unknown).
pub open spec fn site_score(sites: Seq<SiteView>, name: Seq<char>) -> u32 {
    match first_match(sites, |s: SiteView| eq_ignore_case(s.id, name)) {
        Some(i) => match sites[i].avg_score {
            Some(x) => x,
            None => 0,
        },
        None => 0,
    }
}

/// The position of a source in the priority list (`usize::MAX` when absent).
pub open spec fn priority_of(prio: Seq<Seq<char>>, name: Seq<char>) -> int {
    match first_match(prio, |p: Seq<char>| eq_ignore_case(p, name)) {
        Some(i) => i,
        None => usize::MAX as int,
    }
}

fn site_score_of(sites: &Vec<ResourceSite>, name: &str) -> (r: u32)
    ensures
        r == site_score(site_views(sites@), name@),
{
    let ghost sv = site_views(sites@);
    let ghost f = |s: SiteView| eq_ignore_case(s.id, name@);
    let n = chars_of(name);
    let mut i: usize = 0;
    while i < sites.len()
        invariant
            i <= sites.len(),
            sv == site_views(sites@),
            f == (|s: SiteView| eq_ignore_case(s.id, name@)),
            n@ == name@,
            first_match(sv.take(i as int), f) is None,
        decreases sites.len() - i,
    {
        let id = chars_of(sites[i].id.as_str());
        assert(sv[i as int] == sites@[i as int]@);
        if eq_ignore_case_chars(&id, &n) {
            proof {
                lemma_first_match_at(sv, f, i as int);
            }
            return match sites[i].avg_score {
                Some(x) => x,
                None => 0,
            };
        }
        proof {
            lemma_first_match_step(sv, f, i as int);
        }
        i += 1;
    }
    assert(sv.take(sites.len() as int) =~= sv);
    0
}

fn priority_pos(prio: &Vec<String>, name: &str) -> (r: usize)
    ensures
        r as int == priority_of(string_views(prio@), name@),
{
    let ghost pv = string_views(prio@);
    let ghost f = |p: Seq<char>| eq_ignore_case(p, name@);
    let n = chars_of(name);
    let mut i: usize = 0;
    while i < prio.len()
        invariant
            i <= prio.len(),
            pv == string_views(prio@),
            f == (|p: Seq<char>| eq_ignore_case(p, name@)),
            n@ == name@,
            first_match(pv.take(i as int), f) is None,
        decreases prio.len() - i,
    {
        let p = chars_of(prio[i].as_str());
        assert(pv[i as int] == p@);
        if eq_ignore_case_chars(&p, &n) {
            proof {
                lemma_first_match_at(pv, f, i as int);
            }
            return i;
        }
        proof {
            lemma_first_match_step(pv, f, i as int);
        }
        i += 1;
    }
    assert(pv.take(prio.len() as int) =~= pv);
    usize::MAX
}

/// The enabled sources that serve the designation, with their ranking keys, in
/// registry order.
pub open spec fn fusion_candidates(entries: Seq<SourceEntry>, sites: Seq<SiteView>, prio: Seq<Seq<char>>, uncensored: bool) -> Seq<RankedSource>
    decreases entries.len(),
{
    if entries.len() == 0 {
        Seq::empty()
    } else {
        let rest = fusion_candidates(entries.drop_last(), sites, prio, uncensored);
        let e = entries.last();
        let enabled = exists|k: int| 0 <= k < sites.len() && eq_ignore_case(#[trigger] sites[k].id, e.name@);
        if enabled && serves(e.capability, uncensored) {
            rest.push(
                RankedSource {
                    name: e.name,
                    score: site_score(sites, e.name@),
                    prio: priority_of(prio, e.name@) as usize,
                },
            )
        } else {
            rest
        }
    }
}

fn site_enabled(sites: &Vec<ResourceSite>, name: &str) -> (r: bool)
    ensures
        r == exists|k: int| 0 <= k < sites@.len() && eq_ignore_case(#[trigger] site_views(sites@)[k].id, name@),
{
    let n = chars_of(name);
    let mut i: usize = 0;
    while i < sites.len()
        invariant
            i <= sites.len(),
            n@ == name@,
            forall|k: int| 0 <= k < i ==> !eq_ignore_case(#[trigger] site_views(sites@)[k].id, name@),
        decreases sites.len() - i,
    {
        let id = chars_of(sites[i].id.as_str());
        assert(site_views(sites@)[i as int].id == id@);
        if eq_ignore_case_chars(&id, &n) {
            return true;
        }
        i += 1;
    }
    false
}

fn insert_ranked_exec(v: &mut Vec<RankedSource>, x: RankedSource)
    ensures
        final(v)@ == insert_ranked(x, old(v)@),
{
    let mut p: usize = 0;
    while p < v.len() && !(x.score > v[p].score || (x.score == v[p].score && x.prio < v[p].prio))
        invariant
            p <= v.len(),
            forall|i: int| 0 <= i < p ==> !ranks_before(x, #[trigger] v@[i]),
        decreases v.len() - p,
    {
        p += 1;
    }
    proof {
        lemma_insert_at(x, v@, p as int);
    }
    v.insert(p, x);
}

/// The sources of a fused scrape, best first: the enabled sources (`sites`
/// are the enabled sites) that serve the designation, stably sorted by score
/// then priority, at most six. The result is in rank order and every source in
/// it is a candidate.
pub fn select_fusion_sources(
    entries: &Vec<SourceEntry>,
    sites: &Vec<ResourceSite>,
    priority: &Vec<String>,
    uncensored: bool,
) -> (r: Vec<RankedSource>)
    ensures
        r@ == ({
            let s = sort_ranked(
                fusion_candidates(entries@, site_views(sites@), string_views(priority@), uncensored),
            );
            if s.len() <= FUSED_TOP_N {
                s
            } else {
                s.take(FUSED_TOP_N as int)
            }
        }),
        r@.len() <= FUSED_TOP_N,
        in_rank_order(r@),
        forall|i: int|
            0 <= i < r@.len() ==> fusion_candidates(
                entries@,
                site_views(sites@),
                string_views(priority@),
                uncensored,
            ).contains(#[trigger] r@[i]),
{
    let ghost sv = site_views(sites@);
    let ghost pv = string_views(priority@);
    let mut cands: Vec<RankedSource> = Vec::new();
    let mut sorted: Vec<RankedSource> = Vec::new();
    let mut i: usize = 0;
    while i < entries.len()
        invariant
            i <= entries.len(),
            sv == site_views(sites@),
            pv == string_views(priority@),
            cands@ == fusion_candidates(entries@.take(i as int), sv, pv, uncensored),
            sorted@ == sort_ranked(cands@),
        decreases entries.len() - i,
    {
        assert(entries@.take(i + 1).drop_last() =~= entries@.take(i as int));
        let e = &entries[i];
        assert(entries@.take(i + 1).last() == entries@[i as int]);
        if site_enabled(sites, e.name.as_str()) && e.capability.handles(uncensored) {
            let rs = RankedSource {
                name: e.name.clone(),
                score: site_score_of(sites, e.name.as_str()),
                prio: priority_pos(priority, e.name.as_str()),
            };
            let rs2 = RankedSource { name: e.name.clone(), score: rs.score, prio: rs.prio };
            let ghost before = cands@;
            cands.push(rs);
            assert(cands@.drop_last() =~= before);
            insert_ranked_exec(&mut sorted, rs2);
        }
        i += 1;
    }
    assert(entries@.take(entries.len() as int) =~= entries@);
    proof {
        lemma_sort_ranked(cands@);
    }
    let ghost full = sorted@;
    if sorted.len() > FUSED_TOP_N {
        sorted.truncate(FUSED_TOP_N);
    }
    proof {
        assert forall|k: int| 0 <= k < sorted@.len() implies cands@.contains(#[trigger] sorted@[k]) by {
            assert(sorted@[k] == full[k]);
            assert(full.to_multiset().count(full[k]) > 0) by {
                broadcast use vstd::seq_lib::to_multiset_contains;

                assert(full.contains(full[k]));
            }
            broadcast use vstd::seq_lib::to_multiset_contains;

            assert(cands@.to_multiset().count(full[k]) > 0);
        }
    }
    sorted
}


// ------------------------------------------------------------------
// Collecting the results of a fused scrape
// ------------------------------------------------------------------

/// After the first result, how long more results are awaited (ms).
pub const FUSED_FIRST_GRACE_MS: u64 = 1500;

/// How long a fused scrape waits at most (ms).
pub const FUSED_HARD_DEADLINE_MS: u64 = 8000;

/// What happened while waiting for results.
#[derive(Debug, Clone, Copy, PartialEq, Eq, Structural)]
pub enum FuseEvent {
    /// A source delivered a result at the given time (ms).
    Result(u64),
    /// Every source has finished.
    Closed,
    /// The current deadline passed.
    DeadlinePassed,
}

/// The state of the collection: results received so far, the end of the
/// grace period that the first result opened, and the absolute deadline.
#[derive(Debug, Clone, Copy)]
pub struct FuseWindow {
    pub received: usize,
    pub soft_deadline_ms: Option<u64>,
    pub hard_deadline_ms: u64,
}

impl FuseWindow {
    /// A collection started at `now_ms`.
    pub fn new(now_ms: u64) -> (r: Self)
        ensures
            r.received == 0,
            r.soft_deadline_ms is None,
            r.hard_deadline_ms == if now_ms + FUSED_HARD_DEADLINE_MS <= u64::MAX {
                (now_ms + FUSED_HARD_DEADLINE_MS) as u64
            } else {
                u64::MAX
            },
    {
        FuseWindow { received: 0, soft_deadline_ms: None, hard_deadline_ms: now_ms.saturating_add(FUSED_HARD_DEADLINE_MS) }
    }

    /// When waiting stops unless a source finishes first: the end of the grace
    /// period, but never after the absolute deadline.
    pub fn deadline(&self) -> (r: u64)
        ensures
            r == match self.soft_deadline_ms {
                Some(s) => if s < self.hard_deadline_ms {
                    s
                } else {
                    self.hard_deadline_ms
                },
                None => self.hard_deadline_ms,
            },
            r <= self.hard_deadline_ms,
    {
        match self.soft_deadline_ms {
            Some(s) => if s < self.hard_deadline_ms {
                s
            } else {
                self.hard_deadline_ms
            },
            None => self.hard_deadline_ms,
        }
    }

    /// Takes an event into account; says whether to keep waiting. A result is
    /// kept and, when it is the first, opens the grace period; the end of the
    /// sources or a passed deadline stops the collection.
    pub fn on_event(&mut self, event: FuseEvent) -> (keep_waiting: bool)
        requires
            old(self).received < usize::MAX,
        ensures
            keep_waiting <==> event is Result,
            final(self).hard_deadline_ms == old(self).hard_deadline_ms,
            match event {
                FuseEvent::Result(now) => {
                    &&& final(self).received == old(self).received + 1
                    &&& final(self).soft_deadline_ms == match old(self).soft_deadline_ms {
                        Some(s) => Some(s),
                        None => Some(
                            if now + FUSED_FIRST_GRACE_MS <= u64::MAX {
                                (now + FUSED_FIRST_GRACE_MS) as u64
                            } else {
                                u64::MAX
                            },
                        ),
                    }
                },
                _ => final(self).received == old(self).received && final(self).soft_deadline_ms
                    == old(self).soft_deadline_ms,
            },
    {
        match event {
            FuseEvent::Result(now) => {
                self.received = self.received + 1;
                if self.soft_deadline_ms.is_none() {
                    self.soft_deadline_ms = Some(now.saturating_add(FUSED_FIRST_GRACE_MS));
                }
                true
            },
            FuseEvent::Closed => false,
            FuseEvent::DeadlinePassed => false,
        }
    }
}

/// A fused scrape with no usable source fails, unless the aggregation
/// service is ready to answer alone.
pub fn fusion_without_sources_error(source_count: usize, metatube_ready: bool) -> (r: Option<String>)
    ensures
        r is Some <==> (source_count == 0 && !metatube_ready),
        r matches Some(m) ==> m@ == "未启用任何刮削网站，请先在设置中开启至少一个网站"@,
{
    if source_count == 0 && !metatube_ready {
        Some(string_of(&chars_of("未启用任何刮削网站，请先在设置中开启至少一个网站")))
    } else {
        None
    }
}

} // verus!
