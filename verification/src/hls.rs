//! HLS playlists: telling the real feature among captured `.m3u8` links by
//! their variants, resolutions and URLs.

use vstd::prelude::*;
use crate::paths::{last_index_of, last_index_of_chars, lemma_last_index_of};
use crate::regexes::{first_captures, opt_views, regex_captured};
use crate::text::{
    chars_of, concat, contains, contains_str, parse_int, parse_int_chars, slice, split_set,
    split_set_chars, starts_with, starts_with_chars, starts_with_str, string_of, trim, trim_chars,
    trim_start_char, trim_start_char_chars, views,
};

verus! {

/// Variant attribute line of a master playlist.
pub const STREAM_INF_TAG: &'static str = "#EXT-X-STREAM-INF:";

/// `WIDTHxHEIGHT` in a URL.
pub const RESOLUTION_WXH_PATTERN: &'static str = "(\\d{3,4})x(\\d{3,4})";

/// `HEIGHTp` in a URL.
pub const RESOLUTION_P_PATTERN: &'static str = "(\\d{3,4})p";

/// An unsigned number, 0 when the text is not one in range.
pub open spec fn num_or_zero(s: Seq<char>, max: int) -> int {
    match parse_int(s, 0, max) {
        Some(v) => v,
        None => 0,
    }
}

// ------------------------------------------------------------------
// Variant attributes
// ------------------------------------------------------------------

/// Bandwidth, width and height after one attribute of a variant line: a
/// `BANDWIDTH=` sets the bandwidth, a `RESOLUTION=WxH` both sizes (0 for what
/// does not read), anything else changes nothing.
pub open spec fn stream_inf_step(state: (int, int, int), part: Seq<char>) -> (int, int, int) {
    let p = trim(part);
    if starts_with(p, "BANDWIDTH="@) {
        (num_or_zero(trim(p.skip(10)), u64::MAX as int), state.1, state.2)
    } else if starts_with(p, "RESOLUTION="@) {
        let v = trim(p.skip(11));
        match crate::seqs::first_match(v, |c: char| c == 'x') {
            Some(k) => (
                state.0,
                num_or_zero(trim(v.take(k)), u32::MAX as int),
                num_or_zero(trim(v.skip(k + 1)), u32::MAX as int),
            ),
            None => state,
        }
    } else {
        state
    }
}

pub open spec fn stream_inf_fold(parts: Seq<Seq<char>>) -> (int, int, int)
    decreases parts.len(),
{
    if parts.len() == 0 {
        (0, 0, 0)
    } else {
        stream_inf_step(stream_inf_fold(parts.drop_last()), parts.last())
    }
}

/// Bandwidth, width and height of the attributes of a variant line (the
/// comma-separated attributes, read in order).
pub open spec fn stream_inf(attrs: Seq<char>) -> (int, int, int) {
    stream_inf_fold(split_set(attrs, seq![',']))
}

fn num_or_zero_u64(s: &Vec<char>) -> (r: u64)
    ensures
        r as int == num_or_zero(s@, u64::MAX as int),
{
    match parse_int_chars(s, 0, u64::MAX as i128) {
        Some(v) => v as u64,
        None => 0,
    }
}

fn num_or_zero_u32(s: &Vec<char>) -> (r: u32)
    ensures
        r as int == num_or_zero(s@, u32::MAX as int),
{
    match parse_int_chars(s, 0, u32::MAX as i128) {
        Some(v) => v as u32,
        None => 0,
    }
}

fn first_x(v: &Vec<char>) -> (r: Option<usize>)
    ensures
        match r {
            Some(k) => crate::seqs::first_match(v@, |c: char| c == 'x') == Some(k as int) && k
                < v.len(),
            None => crate::seqs::first_match(v@, |c: char| c == 'x') is None,
        },
{
    let ghost f = |c: char| c == 'x';
    let mut i: usize = 0;
    while i < v.len()
        invariant
            i <= v.len(),
            f == (|c: char| c == 'x'),
            crate::seqs::first_match(v@.take(i as int), f) is None,
        decreases v.len() - i,
    {
        if v[i] == 'x' {
            proof {
                crate::seqs::lemma_first_match_at(v@, f, i as int);
            }
            return Some(i);
        }
        proof {
            crate::seqs::lemma_first_match_step(v@, f, i as int);
        }
        i += 1;
    }
    assert(v@.take(v.len() as int) =~= v@);
    None
}

/// Bandwidth, width and height of the attributes of a variant line.
pub fn parse_stream_inf(attrs: &str) -> (r: (u64, u32, u32))
    ensures
        (r.0 as int, r.1 as int, r.2 as int) == stream_inf(attrs@),
{
    let a = chars_of(attrs);
    let mut comma: Vec<char> = Vec::new();
    comma.push(',');
    assert(comma@ =~= seq![',']);
    let parts = split_set_chars(&a, &comma);
    let ghost pv = views(parts@);
    let mut bw: u64 = 0;
    let mut w: u32 = 0;
    let mut h: u32 = 0;
    let mut i: usize = 0;
    while i < parts.len()
        invariant
            i <= parts.len(),
            pv == views(parts@),
            (bw as int, w as int, h as int) == stream_inf_fold(pv.take(i as int)),
        decreases parts.len() - i,
    {
        assert(pv.take(i + 1).drop_last() =~= pv.take(i as int));
        assert(pv[i as int] == parts@[i as int]@);
        proof {
            reveal_strlit("BANDWIDTH=");
            reveal_strlit("RESOLUTION=");
        }
        let p = trim_chars(&parts[i]);
        if starts_with_str(&p, "BANDWIDTH=") {
            let v = slice(&p, 10, p.len());
            assert(v@ =~= p@.skip(10));
            let t = trim_chars(&v);
            bw = num_or_zero_u64(&t);
        } else if starts_with_str(&p, "RESOLUTION=") {
            let v0 = slice(&p, 11, p.len());
            assert(v0@ =~= p@.skip(11));
            let v = trim_chars(&v0);
            match first_x(&v) {
                Some(k) => {
                    let ws = slice(&v, 0, k);
                    assert(ws@ =~= v@.take(k as int));
                    let hs = slice(&v, k + 1, v.len());
                    assert(hs@ =~= v@.skip(k + 1));
                    w = num_or_zero_u32(&trim_chars(&ws));
                    h = num_or_zero_u32(&trim_chars(&hs));
                },
                None => {},
            }
        }
        i += 1;
    }
    assert(pv.take(parts.len() as int) =~= pv);
    (bw, w, h)
}

// ------------------------------------------------------------------
// Resolution from a URL
// ------------------------------------------------------------------

/// The number of capture group `i`, 0 when absent or unreadable.
pub open spec fn group_num(g: Seq<Option<Seq<char>>>, i: int) -> int {
    if 0 <= i < g.len() {
        match g[i] {
            Some(s) => num_or_zero(s, u32::MAX as int),
            None => 0,
        }
    } else {
        0
    }
}

/// Width and height from the captures of the `WIDTHxHEIGHT` pattern, else of
/// the `HEIGHTp` pattern (width 0), else nothing (0, 0).
pub open spec fn resolution_of(
    wxh: Option<Seq<Option<Seq<char>>>>,
    p: Option<Seq<Option<Seq<char>>>>,
) -> (int, int) {
    match wxh {
        Some(g) => (group_num(g, 1), group_num(g, 2)),
        None => match p {
            Some(g) => (0, group_num(g, 1)),
            None => (0, 0),
        },
    }
}

/// Width and height guessed from a URL: `WIDTHxHEIGHT`, else `HEIGHTp` (width
/// 0), else nothing (0, 0).
pub open spec fn url_resolution(url: Seq<char>) -> (int, int) {
    resolution_of(regex_captured(RESOLUTION_WXH_PATTERN@, url), regex_captured(RESOLUTION_P_PATTERN@, url))
}

pub open spec fn opt_groups(o: Option<Vec<Option<String>>>) -> Option<Seq<Option<Seq<char>>>> {
    match o {
        Some(v) => Some(opt_views(v@)),
        None => None,
    }
}

fn group_num_of(g: &Vec<Option<String>>, i: usize) -> (r: u32)
    ensures
        r as int == group_num(opt_views(g@), i as int),
{
    if i < g.len() {
        match &g[i] {
            Some(s) => num_or_zero_u32(&chars_of(s.as_str())),
            None => 0,
        }
    } else {
        0
    }
}

/// Width and height from the captures of the two resolution patterns.
pub fn resolution_from_captures(wxh: &Option<Vec<Option<String>>>, p: &Option<Vec<Option<String>>>) -> (r: (u32, u32))
    ensures
        (r.0 as int, r.1 as int) == resolution_of(opt_groups(*wxh), opt_groups(*p)),
{
    match wxh {
        Some(g) => (group_num_of(g, 1), group_num_of(g, 2)),
        None => match p {
            Some(g) => (0, group_num_of(g, 1)),
            None => (0, 0),
        },
    }
}

pub fn parse_resolution_from_url(url: &str) -> (r: (u32, u32))
    ensures
        (r.0 as int, r.1 as int) == url_resolution(url@),
{
    let wxh = first_captures(RESOLUTION_WXH_PATTERN, url);
    let p = match &wxh {
        Some(_) => None,
        None => first_captures(RESOLUTION_P_PATTERN, url),
    };
    resolution_from_captures(&wxh, &p)
}

// ------------------------------------------------------------------
// Variant URL
// ------------------------------------------------------------------

/// A variant URI resolved against the playlist URL: absolute `http(s)` URIs
/// unchanged; others appended (without leading slashes) to the directory of
/// the playlist URL; unchanged when that URL has no `/`.
pub open spec fn resolved_variant(base: Seq<char>, uri: Seq<char>) -> Seq<char> {
    if starts_with(uri, "http://"@) || starts_with(uri, "https://"@) {
        uri
    } else {
        match last_index_of(base, '/') {
            Some(i) => base.take(i) + seq!['/'] + trim_start_char(uri, '/'),
            None => uri,
        }
    }
}

pub fn resolve_relative_url(base: &str, uri: &str) -> (r: String)
    ensures
        r@ == resolved_variant(base@, uri@),
{
    let u = chars_of(uri);
    if starts_with_str(&u, "http://") || starts_with_str(&u, "https://") {
        return string_of(&u);
    }
    let b = chars_of(base);
    match last_index_of_chars(&b, '/') {
        Some(i) => {
            let head = slice(&b, 0, i);
            assert(head@ =~= b@.take(i as int));
            let mut h = head;
            h.push('/');
            let rest = trim_start_char_chars(&u, '/');
            let out = concat(&h, &rest);
            assert(out@ =~= b@.take(i as int) + seq!['/'] + trim_start_char(u@, '/'));
            string_of(&out)
        },
        None => string_of(&u),
    }
}

// ------------------------------------------------------------------
// Lines and the best variant
// ------------------------------------------------------------------

pub open spec fn strip_cr(l: Seq<char>) -> Seq<char> {
    if l.len() > 0 && l.last() == '\r' {
        l.drop_last()
    } else {
        l
    }
}

/// The lines of a text (`str::lines`): split at `\n`, a `\r` before the `\n`
/// removed, no empty last line.
pub open spec fn text_lines(s: Seq<char>) -> Seq<Seq<char>> {
    let p = split_set(s, seq!['\n']);
    if p.last().len() == 0 {
        p.drop_last().map_values(|l: Seq<char>| strip_cr(l))
    } else {
        p.drop_last().map_values(|l: Seq<char>| strip_cr(l)).push(p.last())
    }
}

/// A variant of a master playlist.
#[derive(Debug, Clone)]
pub struct HlsVariant {
    pub bandwidth: u64,
    pub width: u32,
    pub height: u32,
    pub uri: String,
}

/// The URI of the variant declared at line `i`: the first later line that,
/// trimmed, is neither empty nor a tag (empty when there is none).
pub open spec fn uri_after(lines: Seq<Seq<char>>, i: int) -> Seq<char>
    decreases lines.len() - i,
{
    if i + 1 >= lines.len() {
        Seq::empty()
    } else {
        let t = trim(lines[i + 1]);
        if t.len() > 0 && !starts_with(t, seq!['#']) {
            t
        } else {
            uri_after(lines, i + 1)
        }
    }
}

/// The best variant among the first `n` lines: the one with the highest
/// bandwidth (the first of equal ones), among variants that have a URI.
pub open spec fn best_variant(lines: Seq<Seq<char>>, n: int) -> Option<(int, int, int, Seq<char>)>
    decreases n,
{
    if n <= 0 {
        None
    } else {
        let prev = best_variant(lines, n - 1);
        let line = trim(lines[n - 1]);
        if starts_with(line, STREAM_INF_TAG@) {
            let (bw, w, h) = stream_inf(line.skip(STREAM_INF_TAG@.len() as int));
            let uri = uri_after(lines, n - 1);
            if uri.len() > 0 && (match prev {
                Some(b) => bw > b.0,
                None => true,
            }) {
                Some((bw, w, h, uri))
            } else {
                prev
            }
        } else {
            prev
        }
    }
}

/// Line `i` declares a variant (`#EXT-X-STREAM-INF:`) that a URI follows.
pub open spec fn is_variant_line(lines: Seq<Seq<char>>, i: int) -> bool {
    starts_with(trim(lines[i]), STREAM_INF_TAG@) && uri_after(lines, i).len() > 0
}

/// The variant declared at line `i`: bandwidth, width, height and URI.
pub open spec fn variant_at(lines: Seq<Seq<char>>, i: int) -> (int, int, int, Seq<char>) {
    let a = stream_inf(trim(lines[i]).skip(STREAM_INF_TAG@.len() as int));
    (a.0, a.1, a.2, uri_after(lines, i))
}

/// The best of the first `n` lines is one of their variants, none of them
/// has a higher bandwidth, every one before it has a lower one, and there is
/// none only when no line among them declares a variant with a URI.
pub proof fn lemma_best_variant_is_highest(lines: Seq<Seq<char>>, n: int)
    requires
        0 <= n <= lines.len(),
    ensures
        best_variant(lines, n) is None <==> forall|i: int|
            0 <= i < n ==> !#[trigger] is_variant_line(lines, i),
        best_variant(lines, n) matches Some(b) ==> exists|i: int|
            0 <= i < n && #[trigger] is_variant_line(lines, i) && variant_at(lines, i) == b && (
            forall|j: int| 0 <= j < i && #[trigger] is_variant_line(lines, j) ==> variant_at(lines, j).0 < b.0),
        best_variant(lines, n) matches Some(b) ==> forall|j: int|
            0 <= j < n && #[trigger] is_variant_line(lines, j) ==> variant_at(lines, j).0 <= b.0,
    decreases n,
{
    if n > 0 {
        lemma_best_variant_is_highest(lines, n - 1);
        let prev = best_variant(lines, n - 1);
        let k = n - 1;
        if is_variant_line(lines, k) && (match prev {
            Some(b) => variant_at(lines, k).0 > b.0,
            None => true,
        }) {
            assert(best_variant(lines, n) == Some(variant_at(lines, k)));
            let b = variant_at(lines, k);
            assert forall|j: int| 0 <= j < k && #[trigger] is_variant_line(lines, j) implies variant_at(lines, j).0 < b.0 by {
                if prev is None {
                    assert(!is_variant_line(lines, j));
                }
            }
            assert(is_variant_line(lines, k));
        } else {
            assert(best_variant(lines, n) == prev);
            match prev {
                Some(b) => {
                    let i = choose|i: int|
                        0 <= i < k && #[trigger] is_variant_line(lines, i) && variant_at(lines, i) == b
                            && (forall|j: int|
                            0 <= j < i && #[trigger] is_variant_line(lines, j) ==> variant_at(lines, j).0 < b.0);
                    assert(0 <= i < n && is_variant_line(lines, i));
                },
                None => {},
            }
        }
    }
}

fn text_lines_exec(text: &Vec<char>) -> (r: Vec<Vec<char>>)
    ensures
        views(r@) == text_lines(text@),
{
    let mut nl: Vec<char> = Vec::new();
    nl.push('\n');
    assert(nl@ =~= seq!['\n']);
    let p = split_set_chars(text, &nl);
    proof {
        crate::text::lemma_split_set_nonempty(text@, seq!['\n']);
    }
    let ghost pv = views(p@);
    let last = p.len() - 1;
    let mut out: Vec<Vec<char>> = Vec::new();
    let mut i: usize = 0;
    while i < last
        invariant
            i <= last,
            last + 1 == p.len(),
            pv == views(p@),
            views(out@) == pv.drop_last().map_values(|l: Seq<char>| strip_cr(l)).take(i as int),
        decreases last - i,
    {
        let l = &p[i];
        assert(pv.drop_last()[i as int] == l@);
        let x = if l.len() > 0 && l[l.len() - 1] == '\r' {
            let y = slice(l, 0, l.len() - 1);
            assert(y@ =~= l@.drop_last());
            y
        } else {
            crate::text::copy_chars(l)
        };
        let ghost before = views(out@);
        out.push(x);
        assert(views(out@) =~= before.push(strip_cr(l@)));
        i += 1;
        assert(views(out@) =~= pv.drop_last().map_values(|l: Seq<char>| strip_cr(l)).take(i as int));
    }
    assert(pv.drop_last().map_values(|l: Seq<char>| strip_cr(l)).take(last as int) =~= pv.drop_last().map_values(|l: Seq<char>| strip_cr(l)));
    assert(pv.last() == p@[last as int]@);
    if p[last].len() > 0 {
        let ghost before = views(out@);
        out.push(crate::text::copy_chars(&p[last]));
        assert(views(out@) =~= before.push(pv.last()));
    }
    out
}

fn uri_after_exec(lines: &Vec<Vec<char>>, i: usize) -> (r: Vec<char>)
    requires
        i < lines.len(),
    ensures
        r@ == uri_after(views(lines@), i as int),
{
    let ghost lv = views(lines@);
    let mut j: usize = i + 1;
    while j < lines.len()
        invariant
            i < j <= lines.len(),
            lv == views(lines@),
            uri_after(lv, i as int) == uri_after(lv, j - 1),
        decreases lines.len() - j,
    {
        let t = trim_chars(&lines[j]);
        assert(lv[j as int] == lines@[j as int]@);
        if t.len() > 0 && !(t[0] == '#') {
            assert(!starts_with(t@, seq!['#'])) by {
                assert(t@.take(1)[0] == t@[0]);
            }
            return t;
        }
        if t.len() > 0 {
            assert(starts_with(t@, seq!['#'])) by {
                assert(t@.take(1) =~= seq!['#']);
            }
        }
        j += 1;
    }
    Vec::new()
}

/// The variant with the highest bandwidth of a master playlist, if any.
pub fn pick_best_variant(text: &str) -> (r: Option<HlsVariant>)
    ensures
        match best_variant(text_lines(text@), text_lines(text@).len() as int) {
            Some((bw, w, h, u)) => r matches Some(v) && v.bandwidth as int == bw && v.width as int
                == w && v.height as int == h && v.uri@ == u,
            None => r is None,
        },
        r is None <==> forall|i: int|
            0 <= i < text_lines(text@).len() ==> !#[trigger] is_variant_line(text_lines(text@), i),
        r matches Some(v) ==> forall|j: int|
            0 <= j < text_lines(text@).len() && #[trigger] is_variant_line(text_lines(text@), j)
                ==> variant_at(text_lines(text@), j).0 <= v.bandwidth,
        r matches Some(v) ==> exists|i: int|
            0 <= i < text_lines(text@).len() && #[trigger] is_variant_line(text_lines(text@), i)
                && variant_at(text_lines(text@), i) == (v.bandwidth as int, v.width as int, v.height as int, v.uri@),
{
    proof {
        lemma_best_variant_is_highest(text_lines(text@), text_lines(text@).len() as int);
    }
    let t = chars_of(text);
    let lines = text_lines_exec(&t);
    let ghost lv = views(lines@);
    let tag = chars_of(STREAM_INF_TAG);
    let mut best: Option<HlsVariant> = None;
    let mut i: usize = 0;
    while i < lines.len()
        invariant
            i <= lines.len(),
            lv == views(lines@),
            tag@ == STREAM_INF_TAG@,
            match best_variant(lv, i as int) {
                Some((bw, w, h, u)) => best matches Some(v) && v.bandwidth as int == bw
                    && v.width as int == w && v.height as int == h && v.uri@ == u,
                None => best is None,
            },
        decreases lines.len() - i,
    {
        let line = trim_chars(&lines[i]);
        assert(lv[i as int] == lines@[i as int]@);
        if starts_with_chars(&line, &tag) {
            let attrs = slice(&line, tag.len(), line.len());
            assert(attrs@ =~= line@.skip(tag@.len() as int));
            let attrs_s = string_of(&attrs);
            let (bw, w, h) = parse_stream_inf(attrs_s.as_str());
            let uri = uri_after_exec(&lines, i);
            let better = match &best {
                Some(b) => bw > b.bandwidth,
                None => true,
            };
            if uri.len() > 0 && better {
                best = Some(HlsVariant { bandwidth: bw, width: w, height: h, uri: string_of(&uri) });
            }
        }
        i += 1;
    }
    best
}

/// The playlist is a master playlist (it lists variants).
pub fn is_master_playlist(text: &str) -> (r: bool)
    ensures
        r == contains(text@, "#EXT-X-STREAM-INF"@),
{
    let t = chars_of(text);
    contains_str(&t, "#EXT-X-STREAM-INF")
}

/// The playlist is a complete video on demand (it has an end tag).
pub fn is_vod_playlist(text: &str) -> (r: bool)
    ensures
        r == contains(text@, "#EXT-X-ENDLIST"@),
{
    let t = chars_of(text);
    contains_str(&t, "#EXT-X-ENDLIST")
}

/// The size of a master playlist's best variant, or the one guessed from the
/// playlist URL when the variant does not give both.
pub fn variant_resolution(width: u32, height: u32, url: &str) -> (r: (u32, u32))
    ensures
        width > 0 && height > 0 ==> r == (width, height),
        !(width > 0 && height > 0) ==> (r.0 as int, r.1 as int) == url_resolution(url@),
{
    if width > 0 && height > 0 {
        (width, height)
    } else {
        parse_resolution_from_url(url)
    }
}

} // verus!
