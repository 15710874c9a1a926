//! Where the metadata of a video is written: beside the video ("follow
//! video"), or in an independent directory `<root>/<id title>/` that holds a
//! `.strm` file pointing at the video.

use vstd::prelude::*;
use crate::artwork::ArtworkResult;
use crate::paths::{file_stem, file_stem_chars, join, join_chars, parent, parent_chars};
use crate::seqs::{first_match, lemma_first_match, lemma_first_match_at, lemma_first_match_step};
use crate::settings::AppSettings;
use crate::text::{
    chars_of, collapse_ws, collapse_ws_chars, concat, contains_char, is_ctrl, is_ctrl_char, owned,
    slice, starts_with, starts_with_chars, string_of, take_at_most, take_at_most_chars, trim, trim_chars, trim_end_set,
    trim_end_set_chars, trim_str, all_chars, is_ws, lemma_all_chars_collapse_ws, lemma_all_chars_subrange,
    lemma_all_chars_trim, lemma_trim, lemma_trim_end_set, lemma_trim_idempotent,
    lemma_collapse_ws_prefix, lemma_starts_with_split, lemma_take_at_most_prefix,
    lemma_trim_end_set_prefix, lemma_trim_prefix,
};

verus! {

/// Storage configuration derived from the application settings.
#[derive(Debug, Clone)]
pub struct MetadataStorageConfig {
    /// Independent directory mode is on.
    pub independent: bool,
    /// Root of the independent metadata directories.
    pub root_dir: String,
}

impl MetadataStorageConfig {
    pub fn from_settings(settings: &AppSettings) -> (r: Self)
        ensures
            r.independent == settings.metadata.spec_is_independent(),
            r.root_dir@ == trim(settings.metadata.root_dir@),
    {
        let independent = settings.metadata.is_independent();
        let root = trim_str(settings.metadata.root_dir.as_str());
        MetadataStorageConfig { independent, root_dir: string_of(&root) }
    }
}

/// The `.strm` file of an independent directory.
#[derive(Debug, Clone)]
pub struct StrmSpec {
    /// Path of the `.strm` file.
    pub path: String,
    /// Its single line: the absolute path of the video.
    pub video_abs_path: String,
}

/// Where the NFO, the artwork and the preview images of a video go.
#[derive(Debug, Clone)]
pub struct MediaAssetTarget {
    /// Directory of the NFO / poster / fanart / extrafanart.
    pub dir: String,
    /// File-name stem (`<stem>.nfo`, `<stem>-poster.jpg`).
    pub stem: String,
    /// The `.strm` to write in independent mode.
    pub strm: Option<StrmSpec>,
}

// ------------------------------------------------------------------
// Path components
// ------------------------------------------------------------------

/// Characters that no Windows file name may hold.
pub open spec fn is_reserved(c: char) -> bool {
    c == '<' || c == '>' || c == ':' || c == '"' || c == '/' || c == '\\' || c == '|' || c == '?'
        || c == '*'
}

/// A reserved character becomes `_`, a control character a space.
pub open spec fn clean_char(c: char) -> char {
    if is_reserved(c) {
        '_'
    } else if is_ctrl(c) {
        ' '
    } else {
        c
    }
}

pub open spec fn clean_seq(s: Seq<char>) -> Seq<char> {
    s.map_values(|c: char| clean_char(c))
}

/// Dots and spaces, which a Windows file name may not end with.
pub open spec fn tail_junk() -> Seq<char> {
    seq!['.', ' ']
}

/// Longest component kept, in characters.
pub open spec fn max_component_len() -> nat {
    100
}

/// `raw` trimmed, cleaned, its white space collapsed, cut to the maximal
/// length and stripped of trailing dots and spaces.
pub open spec fn cleaned_component(raw: Seq<char>) -> Seq<char> {
    trim_end_set(
        trim(take_at_most(collapse_ws(clean_seq(trim(raw))), max_component_len())),
        tail_junk(),
    )
}

/// What `sanitize_path_component` returns: the cleaned `raw`, or the trimmed
/// `fallback` when nothing is left of it.
pub open spec fn sanitized_component(raw: Seq<char>, fallback: Seq<char>) -> Seq<char> {
    let t = cleaned_component(raw);
    if t.len() == 0 {
        trim_end_set(trim(fallback), tail_junk())
    } else {
        t
    }
}

/// Name of an independent directory: `<id> <title>`, or the id alone when the
/// title is blank.
pub open spec fn folder_name(local_id: Seq<char>, title: Seq<char>) -> Seq<char> {
    let id = trim(local_id);
    let t = trim(title);
    let raw = if t.len() == 0 {
        id
    } else {
        id + seq![' '] + t
    };
    sanitized_component(raw, id)
}

fn is_reserved_char(c: char) -> (r: bool)
    ensures
        r == is_reserved(c),
{
    c == '<' || c == '>' || c == ':' || c == '"' || c == '/' || c == '\\' || c == '|' || c == '?'
        || c == '*'
}

fn clean_chars(s: &Vec<char>) -> (r: Vec<char>)
    ensures
        r@ == clean_seq(s@),
{
    let mut r: Vec<char> = Vec::new();
    let mut i: usize = 0;
    while i < s.len()
        invariant
            i <= s.len(),
            r@ == clean_seq(s@.take(i as int)),
        decreases s.len() - i,
    {
        let c = s[i];
        let d = if is_reserved_char(c) {
            '_'
        } else if is_ctrl_char(c) {
            ' '
        } else {
            c
        };
        r.push(d);
        i += 1;
        assert(r@ =~= clean_seq(s@.take(i as int)));
    }
    assert(s@.take(s.len() as int) =~= s@);
    r
}

fn tail_junk_chars() -> (r: Vec<char>)
    ensures
        r@ == tail_junk(),
{
    let mut v: Vec<char> = Vec::new();
    v.push('.');
    v.push(' ');
    assert(v@ =~= tail_junk());
    v
}

fn cleaned_component_chars(raw: &Vec<char>) -> (r: Vec<char>)
    ensures
        r@ == cleaned_component(raw@),
{
    let t = trim_chars(raw);
    let c = clean_chars(&t);
    let f = collapse_ws_chars(&c);
    let cut = take_at_most_chars(&f, 100);
    let t2 = trim_chars(&cut);
    let junk = tail_junk_chars();
    trim_end_set_chars(&t2, &junk)
}

fn sanitize_chars(raw: &Vec<char>, fallback: &Vec<char>) -> (r: Vec<char>)
    ensures
        r@ == sanitized_component(raw@, fallback@),
{
    let t = cleaned_component_chars(raw);
    if t.len() == 0 {
        let f = trim_chars(fallback);
        let junk = tail_junk_chars();
        trim_end_set_chars(&f, &junk)
    } else {
        t
    }
}

/// A legal path component made of `raw`: reserved characters replaced, white
/// space folded, at most 100 characters, no trailing dot or space; the
/// trimmed `fallback` when nothing is left.
pub fn sanitize_path_component(raw: &str, fallback: &str) -> (r: String)
    ensures
        r@ == sanitized_component(raw@, fallback@),
{
    let rv = chars_of(raw);
    let fv = chars_of(fallback);
    let s = sanitize_chars(&rv, &fv);
    string_of(&s)
}

fn folder_name_chars(local_id: &Vec<char>, title: &Vec<char>) -> (r: Vec<char>)
    ensures
        r@ == folder_name(local_id@, title@),
{
    let id = trim_chars(local_id);
    let t = trim_chars(title);
    if t.len() == 0 {
        sanitize_chars(&id, &id)
    } else {
        let mut sp: Vec<char> = Vec::new();
        sp.push(' ');
        let a = concat(&id, &sp);
        let raw = concat(&a, &t);
        assert(raw@ =~= id@ + seq![' '] + t@);
        sanitize_chars(&raw, &id)
    }
}

/// Name of the independent directory of a video: `<id> <title>` made legal.
pub fn build_independent_folder_name(local_id: &str, title: &str) -> (r: String)
    ensures
        r@ == folder_name(local_id@, title@),
{
    let a = chars_of(local_id);
    let b = chars_of(title);
    let f = folder_name_chars(&a, &b);
    string_of(&f)
}

// ------------------------------------------------------------------
// Target resolution
// ------------------------------------------------------------------

/// Independent mode applies: it is on, the root is set and the id is not blank.
pub open spec fn uses_independent_dir(cfg: MetadataStorageConfig, local_id: Seq<char>) -> bool {
    cfg.independent && cfg.root_dir@.len() > 0 && trim(local_id).len() > 0
}

/// The extension of a `.strm` file, with its dot.
pub open spec fn strm_suffix() -> Seq<char> {
    seq!['.', 's', 't', 'r', 'm']
}

fn strm_suffix_chars() -> (r: Vec<char>)
    ensures
        r@ == strm_suffix(),
{
    let mut v: Vec<char> = Vec::new();
    v.push('.');
    v.push('s');
    v.push('t');
    v.push('r');
    v.push('m');
    assert(v@ =~= strm_suffix());
    v
}

/// Where the metadata of a video goes.
///
/// Beside the video (its parent directory, its file stem, no `.strm`) unless
/// independent mode applies; then `<root>/<id title>/`, the id as stem, and a
/// `.strm` that points at the video.
pub fn resolve_asset_target(
    video_path: &str,
    local_id: &str,
    title: &str,
    cfg: &MetadataStorageConfig,
) -> (r: Result<MediaAssetTarget, String>)
    ensures
        parent(video_path@) is None ==> (r matches Err(e) && e@ == "无效的视频路径"@),
        parent(video_path@) is Some && file_stem(video_path@) is None ==> (r matches Err(e)
            && e@ == "无效的视频文件名"@),
        parent(video_path@) is Some && file_stem(video_path@) is Some ==> r is Ok,
        r matches Ok(t) ==> {
            let vdir = parent(video_path@)->0;
            let vstem = file_stem(video_path@)->0;
            if uses_independent_dir(*cfg, local_id@) {
                &&& t.dir@ == join(cfg.root_dir@, folder_name(trim(local_id@), title@))
                &&& t.stem@ == sanitized_component(trim(local_id@), vstem)
                &&& (t.strm matches Some(s) && s.path@ == join(t.dir@, t.stem@ + strm_suffix())
                    && s.video_abs_path@ == video_path@)
            } else {
                &&& t.dir@ == vdir
                &&& t.stem@ == vstem
                &&& t.strm is None
            }
        },
{
    let video = chars_of(video_path);
    let vdir = match parent_chars(&video) {
        Some(d) => d,
        None => {
            return Err(owned("无效的视频路径"));
        },
    };
    let vstem = match file_stem_chars(&video) {
        Some(s) => s,
        None => {
            return Err(owned("无效的视频文件名"));
        },
    };
    let id = trim_str(local_id);
    if cfg.independent && !cfg.root_dir.as_str().is_empty() && id.len() > 0 {
        let tv = chars_of(title);
        let folder = folder_name_chars(&id, &tv);
        let root = chars_of(cfg.root_dir.as_str());
        let dir = join_chars(&root, &folder);
        let stem = sanitize_chars(&id, &vstem);
        let suffix = strm_suffix_chars();
        let strm_name = concat(&stem, &suffix);
        let strm_path = join_chars(&dir, &strm_name);
        Ok(
            MediaAssetTarget {
                dir: string_of(&dir),
                stem: string_of(&stem),
                strm: Some(StrmSpec { path: string_of(&strm_path), video_abs_path: owned(video_path) }),
            },
        )
    } else {
        Ok(MediaAssetTarget { dir: string_of(&vdir), stem: string_of(&vstem), strm: None })
    }
}

/// Directory and stem beside the video: its parent (empty when it has none)
/// and its file stem (empty when it has none).
pub open spec fn follow_video(video_path: Seq<char>) -> (Seq<char>, Seq<char>) {
    (
        match parent(video_path) {
            Some(d) => d,
            None => Seq::empty(),
        },
        match file_stem(video_path) {
            Some(s) => s,
            None => Seq::empty(),
        },
    )
}

/// Directory and file stem beside the video.
pub fn follow_video_dir_stem(video_path: &str) -> (r: (String, String))
    ensures
        (r.0@, r.1@) == follow_video(video_path@),
{
    let v = chars_of(video_path);
    let d = match parent_chars(&v) {
        Some(d) => string_of(&d),
        None => String::new(),
    };
    let s = match file_stem_chars(&v) {
        Some(s) => string_of(&s),
        None => String::new(),
    };
    (d, s)
}

// ------------------------------------------------------------------
// Locating an existing independent directory
// ------------------------------------------------------------------

/// What to look for under the metadata root: directories whose name starts
/// with `stem` and that hold `strm_name`.
#[derive(Debug, Clone)]
pub struct IndependentLookup {
    pub root: String,
    pub stem: String,
    pub strm_name: String,
}

/// One entry of the metadata root, as listed by the caller.
#[derive(Debug, Clone)]
pub struct RootEntry {
    /// File name of the entry.
    pub name: String,
    /// It is a directory.
    pub is_dir: bool,
    /// It holds the `.strm` named by the lookup.
    pub has_strm: bool,
}

/// Root and stem of the lookup, when independent mode is on and both the root
/// and the id are not blank.
pub open spec fn lookup_of(cfg: MetadataStorageConfig, local_id: Seq<char>) -> Option<(Seq<char>, Seq<char>)> {
    let root = trim(cfg.root_dir@);
    let id = trim(local_id);
    if cfg.independent && root.len() > 0 && id.len() > 0 {
        Some((root, sanitized_component(id, id)))
    } else {
        None
    }
}

pub open spec fn entry_matches(stem: Seq<char>) -> spec_fn(RootEntry) -> bool {
    |e: RootEntry| e.is_dir && starts_with(e.name@, stem) && e.has_strm
}

/// The existing independent directory of an id and its stem: the first listed
/// directory whose name starts with the stem and that holds `<stem>.strm`.
pub open spec fn located_dir(cfg: MetadataStorageConfig, local_id: Seq<char>, entries: Seq<RootEntry>) -> Option<(Seq<char>, Seq<char>)> {
    match lookup_of(cfg, local_id) {
        None => None,
        Some((root, stem)) => match first_match(entries, entry_matches(stem)) {
            Some(i) => Some((join(root, entries[i].name@), stem)),
            None => None,
        },
    }
}

/// What to look for under the metadata root for `local_id`.
pub fn independent_lookup(cfg: &MetadataStorageConfig, local_id: &str) -> (r: Option<IndependentLookup>)
    ensures
        r is Some <==> lookup_of(*cfg, local_id@) is Some,
        r matches Some(l) ==> lookup_of(*cfg, local_id@) == Some((l.root@, l.stem@))
            && l.strm_name@ == l.stem@ + strm_suffix(),
{
    if !cfg.independent {
        return None;
    }
    let root = trim_str(cfg.root_dir.as_str());
    let id = trim_str(local_id);
    if root.len() == 0 || id.len() == 0 {
        return None;
    }
    let stem = sanitize_chars(&id, &id);
    let suffix = strm_suffix_chars();
    let name = concat(&stem, &suffix);
    Some(IndependentLookup { root: string_of(&root), stem: string_of(&stem), strm_name: string_of(&name) })
}

/// The existing independent directory of `local_id` among the entries of the
/// metadata root, with its stem.
pub fn find_independent_dir(
    cfg: &MetadataStorageConfig,
    local_id: &str,
    entries: &Vec<RootEntry>,
) -> (r: Option<(String, String)>)
    ensures
        match r {
            Some((d, s)) => located_dir(*cfg, local_id@, entries@) == Some((d@, s@)),
            None => located_dir(*cfg, local_id@, entries@) is None,
        },
{
    let look = match independent_lookup(cfg, local_id) {
        Some(l) => l,
        None => {
            return None;
        },
    };
    let root = chars_of(look.root.as_str());
    let stem = chars_of(look.stem.as_str());
    let ghost f = entry_matches(stem@);
    let mut i: usize = 0;
    while i < entries.len()
        invariant
            i <= entries.len(),
            f == entry_matches(stem@),
            first_match(entries@.take(i as int), f) is None,
            lookup_of(*cfg, local_id@) == Some((root@, stem@)),
            look.stem@ == stem@,
        decreases entries.len() - i,
    {
        let e = &entries[i];
        let name = chars_of(e.name.as_str());
        if e.is_dir && starts_with_chars(&name, &stem) && e.has_strm {
            proof {
                lemma_first_match_at(entries@, f, i as int);
            }
            let d = join_chars(&root, &name);
            let ds = string_of(&d);
            assert(located_dir(*cfg, local_id@, entries@) == Some((ds@, look.stem@)));
            return Some((ds, look.stem));
        }
        proof {
            lemma_first_match_step(entries@, f, i as int);
        }
        i += 1;
    }
    assert(entries@.take(entries.len() as int) =~= entries@);
    None
}

/// Directory and stem of the existing metadata of a video: its independent
/// directory when one is found, else beside the video.
pub open spec fn existing_asset_dir(cfg: MetadataStorageConfig, video_path: Seq<char>, local_id: Seq<char>, entries: Seq<RootEntry>) -> (Seq<char>, Seq<char>) {
    match located_dir(cfg, local_id, entries) {
        Some(p) => p,
        None => follow_video(video_path),
    }
}

/// Directory and stem of the existing metadata of a video, for reading its
/// previews or saving captured frames. `entries` lists the metadata root.
pub fn resolve_existing_asset_dir(
    video_path: &str,
    local_id: &str,
    cfg: &MetadataStorageConfig,
    entries: &Vec<RootEntry>,
) -> (r: (String, String))
    ensures
        (r.0@, r.1@) == existing_asset_dir(*cfg, video_path@, local_id@, entries@),
{
    match find_independent_dir(cfg, local_id, entries) {
        Some(p) => p,
        None => follow_video_dir_stem(video_path),
    }
}

/// After a video moved: the `.strm` of its independent directory and the new
/// content it should hold; `None` when there is no such directory.
pub fn sync_independent_strm(
    cfg: &MetadataStorageConfig,
    local_id: &str,
    new_video_path: &str,
    entries: &Vec<RootEntry>,
) -> (r: Option<StrmSpec>)
    ensures
        match located_dir(*cfg, local_id@, entries@) {
            None => r is None,
            Some((d, s)) => (r matches Some(w) && w.path@ == join(d, s + strm_suffix())
                && w.video_abs_path@ == new_video_path@),
        },
{
    match find_independent_dir(cfg, local_id, entries) {
        None => None,
        Some((d, s)) => {
            let dv = chars_of(d.as_str());
            let sv = chars_of(s.as_str());
            let suffix = strm_suffix_chars();
            let name = concat(&sv, &suffix);
            let p = join_chars(&dv, &name);
            Some(StrmSpec { path: string_of(&p), video_abs_path: owned(new_video_path) })
        },
    }
}

/// What to write into a `.strm` that should point at `want`, given what it
/// holds now (`None`: absent or unreadable): the trimmed target, unless the
/// trimmed content already equals it.
pub open spec fn strm_update(existing: Option<Seq<char>>, want: Seq<char>) -> Option<Seq<char>> {
    match existing {
        Some(e) => if trim(e) == trim(want) {
            None
        } else {
            Some(trim(want))
        },
        None => Some(trim(want)),
    }
}

pub open spec fn opt_view(o: Option<&str>) -> Option<Seq<char>> {
    match o {
        Some(e) => Some(e@),
        None => None,
    }
}

/// The content to write into a `.strm`, or `None` when it is up to date.
pub fn strm_write_needed(existing: Option<&str>, want: &str) -> (r: Option<String>)
    ensures
        match r {
            Some(w) => strm_update(opt_view(existing), want@) == Some(w@),
            None => strm_update(opt_view(existing), want@) is None,
        },
{
    let w = trim_str(want);
    match existing {
        Some(e) => {
            let t = trim_str(e);
            if crate::text::same(&t, &w) {
                None
            } else {
                Some(string_of(&w))
            }
        },
        None => Some(string_of(&w)),
    }
}

// ------------------------------------------------------------------
// Outcome of writing scraped media
// ------------------------------------------------------------------

/// What writing the scraped media of a video produced (the database is
/// written by the caller from `artwork`).
#[derive(Debug)]
pub struct MediaWriteOutcome {
    /// The final artwork: what was produced, or the fallback.
    pub artwork: ArtworkResult,
    /// A new cover was produced.
    pub cover_produced: bool,
    /// The NFO was written.
    pub nfo_saved: bool,
    /// A subtitle file was saved.
    pub subtitle_saved: bool,
    /// Non-fatal errors.
    pub errors: Vec<String>,
}


// ------------------------------------------------------------------
// Laws
// ------------------------------------------------------------------

/// May stand in a file name: neither reserved nor a control character.
pub open spec fn is_safe_char(c: char) -> bool {
    !is_reserved(c) && !is_ctrl(c)
}

pub open spec fn safe_pred() -> spec_fn(char) -> bool {
    |c: char| is_safe_char(c)
}

/// What is left of a raw name after cleaning is a legal file name: it holds
/// no reserved or control character, has at most 100 characters, does not
/// start with white space and does not end with a dot or a space.
pub proof fn lemma_cleaned_component_is_legal(raw: Seq<char>)
    ensures
        forall|i: int| 0 <= i < cleaned_component(raw).len() ==> is_safe_char(
            #[trigger] cleaned_component(raw)[i],
        ),
        cleaned_component(raw).len() <= max_component_len(),
        cleaned_component(raw).len() > 0 ==> !is_ws(cleaned_component(raw)[0]),
        cleaned_component(raw).len() > 0 ==> !tail_junk().contains(cleaned_component(raw).last()),
{
    let p = safe_pred();
    let t0 = trim(raw);
    let c = clean_seq(t0);
    assert(all_chars(c, p)) by {
        assert forall|i: int| 0 <= i < c.len() implies #[trigger] p(c[i]) by {
            assert(c[i] == clean_char(t0[i]));
        }
    }
    assert(p(' '));
    lemma_all_chars_collapse_ws(c, p);
    let w = collapse_ws(c);
    let k = take_at_most(w, max_component_len());
    if w.len() > max_component_len() {
        lemma_all_chars_subrange(w, p, 0, max_component_len() as int);
        assert(k =~= w.subrange(0, max_component_len() as int));
    }
    assert(all_chars(k, p));
    lemma_all_chars_trim(k, p);
    let u = trim(k);
    lemma_trim(k);
    lemma_trim_end_set(u, tail_junk());
    let r = trim_end_set(u, tail_junk());
    assert(r == cleaned_component(raw));
    lemma_all_chars_subrange(u, p, 0, r.len() as int);
    assert(r =~= u.subrange(0, r.len() as int));
    assert forall|i: int| 0 <= i < r.len() implies is_safe_char(#[trigger] r[i]) by {
        assert(p(r[i]));
    }
    if r.len() > 0 {
        assert(r[0] == u[0]);
    }
}

/// A path component made of a raw name of which something is left after
/// cleaning is that cleaned name, and so a legal file name.
pub proof fn lemma_sanitized_component_is_legal(raw: Seq<char>, fallback: Seq<char>)
    requires
        cleaned_component(raw).len() > 0,
    ensures
        sanitized_component(raw, fallback) == cleaned_component(raw),
        forall|i: int| 0 <= i < sanitized_component(raw, fallback).len() ==> is_safe_char(
            #[trigger] sanitized_component(raw, fallback)[i],
        ),
        0 < sanitized_component(raw, fallback).len() <= max_component_len(),
        !tail_junk().contains(sanitized_component(raw, fallback).last()),
{
    lemma_cleaned_component_is_legal(raw);
}

/// Writing a `.strm` is idempotent: once the content that `strm_update` asks
/// for has been written, it asks for nothing more.
pub proof fn lemma_strm_update_settles(existing: Option<Seq<char>>, want: Seq<char>)
    ensures
        strm_update(existing, want) matches Some(w) ==> strm_update(Some(w), want) is None,
        strm_update(Some(want), want) is None,
{
    lemma_trim_idempotent(want);
}

/// Cleaning characters keeps prefixes.
proof fn lemma_clean_seq_prefix(a: Seq<char>, b: Seq<char>)
    requires
        starts_with(b, a),
    ensures
        starts_with(clean_seq(b), clean_seq(a)),
{
    lemma_starts_with_split(b, a);
    assert(clean_seq(b).take(a.len() as int) =~= clean_seq(a));
}

/// What is left of a raw name after cleaning is a prefix of what is left of
/// any longer raw name that starts with it.
proof fn lemma_cleaned_component_prefix(a: Seq<char>, b: Seq<char>)
    requires
        starts_with(b, a),
    ensures
        starts_with(cleaned_component(b), cleaned_component(a)),
{
    lemma_trim_prefix(a, b);
    lemma_clean_seq_prefix(trim(a), trim(b));
    lemma_collapse_ws_prefix(clean_seq(trim(a)), clean_seq(trim(b)));
    let ca = collapse_ws(clean_seq(trim(a)));
    let cb = collapse_ws(clean_seq(trim(b)));
    lemma_take_at_most_prefix(ca, cb, max_component_len());
    let ta = take_at_most(ca, max_component_len());
    let tb = take_at_most(cb, max_component_len());
    lemma_trim_prefix(ta, tb);
    lemma_trim_end_set_prefix(trim(ta), trim(tb), tail_junk());
}

/// The directory written for an id is found again by that id: in independent
/// mode, once `resolve_asset_target` has placed a video's metadata in
/// `<root>/<id title>/` with `<stem>.strm` inside, looking the id up among the
/// entries of the root gives that directory and stem back, whatever the video
/// path asked with. It holds when the root is given trimmed, something of the
/// id is left after cleaning, and no other directory of the root whose name
/// starts with the stem holds `<stem>.strm`.
pub proof fn lemma_written_dir_found_again(
    cfg: MetadataStorageConfig,
    local_id: Seq<char>,
    title: Seq<char>,
    video_stem: Seq<char>,
    entries: Seq<RootEntry>,
    k: int,
    other_video: Seq<char>,
)
    requires
        uses_independent_dir(cfg, local_id),
        trim(cfg.root_dir@) == cfg.root_dir@,
        cleaned_component(trim(local_id)).len() > 0,
        0 <= k < entries.len(),
        entries[k].name@ == folder_name(trim(local_id), title),
        entries[k].is_dir,
        entries[k].has_strm,
        forall|j: int|
            0 <= j < entries.len() && j != k ==> !(#[trigger] entries[j]).is_dir || !starts_with(
                entries[j].name@,
                sanitized_component(trim(local_id), video_stem),
            ) || !entries[j].has_strm,
    ensures
        existing_asset_dir(cfg, other_video, local_id, entries) == (
            join(cfg.root_dir@, folder_name(trim(local_id), title)),
            sanitized_component(trim(local_id), video_stem),
        ),
{
    let id = trim(local_id);
    lemma_trim_idempotent(local_id);
    let stem = sanitized_component(id, id);
    assert(stem == cleaned_component(id));
    assert(sanitized_component(id, video_stem) == stem);
    assert(lookup_of(cfg, local_id) == Some((cfg.root_dir@, stem)));
    // the folder name starts with the stem
    let t = trim(title);
    let raw = if t.len() == 0 {
        id
    } else {
        id + seq![' '] + t
    };
    assert(trim(id) == id);
    assert(starts_with(raw, id)) by {
        if t.len() > 0 {
            assert(raw.take(id.len() as int) =~= id);
        } else {
            assert(raw.take(id.len() as int) =~= id);
        }
    }
    lemma_cleaned_component_prefix(id, raw);
    assert(folder_name(id, title) == cleaned_component(raw));
    let f = entry_matches(stem);
    assert(f(entries[k]));
    lemma_first_match(entries, f);
    match first_match(entries, f) {
        Some(i) => {
            if i != k {
                assert(!f(entries[i]));
            }
        },
        None => {
            assert(!f(entries[k]));
        },
    }
}

} // verus!
