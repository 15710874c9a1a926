//! The files that belong to a video: subtitles beside it, its standard
//! artwork, the `extrafanart/` previews, and the directory layout of single and
//! multi-part videos.

use vstd::prelude::*;
use crate::artwork::ArtworkResult;
use crate::designation::{belongs_to_stack, dir_belongs_to_stack, parse_stack_part, stack_part};
use crate::paths::{
    extension, extension_chars, file_name, file_name_chars, file_stem, file_stem_chars, join,
    join_chars, join_str, last_index_of, lemma_join_component, lemma_last_index_of, parent, is_sep, is_bare_drive, last_sep, lemma_last_sep, root_len,
    parent_chars, ext_dot, stem_of_name,
};
use crate::storage::{clean_char, clean_seq, tail_junk};
use crate::text::{
    upper, upper_seq,
    chars_of, concat, eq_ignore_case, eq_ignore_case_chars, is_ctrl_char, lower_chars, lower_seq,
    owned, parse_int, parse_int_chars, same, slice, starts_with, starts_with_chars, starts_with_str,
    string_of, string_views, trim, trim_chars, trim_end_set, trim_end_set_chars, trim_str,
};

verus! {

/// Directory of the preview images of a video.
pub const EXTRAFANART_DIR_NAME: &'static str = "extrafanart";

/// Image extensions of artwork files, in the order they are looked for.
pub open spec fn image_extensions() -> Seq<Seq<char>> {
    seq!["jpg"@, "jpeg"@, "png"@, "webp"@]
}

/// Subtitle file extensions (ASCII case ignored).
pub open spec fn subtitle_extensions() -> Seq<Seq<char>> {
    seq![
        "srt"@,
        "ass"@,
        "ssa"@,
        "vtt"@,
        "sub"@,
        "idx"@,
        "smi"@,
        "sup"@,
        "sbv"@,
        "dfxp"@,
        "ttml"@,
        "scc"@,
        "usf"@,
    ]
}

// ------------------------------------------------------------------
// Subtitles
// ------------------------------------------------------------------

/// Characters that may follow the video stem in a subtitle name.
pub open spec fn is_suffix_separator(c: char) -> bool {
    c == '.' || c == '_' || c == '-' || c == ' ' || c == '[' || c == '('
}

pub fn is_subtitle_suffix_separator(ch: char) -> (r: bool)
    ensures
        r == is_suffix_separator(ch),
{
    ch == '.' || ch == '_' || ch == '-' || ch == ' ' || ch == '[' || ch == '('
}

/// A (lower-cased) subtitle stem belongs to a (lower-cased) video stem: equal,
/// or the video stem followed by a separator (`abc-123.zh`, `abc-123 [chs]`).
pub open spec fn stem_matches(video_lower: Seq<char>, candidate_lower: Seq<char>) -> bool {
    candidate_lower == video_lower || (starts_with(candidate_lower, video_lower)
        && candidate_lower.len() > video_lower.len() && is_suffix_separator(
        candidate_lower[video_lower.len() as int],
    ))
}

fn stem_matches_chars(video_lower: &Vec<char>, candidate_lower: &Vec<char>) -> (r: bool)
    ensures
        r == stem_matches(video_lower@, candidate_lower@),
{
    same(candidate_lower, video_lower) || (starts_with_chars(candidate_lower, video_lower)
        && candidate_lower.len() > video_lower.len() && is_subtitle_suffix_separator(
        candidate_lower[video_lower.len()],
    ))
}

pub fn subtitle_stem_matches(video_stem_lower: &str, candidate_stem_lower: &str) -> (r: bool)
    ensures
        r == stem_matches(video_stem_lower@, candidate_stem_lower@),
{
    let v = chars_of(video_stem_lower);
    let c = chars_of(candidate_stem_lower);
    stem_matches_chars(&v, &c)
}

/// Is `ext` one of `exts`, ASCII case ignored?
pub open spec fn ext_in(ext: Seq<char>, exts: Seq<Seq<char>>) -> bool {
    exists|i: int| 0 <= i < exts.len() && eq_ignore_case(#[trigger] exts[i], ext)
}

fn subtitle_extension_list() -> (r: Vec<Vec<char>>)
    ensures
        crate::text::views(r@) == subtitle_extensions(),
{
    let mut v: Vec<Vec<char>> = Vec::new();
    v.push(chars_of("srt"));
    v.push(chars_of("ass"));
    v.push(chars_of("ssa"));
    v.push(chars_of("vtt"));
    v.push(chars_of("sub"));
    v.push(chars_of("idx"));
    v.push(chars_of("smi"));
    v.push(chars_of("sup"));
    v.push(chars_of("sbv"));
    v.push(chars_of("dfxp"));
    v.push(chars_of("ttml"));
    v.push(chars_of("scc"));
    v.push(chars_of("usf"));
    assert(crate::text::views(v@) =~= subtitle_extensions());
    v
}

fn image_extension_list() -> (r: Vec<Vec<char>>)
    ensures
        crate::text::views(r@) == image_extensions(),
{
    let mut v: Vec<Vec<char>> = Vec::new();
    v.push(chars_of("jpg"));
    v.push(chars_of("jpeg"));
    v.push(chars_of("png"));
    v.push(chars_of("webp"));
    assert(crate::text::views(v@) =~= image_extensions());
    v
}

fn ext_in_chars(ext: &Vec<char>, exts: &Vec<Vec<char>>) -> (r: bool)
    ensures
        r == ext_in(ext@, crate::text::views(exts@)),
{
    let mut i: usize = 0;
    while i < exts.len()
        invariant
            i <= exts.len(),
            forall|k: int|
                0 <= k < i ==> !eq_ignore_case(#[trigger] crate::text::views(exts@)[k], ext@),
        decreases exts.len() - i,
    {
        assert(crate::text::views(exts@)[i as int] == exts@[i as int]@);
        if eq_ignore_case_chars(&exts[i], ext) {
            return true;
        }
        i += 1;
    }
    false
}

/// Is `ext` a subtitle extension?
pub fn is_subtitle_extension(ext: &str) -> (r: bool)
    ensures
        r == ext_in(ext@, subtitle_extensions()),
{
    let e = chars_of(ext);
    let list = subtitle_extension_list();
    ext_in_chars(&e, &list)
}

/// The lower-cased stem of a subtitle file; `None` for any other file.
pub open spec fn subtitle_stem_of(path: Seq<char>) -> Option<Seq<char>> {
    match extension(path) {
        Some(e) => if ext_in(e, subtitle_extensions()) {
            match file_stem(path) {
                Some(s) => Some(lower_seq(s)),
                None => None,
            }
        } else {
            None
        },
        None => None,
    }
}

fn subtitle_stem_chars(path: &Vec<char>) -> (r: Option<Vec<char>>)
    ensures
        match subtitle_stem_of(path@) {
            Some(s) => r matches Some(x) && x@ == s,
            None => r is None,
        },
{
    let e = match extension_chars(path) {
        Some(e) => e,
        None => {
            return None;
        },
    };
    let list = subtitle_extension_list();
    if !ext_in_chars(&e, &list) {
        return None;
    }
    match file_stem_chars(path) {
        Some(s) => Some(lower_chars(&s)),
        None => None,
    }
}

/// The lower-cased stems of the subtitle files among the files of a directory
/// (listed once, shared by all videos in it).
pub open spec fn subtitle_stems(paths: Seq<Seq<char>>) -> Seq<Seq<char>>
    decreases paths.len(),
{
    if paths.len() == 0 {
        Seq::empty()
    } else {
        let r = subtitle_stems(paths.drop_last());
        match subtitle_stem_of(paths.last()) {
            Some(s) => r.push(s),
            None => r,
        }
    }
}

pub fn collect_subtitle_stems(paths: &Vec<String>) -> (r: Vec<String>)
    ensures
        string_views(r@) == subtitle_stems(string_views(paths@)),
{
    let ghost pv = string_views(paths@);
    let mut out: Vec<String> = Vec::new();
    let mut i: usize = 0;
    while i < paths.len()
        invariant
            i <= paths.len(),
            pv == string_views(paths@),
            string_views(out@) == subtitle_stems(pv.take(i as int)),
        decreases paths.len() - i,
    {
        assert(pv.take(i + 1).drop_last() =~= pv.take(i as int));
        let p = chars_of(paths[i].as_str());
        assert(pv[i as int] == p@);
        match subtitle_stem_chars(&p) {
            Some(s) => {
                let ghost before = string_views(out@);
                out.push(string_of(&s));
                assert(string_views(out@) =~= before.push(s@));
            },
            None => {},
        }
        i += 1;
    }
    assert(pv.take(paths.len() as int) =~= pv);
    out
}

/// Some subtitle stem of the directory belongs to the video stem.
pub open spec fn has_matching_subtitle(stems_lower: Seq<Seq<char>>, video_stem: Seq<char>) -> bool {
    exists|i: int| 0 <= i < stems_lower.len() && stem_matches(lower_seq(video_stem), #[trigger] stems_lower[i])
}

pub fn stem_has_matching_subtitle(subtitle_stems_lower: &Vec<String>, video_stem: &str) -> (r: bool)
    ensures
        r == has_matching_subtitle(string_views(subtitle_stems_lower@), video_stem@),
{
    let v = chars_of(video_stem);
    let vl = lower_chars(&v);
    let mut i: usize = 0;
    while i < subtitle_stems_lower.len()
        invariant
            i <= subtitle_stems_lower.len(),
            vl@ == lower_seq(video_stem@),
            forall|k: int|
                0 <= k < i ==> !stem_matches(
                    lower_seq(video_stem@),
                    #[trigger] string_views(subtitle_stems_lower@)[k],
                ),
        decreases subtitle_stems_lower.len() - i,
    {
        let c = chars_of(subtitle_stems_lower[i].as_str());
        assert(string_views(subtitle_stems_lower@)[i as int] == c@);
        if stem_matches_chars(&vl, &c) {
            return true;
        }
        i += 1;
    }
    false
}

/// `candidate` is a subtitle of the video: same directory, a subtitle
/// extension, and a stem that belongs to the video stem (ASCII case ignored).
pub open spec fn is_subtitle_of(video: Seq<char>, candidate: Seq<char>) -> bool {
    &&& parent(video) is Some
    &&& parent(candidate) is Some
    &&& parent(video) == parent(candidate)
    &&& extension(candidate) matches Some(e) && ext_in(e, subtitle_extensions())
    &&& file_stem(video) is Some
    &&& file_stem(candidate) is Some
    &&& stem_matches(lower_seq(file_stem(video)->0), lower_seq(file_stem(candidate)->0))
}

fn is_subtitle_of_chars(video: &Vec<char>, candidate: &Vec<char>) -> (r: bool)
    ensures
        r == is_subtitle_of(video@, candidate@),
{
    let vp = match parent_chars(video) {
        Some(p) => p,
        None => {
            return false;
        },
    };
    let cp = match parent_chars(candidate) {
        Some(p) => p,
        None => {
            return false;
        },
    };
    if !same(&vp, &cp) {
        return false;
    }
    let e = match extension_chars(candidate) {
        Some(e) => e,
        None => {
            return false;
        },
    };
    let list = subtitle_extension_list();
    if !ext_in_chars(&e, &list) {
        return false;
    }
    let vs = match file_stem_chars(video) {
        Some(s) => s,
        None => {
            return false;
        },
    };
    let cs = match file_stem_chars(candidate) {
        Some(s) => s,
        None => {
            return false;
        },
    };
    let vl = lower_chars(&vs);
    let cl = lower_chars(&cs);
    stem_matches_chars(&vl, &cl)
}

/// Is `candidate` a subtitle file of the video?
pub fn is_matching_subtitle_file(video_path: &str, candidate: &str) -> (r: bool)
    ensures
        r == is_subtitle_of(video_path@, candidate@),
{
    let v = chars_of(video_path);
    let c = chars_of(candidate);
    is_subtitle_of_chars(&v, &c)
}

// ------------------------------------------------------------------
// Directory layout
// ------------------------------------------------------------------

/// The name of the directory that holds a path.
pub open spec fn parent_name(p: Seq<char>) -> Option<Seq<char>> {
    match parent(p) {
        Some(d) => file_name(d),
        None => None,
    }
}

fn parent_name_chars(p: &Vec<char>) -> (r: Option<Vec<char>>)
    ensures
        match parent_name(p@) {
            Some(n) => r matches Some(x) && x@ == n,
            None => r is None,
        },
{
    match parent_chars(p) {
        Some(d) => file_name_chars(&d),
        None => None,
    }
}

/// The video sits in a directory named like its stem (ASCII case ignored).
pub open spec fn in_same_named_dir(video: Seq<char>) -> bool {
    parent_name(video) is Some && file_stem(video) is Some && eq_ignore_case(
        parent_name(video)->0,
        file_stem(video)->0,
    )
}

pub fn has_same_named_parent_dir(video_path: &str) -> (r: bool)
    ensures
        r == in_same_named_dir(video_path@),
{
    let v = chars_of(video_path);
    let pn = match parent_name_chars(&v) {
        Some(n) => n,
        None => {
            return false;
        },
    };
    let st = match file_stem_chars(&v) {
        Some(s) => s,
        None => {
            return false;
        },
    };
    eq_ignore_case_chars(&pn, &st)
}

/// A part of a multi-part video already sits in its group's directory (named
/// like the base or like one of the parts).
pub open spec fn in_group_dir(video: Seq<char>) -> bool {
    match file_stem(video) {
        Some(s) => match stack_part(s) {
            Some((base, _)) => match parent_name(video) {
                Some(n) => belongs_to_stack(n, base),
                None => false,
            },
            None => false,
        },
        None => false,
    }
}

pub fn is_stack_part_in_grouped_dir(video_path: &str) -> (r: bool)
    ensures
        r == in_group_dir(video_path@),
{
    let v = chars_of(video_path);
    let st = match file_stem_chars(&v) {
        Some(s) => string_of(&s),
        None => {
            return false;
        },
    };
    let base = match parse_stack_part(st.as_str()) {
        Some((b, _)) => b,
        None => {
            return false;
        },
    };
    match parent_name_chars(&v) {
        Some(n) => {
            let ns = string_of(&n);
            dir_belongs_to_stack(ns.as_str(), base.as_str())
        },
        None => false,
    }
}

/// Directory name of the group of a multi-part video: the base as written in
/// the file name (the leading characters, when they equal the base up to
/// ASCII case), else the upper-cased base; `None` for other videos.
pub open spec fn group_dir_name(stem: Seq<char>) -> Option<Seq<char>> {
    match stack_part(stem) {
        Some((base, _)) => if base.len() <= stem.len() && eq_ignore_case(
            stem.take(base.len() as int),
            base,
        ) {
            Some(stem.take(base.len() as int))
        } else {
            Some(base)
        },
        None => None,
    }
}

pub fn stack_group_dir_name(file_stem: &str) -> (r: Option<String>)
    ensures
        match group_dir_name(file_stem@) {
            Some(n) => r matches Some(x) && x@ == n,
            None => r is None,
        },
{
    let (base, _) = match parse_stack_part(file_stem) {
        Some(p) => p,
        None => {
            return None;
        },
    };
    let s = chars_of(file_stem);
    let b = chars_of(base.as_str());
    if b.len() <= s.len() {
        let head = slice(&s, 0, b.len());
        assert(head@ =~= s@.take(b@.len() as int));
        if eq_ignore_case_chars(&head, &b) {
            return Some(string_of(&head));
        }
    }
    Some(base)
}

// ------------------------------------------------------------------
// Titles as file names
// ------------------------------------------------------------------

/// A title made into a file name: trimmed, reserved characters replaced,
/// trimmed again, without trailing dots and spaces.
pub open spec fn title_file_name(title: Seq<char>) -> Seq<char> {
    trim_end_set(trim(clean_seq(trim(title))), tail_junk())
}

/// A title made into a file name; an error when nothing is left of it.
pub fn sanitize_title_for_path(title: &str) -> (r: Result<String, String>)
    ensures
        title_file_name(title@).len() > 0 ==> (r matches Ok(s) && s@ == title_file_name(title@)),
        title_file_name(title@).len() == 0 ==> (r matches Err(e) && e@ == "标题为空或包含非法字符，无法作为文件名"@),
{
    let t = trim_str(title);
    let mut c: Vec<char> = Vec::new();
    let mut i: usize = 0;
    while i < t.len()
        invariant
            i <= t.len(),
            c@ == clean_seq(t@.take(i as int)),
        decreases t.len() - i,
    {
        let ch = t[i];
        let d = if ch == '<' || ch == '>' || ch == ':' || ch == '"' || ch == '/' || ch == '\\' || ch
            == '|' || ch == '?' || ch == '*' {
            '_'
        } else if is_ctrl_char(ch) {
            ' '
        } else {
            ch
        };
        c.push(d);
        i += 1;
        assert(c@ =~= clean_seq(t@.take(i as int)));
    }
    assert(t@.take(t.len() as int) =~= t@);
    let t2 = trim_chars(&c);
    let mut junk: Vec<char> = Vec::new();
    junk.push('.');
    junk.push(' ');
    assert(junk@ =~= tail_junk());
    let out = trim_end_set_chars(&t2, &junk);
    if out.len() == 0 {
        Err(owned("标题为空或包含非法字符，无法作为文件名"))
    } else {
        Ok(string_of(&out))
    }
}

// ------------------------------------------------------------------
// Artwork and preview files
// ------------------------------------------------------------------

/// Two paths name the same file: the same text, or, on a file system that
/// ignores case, the same text up to ASCII case.
pub open spec fn same_fs_path(a: Seq<char>, b: Seq<char>, case_insensitive: bool) -> bool {
    if case_insensitive {
        eq_ignore_case(a, b)
    } else {
        a == b
    }
}

pub fn is_same_path_for_fs(left: &str, right: &str, case_insensitive: bool) -> (r: bool)
    ensures
        r == same_fs_path(left@, right@, case_insensitive),
{
    let a = chars_of(left);
    let b = chars_of(right);
    if case_insensitive {
        eq_ignore_case_chars(&a, &b)
    } else {
        same(&a, &b)
    }
}

/// `<dir>/<stem>-<suffix>.<ext of source>`; `None` when the source has no
/// extension.
pub open spec fn artwork_target(source: Seq<char>, dir: Seq<char>, stem: Seq<char>, suffix: Seq<char>) -> Option<Seq<char>> {
    match extension(source) {
        Some(e) => Some(join(dir, stem + seq!['-'] + suffix + seq!['.'] + e)),
        None => None,
    }
}

pub fn build_artwork_target_path(source: &str, target_dir: &str, new_stem: &str, suffix: &str) -> (r: Option<String>)
    ensures
        match artwork_target(source@, target_dir@, new_stem@, suffix@) {
            Some(t) => r matches Some(x) && x@ == t,
            None => r is None,
        },
{
    let s = chars_of(source);
    let e = match extension_chars(&s) {
        Some(e) => e,
        None => {
            return None;
        },
    };
    let stem = chars_of(new_stem);
    let suf = chars_of(suffix);
    let mut dash: Vec<char> = Vec::new();
    dash.push('-');
    let mut dot: Vec<char> = Vec::new();
    dot.push('.');
    assert(dash@ =~= seq!['-']);
    assert(dot@ =~= seq!['.']);
    let a = concat(&stem, &dash);
    let b = concat(&a, &suf);
    let c = concat(&b, &dot);
    let name = concat(&c, &e);
    let d = chars_of(target_dir);
    let p = join_chars(&d, &name);
    Some(string_of(&p))
}

/// The artwork file names looked for, in order: `<stem>-<suffix>.<ext>` for
/// each image extension.
pub open spec fn artwork_names(stem: Seq<char>, suffix: Seq<char>) -> Seq<Seq<char>> {
    image_extensions().map_values(|e: Seq<char>| stem + seq!['-'] + suffix + seq!['.'] + e)
}

pub fn artwork_file_candidates(stem: &str, suffix: &str) -> (r: Vec<String>)
    ensures
        string_views(r@) == artwork_names(stem@, suffix@),
{
    let exts = image_extension_list();
    let st = chars_of(stem);
    let suf = chars_of(suffix);
    let mut dash: Vec<char> = Vec::new();
    dash.push('-');
    let mut dot: Vec<char> = Vec::new();
    dot.push('.');
    assert(dash@ =~= seq!['-']);
    assert(dot@ =~= seq!['.']);
    let a = concat(&st, &dash);
    let b = concat(&a, &suf);
    let head = concat(&b, &dot);
    let mut out: Vec<String> = Vec::new();
    let mut i: usize = 0;
    while i < exts.len()
        invariant
            i <= exts.len(),
            crate::text::views(exts@) == image_extensions(),
            head@ == stem@ + seq!['-'] + suffix@ + seq!['.'],
            string_views(out@) == artwork_names(stem@, suffix@).take(i as int),
        decreases exts.len() - i,
    {
        assert(crate::text::views(exts@)[i as int] == exts@[i as int]@);
        let n = concat(&head, &exts[i]);
        let ghost before = string_views(out@);
        out.push(string_of(&n));
        assert(string_views(out@) =~= before.push(n@));
        assert(artwork_names(stem@, suffix@)[i as int] == n@);
        i += 1;
        assert(string_views(out@) =~= artwork_names(stem@, suffix@).take(i as int));
    }
    assert(artwork_names(stem@, suffix@).take(4) =~= artwork_names(stem@, suffix@));
    out
}

/// The artwork paths beside a video, in the order they are looked for; none
/// when the video has no directory or stem.
pub open spec fn sibling_artwork_paths(video: Seq<char>, suffix: Seq<char>) -> Seq<Seq<char>> {
    match (parent(video), file_stem(video)) {
        (Some(d), Some(s)) => artwork_names(s, suffix).map_values(|n: Seq<char>| join(d, n)),
        _ => Seq::empty(),
    }
}

pub fn sibling_artwork_candidates(video_path: &str, suffix: &str) -> (r: Vec<String>)
    ensures
        string_views(r@) == sibling_artwork_paths(video_path@, suffix@),
{
    let v = chars_of(video_path);
    let d = match parent_chars(&v) {
        Some(d) => d,
        None => {
            return Vec::new();
        },
    };
    let s = match file_stem_chars(&v) {
        Some(s) => string_of(&s),
        None => {
            return Vec::new();
        },
    };
    let names = artwork_file_candidates(s.as_str(), suffix);
    let ghost nv = string_views(names@);
    let mut out: Vec<String> = Vec::new();
    let mut i: usize = 0;
    while i < names.len()
        invariant
            i <= names.len(),
            nv == string_views(names@),
            string_views(out@) == nv.map_values(|n: Seq<char>| join(d@, n)).take(i as int),
        decreases names.len() - i,
    {
        let n = chars_of(names[i].as_str());
        assert(nv[i as int] == n@);
        let p = join_chars(&d, &n);
        let ghost before = string_views(out@);
        out.push(string_of(&p));
        assert(string_views(out@) =~= before.push(p@));
        i += 1;
        assert(string_views(out@) =~= nv.map_values(|n: Seq<char>| join(d@, n)).take(i as int));
    }
    assert(nv.map_values(|n: Seq<char>| join(d@, n)).take(names.len() as int) =~= nv.map_values(
        |n: Seq<char>| join(d@, n),
    ));
    out
}

/// `<dir>/extrafanart`.
pub fn extrafanart_dir_in(asset_dir: &str) -> (r: String)
    ensures
        r@ == join(asset_dir@, EXTRAFANART_DIR_NAME@),
{
    let d = chars_of(asset_dir);
    let p = join_str(&d, EXTRAFANART_DIR_NAME);
    string_of(&p)
}

/// The `extrafanart` directory beside a video.
pub fn extrafanart_dir_for_video(video_path: &str) -> (r: Result<String, String>)
    ensures
        match parent(video_path@) {
            Some(d) => r matches Ok(x) && x@ == join(d, EXTRAFANART_DIR_NAME@),
            None => r matches Err(e) && e@ == "无效的视频路径"@,
        },
{
    let v = chars_of(video_path);
    match parent_chars(&v) {
        Some(d) => {
            let ds = string_of(&d);
            Ok(extrafanart_dir_in(ds.as_str()))
        },
        None => Err(owned("无效的视频路径")),
    }
}

/// A supported image: extension `jpg`, `jpeg`, `png` or `webp` (ASCII case
/// ignored).
pub open spec fn is_image_path(path: Seq<char>) -> bool {
    extension(path) matches Some(e) && ext_in(e, image_extensions())
}

pub fn is_supported_image_file(path: &str) -> (r: bool)
    ensures
        r == is_image_path(path@),
{
    let p = chars_of(path);
    match extension_chars(&p) {
        Some(e) => {
            let list = image_extension_list();
            ext_in_chars(&e, &list)
        },
        None => false,
    }
}

/// The number of a preview file `fanart<N>.<ext>`.
pub open spec fn fanart_index(path: Seq<char>) -> Option<int> {
    match file_stem(path) {
        Some(s) => if starts_with(s, "fanart"@) {
            parse_int(s.skip(6), 0, usize::MAX as int)
        } else {
            None
        },
        None => None,
    }
}

pub fn parse_fanart_index(path: &str) -> (r: Option<usize>)
    ensures
        match fanart_index(path@) {
            Some(v) => r matches Some(x) && x as int == v,
            None => r is None,
        },
{
    let p = chars_of(path);
    let s = match file_stem_chars(&p) {
        Some(s) => s,
        None => {
            return None;
        },
    };
    proof {
        reveal_strlit("fanart");
    }
    if !starts_with_str(&s, "fanart") {
        return None;
    }
    let rest = slice(&s, 6, s.len());
    assert(rest@ =~= s@.skip(6));
    match parse_int_chars(&rest, 0, usize::MAX as i128) {
        Some(v) => Some(v as usize),
        None => None,
    }
}

/// The previews among the files of an `extrafanart` directory, with their
/// numbers, in listing order.
pub open spec fn fanart_entries(paths: Seq<Seq<char>>) -> Seq<(int, Seq<char>)>
    decreases paths.len(),
{
    if paths.len() == 0 {
        Seq::empty()
    } else {
        let r = fanart_entries(paths.drop_last());
        let p = paths.last();
        if is_image_path(p) && fanart_index(p) is Some {
            r.push((fanart_index(p)->0, p))
        } else {
            r
        }
    }
}

/// `x` inserted after every entry whose number is not greater (stable).
pub open spec fn insert_by_index(x: (int, Seq<char>), s: Seq<(int, Seq<char>)>) -> Seq<(int, Seq<char>)>
    decreases s.len(),
{
    if s.len() == 0 {
        seq![x]
    } else if x.0 < s[0].0 {
        seq![x] + s
    } else {
        seq![s[0]] + insert_by_index(x, s.drop_first())
    }
}

/// The entries stably sorted by number.
pub open spec fn sort_by_index(s: Seq<(int, Seq<char>)>) -> Seq<(int, Seq<char>)>
    decreases s.len(),
{
    if s.len() == 0 {
        Seq::empty()
    } else {
        insert_by_index(s.last(), sort_by_index(s.drop_last()))
    }
}

pub open spec fn entry_views(v: Seq<(usize, String)>) -> Seq<(int, Seq<char>)> {
    v.map_values(|e: (usize, String)| (e.0 as int, e.1@))
}

proof fn lemma_insert_by_index_at(x: (int, Seq<char>), s: Seq<(int, Seq<char>)>, p: int)
    requires
        0 <= p <= s.len(),
        forall|i: int| 0 <= i < p ==> !(x.0 < #[trigger] s[i].0),
        p < s.len() ==> x.0 < s[p].0,
    ensures
        insert_by_index(x, s) == s.insert(p, x),
    decreases s.len(),
{
    if s.len() == 0 {
        assert(s.insert(p, x) =~= seq![x]);
    } else if p == 0 {
        assert(s.insert(0, x) =~= seq![x] + s);
    } else {
        let t = s.drop_first();
        assert forall|i: int| 0 <= i < p - 1 implies !(x.0 < #[trigger] t[i].0) by {
            assert(t[i] == s[i + 1]);
        }
        if p - 1 < t.len() {
            assert(t[p - 1] == s[p]);
        }
        lemma_insert_by_index_at(x, t, p - 1);
        assert(seq![s[0]] + t.insert(p - 1, x) =~= s.insert(p, x));
    }
}

/// The previews of an `extrafanart` directory listing (`paths` are the files
/// in it), ordered by number.
pub fn collect_extrafanart_entries(paths: &Vec<String>) -> (r: Vec<(usize, String)>)
    ensures
        entry_views(r@) == sort_by_index(fanart_entries(string_views(paths@))),
{
    let ghost pv = string_views(paths@);
    let ghost found: Seq<(int, Seq<char>)> = Seq::empty();
    let mut sorted: Vec<(usize, String)> = Vec::new();
    let mut i: usize = 0;
    while i < paths.len()
        invariant
            i <= paths.len(),
            pv == string_views(paths@),
            found == fanart_entries(pv.take(i as int)),
            entry_views(sorted@) == sort_by_index(found),
        decreases paths.len() - i,
    {
        assert(pv.take(i + 1).drop_last() =~= pv.take(i as int));
        assert(pv[i as int] == paths@[i as int]@);
        let p = paths[i].as_str();
        if is_supported_image_file(p) {
            match parse_fanart_index(p) {
                Some(idx) => {
                    let ghost x = (idx as int, p@);
                    let mut k: usize = 0;
                    while k < sorted.len() && !(idx < sorted[k].0)
                        invariant
                            k <= sorted.len(),
                            forall|j: int| 0 <= j < k ==> !(x.0 < #[trigger] entry_views(sorted@)[j].0),
                            x == (idx as int, p@),
                        decreases sorted.len() - k,
                    {
                        assert(entry_views(sorted@)[k as int].0 == sorted@[k as int].0 as int);
                        k += 1;
                    }
                    if k < sorted.len() {
                        assert(entry_views(sorted@)[k as int].0 == sorted@[k as int].0 as int);
                    }
                    proof {
                        lemma_insert_by_index_at(x, entry_views(sorted@), k as int);
                    }
                    let ghost before = sorted@;
                    sorted.insert(k, (idx, paths[i].clone()));
                    assert(entry_views(sorted@) =~= entry_views(before).insert(k as int, x));
                    proof {
                        found = found.push(x);
                    }
                    assert(found == fanart_entries(pv.take(i + 1)));
                    assert(found.drop_last() =~= fanart_entries(pv.take(i as int)));
                    assert(found.last() == x);
                    assert(sort_by_index(found) == insert_by_index(x, sort_by_index(found.drop_last())));
                },
                None => {},
            }
        }
        i += 1;
    }
    assert(pv.take(paths.len() as int) =~= pv);
    sorted
}

/// The largest number among the previews, if any.
pub open spec fn max_index(s: Seq<(usize, String)>) -> Option<int>
    decreases s.len(),
{
    if s.len() == 0 {
        None
    } else {
        let m = max_index(s.drop_last());
        let v = s.last().0 as int;
        match m {
            Some(x) => if x < v {
                Some(v)
            } else {
                Some(x)
            },
            None => Some(v),
        }
    }
}

/// Every number is at most the largest one.
pub proof fn lemma_max_index_bounds(s: Seq<(usize, String)>)
    ensures
        max_index(s) matches Some(m) ==> forall|i: int| 0 <= i < s.len() ==> (#[trigger] s[i]).0 <= m,
        s.len() > 0 ==> max_index(s) is Some,
    decreases s.len(),
{
    if s.len() > 0 {
        lemma_max_index_bounds(s.drop_last());
        assert forall|i: int| 0 <= i < s.len() - 1 implies s[i] == s.drop_last()[i] by {}
    }
}

/// The previews come out ordered by their numbers.
pub proof fn lemma_sort_by_index_sorted(s: Seq<(int, Seq<char>)>)
    ensures
        sort_by_index(s).len() == s.len(),
        forall|i: int, j: int| 0 <= i < j < sort_by_index(s).len() ==> (#[trigger] sort_by_index(s)[i]).0
            <= (#[trigger] sort_by_index(s)[j]).0,
    decreases s.len(),
{
    if s.len() > 0 {
        lemma_sort_by_index_sorted(s.drop_last());
        lemma_insert_by_index_sorted(s.last(), sort_by_index(s.drop_last()));
    }
}

proof fn lemma_insert_by_index_sorted(x: (int, Seq<char>), s: Seq<(int, Seq<char>)>)
    requires
        forall|i: int, j: int| 0 <= i < j < s.len() ==> (#[trigger] s[i]).0 <= (#[trigger] s[j]).0,
    ensures
        insert_by_index(x, s).len() == s.len() + 1,
        forall|i: int, j: int| 0 <= i < j < insert_by_index(x, s).len() ==> (#[trigger] insert_by_index(x, s)[i]).0
            <= (#[trigger] insert_by_index(x, s)[j]).0,
        forall|i: int| 0 <= i < insert_by_index(x, s).len() ==> (#[trigger] insert_by_index(x, s)[i]).0 == x.0
            || (s.len() > 0 && s[0].0 <= insert_by_index(x, s)[i].0),
    decreases s.len(),
{
    if s.len() == 0 {
    } else if x.0 < s[0].0 {
        let r = seq![x] + s;
        assert forall|i: int, j: int| 0 <= i < j < r.len() implies (#[trigger] r[i]).0 <= (#[trigger] r[j]).0 by {
            if i == 0 {
                assert(r[j] == s[j - 1]);
                assert(s[0].0 <= s[j - 1].0);
            } else {
                assert(r[i] == s[i - 1] && r[j] == s[j - 1]);
            }
        }
        assert forall|i: int| 0 <= i < r.len() implies (#[trigger] r[i]).0 == x.0 || (s.len() > 0 && s[0].0 <= r[i].0) by {
            if i > 0 {
                assert(r[i] == s[i - 1]);
                if i - 1 > 0 {
                    assert(s[0].0 <= s[i - 1].0);
                }
            }
        }
    } else {
        let t = s.drop_first();
        assert forall|i: int, j: int| 0 <= i < j < t.len() implies (#[trigger] t[i]).0 <= (#[trigger] t[j]).0 by {
            assert(t[i] == s[i + 1] && t[j] == s[j + 1]);
        }
        lemma_insert_by_index_sorted(x, t);
        let q = insert_by_index(x, t);
        let r = seq![s[0]] + q;
        assert forall|i: int, j: int| 0 <= i < j < r.len() implies (#[trigger] r[i]).0 <= (#[trigger] r[j]).0 by {
            if i == 0 {
                assert(r[j] == q[j - 1]);
                if q[j - 1].0 != x.0 {
                    assert(t.len() > 0 && t[0].0 <= q[j - 1].0);
                    assert(t[0] == s[1]);
                }
            } else {
                assert(r[i] == q[i - 1] && r[j] == q[j - 1]);
            }
        }
        assert forall|i: int| 0 <= i < r.len() implies (#[trigger] r[i]).0 == x.0 || (s.len() > 0 && s[0].0 <= r[i].0) by {
            if i > 0 {
                assert(r[i] == q[i - 1]);
                if q[i - 1].0 != x.0 {
                    assert(t[0] == s[1]);
                }
            }
        }
    }
}

/// The next number is above every number in use, so a new preview never
/// overwrites an existing one.
pub proof fn lemma_next_index_is_fresh(entries: Seq<(usize, String)>)
    ensures
        forall|i: int| 0 <= i < entries.len() ==> (#[trigger] entries[i]).0 < match max_index(entries) {
            Some(m) => m + 1,
            None => 1,
        },
{
    lemma_max_index_bounds(entries);
}

/// The number of the next preview: one past the largest, 1 when there is
/// none (previews are appended, never overwritten).
pub fn next_extrafanart_index(entries: &Vec<(usize, String)>) -> (r: usize)
    requires
        forall|i: int| 0 <= i < entries@.len() ==> (#[trigger] entries@[i]).0 < usize::MAX,
    ensures
        r as int == match max_index(entries@) {
            Some(m) => m + 1,
            None => 1,
        },
{
    let mut best: Option<usize> = None;
    let mut i: usize = 0;
    while i < entries.len()
        invariant
            i <= entries.len(),
            forall|k: int| 0 <= k < entries@.len() ==> (#[trigger] entries@[k]).0 < usize::MAX,
            match max_index(entries@.take(i as int)) {
                Some(m) => best matches Some(b) && b as int == m,
                None => best is None,
            },
            best matches Some(b) ==> b < usize::MAX,
        decreases entries.len() - i,
    {
        assert(entries@.take(i + 1).drop_last() =~= entries@.take(i as int));
        let v = entries[i].0;
        best = match best {
            Some(b) => if b < v {
                Some(v)
            } else {
                Some(b)
            },
            None => Some(v),
        };
        i += 1;
    }
    assert(entries@.take(entries.len() as int) =~= entries@);
    match best {
        Some(b) => b + 1,
        None => 1,
    }
}

} // verus!

verus! {

// ------------------------------------------------------------------
// Moving and renaming a video with its files
// ------------------------------------------------------------------

/// Where a video and its files went after a move or a rename.
#[derive(Debug, Clone)]
pub struct RelocatedVideoAssets {
    pub original_video_path: String,
    pub video_path: String,
    pub dir_path: String,
    pub poster: Option<String>,
    pub thumb: Option<String>,
    pub fanart: Option<String>,
    /// Other parts of a multi-part video moved along into the group directory.
    pub moved_siblings: Vec<MovedStackSibling>,
}

/// Another part of a multi-part video moved into the group directory.
#[derive(Debug, Clone)]
pub struct MovedStackSibling {
    pub original_video_path: String,
    pub video_path: String,
}

/// One move of a file or directory.
#[derive(Debug, Clone)]
pub struct PendingRenameOperation {
    pub source: String,
    pub target: String,
    pub is_dir: bool,
}

/// The moves that rename a video after a title, in the order they are made,
/// and where everything ends up.
#[derive(Debug, Clone)]
pub struct RenamePlan {
    pub operations: Vec<PendingRenameOperation>,
    pub assets: RelocatedVideoAssets,
}

pub open spec fn op_view(o: PendingRenameOperation) -> (Seq<char>, Seq<char>, bool) {
    (o.source@, o.target@, o.is_dir)
}

pub open spec fn op_views(v: Seq<PendingRenameOperation>) -> Seq<(Seq<char>, Seq<char>, bool)> {
    v.map_values(|o: PendingRenameOperation| op_view(o))
}

pub open spec fn opt_seq(o: Option<String>) -> Option<Seq<char>> {
    match o {
        Some(s) => Some(s@),
        None => None,
    }
}

/// Where the metadata of a title rename goes, before any file is looked at.
pub struct RenameLayout {
    pub old_dir: Seq<char>,
    pub old_stem: Seq<char>,
    pub new_stem: Seq<char>,
    pub rename_parent: bool,
    pub already_in_target: bool,
    pub target_dir: Seq<char>,
    pub current_video: Seq<char>,
    pub new_video: Seq<char>,
}

/// The name of the renamed video file: the new stem with the old extension.
pub open spec fn renamed_file_name(video: Seq<char>, new_stem: Seq<char>) -> Seq<char> {
    match extension(video) {
        Some(e) => if e.len() > 0 {
            new_stem + seq!['.'] + e
        } else {
            new_stem
        },
        None => new_stem,
    }
}

/// The layout of a title rename, or why there is none (`Err` with the
/// message), or `Ok(None)` when the video is a part of a multi-part video
/// (its name must stay in line with the other parts).
///
/// The directory is renamed along when it is named like the video; a video
/// already in a directory named like the title stays there; any other video
/// goes into a new directory named like the title.
pub open spec fn rename_layout(video: Seq<char>, new_title: Seq<char>) -> Result<Option<RenameLayout>, Seq<char>> {
    match parent(video) {
        None => Err("无效的视频路径"@),
        Some(old_dir) => match file_stem(video) {
            None => Err("无效的视频文件名"@),
            Some(old_stem) => if stack_part(old_stem) is Some {
                Ok(None)
            } else if title_file_name(new_title).len() == 0 {
                Err("标题为空或包含非法字符，无法作为文件名"@)
            } else {
                let new_stem = title_file_name(new_title);
                let pname = file_name(old_dir);
                let already = pname is Some && eq_ignore_case(pname->0, new_stem);
                let rename_parent = pname is Some && eq_ignore_case(pname->0, old_stem);
                if !already && rename_parent && parent(old_dir) is None {
                    Err("无效的父目录"@)
                } else {
                    let target_dir = if already {
                        old_dir
                    } else if rename_parent {
                        join(parent(old_dir)->0, new_stem)
                    } else {
                        join(old_dir, new_stem)
                    };
                    let current = if rename_parent {
                        crate::paths::remap_after_dir_rename(video, old_dir, target_dir)
                    } else {
                        video
                    };
                    Ok(
                        Some(
                            RenameLayout {
                                old_dir,
                                old_stem,
                                new_stem,
                                rename_parent,
                                already_in_target: already,
                                target_dir,
                                current_video: current,
                                new_video: join(target_dir, renamed_file_name(video, new_stem)),
                            },
                        ),
                    )
                }
            },
        },
    }
}

/// An artwork file after the directory move (when it lay in the old
/// directory), and its renamed target.
pub open spec fn moved_artwork(l: RenameLayout, source: Option<Seq<char>>, suffix: Seq<char>) -> (Option<Seq<char>>, Option<Seq<char>>) {
    match source {
        Some(s) => {
            let m = crate::paths::remap_after_dir_rename(s, l.old_dir, l.target_dir);
            (Some(m), artwork_target(m, l.target_dir, l.new_stem, suffix))
        },
        None => (None, None),
    }
}

/// The move of an optional file, unless source and target are the same.
pub open spec fn optional_move(pair: (Option<Seq<char>>, Option<Seq<char>>), ci: bool) -> Seq<(Seq<char>, Seq<char>, bool)> {
    match pair {
        (Some(s), Some(t)) => if same_fs_path(s, t, ci) {
            Seq::empty()
        } else {
            seq![(s, t, false)]
        },
        _ => Seq::empty(),
    }
}

/// The part of a subtitle stem that follows the video stem (kept as written).
pub open spec fn subtitle_suffix(candidate_stem: Seq<char>, video_stem: Seq<char>) -> Seq<char> {
    if video_stem.len() <= candidate_stem.len() && lower_seq(candidate_stem.take(video_stem.len() as int))
        == lower_seq(video_stem) {
        candidate_stem.skip(video_stem.len() as int)
    } else {
        Seq::empty()
    }
}

/// The rename of one file of the directory when it is a subtitle of the
/// video: into the target directory, the new stem with the subtitle's own
/// suffix and extension.
pub open spec fn subtitle_move(
    old_dir: Seq<char>,
    old_stem: Seq<char>,
    target_dir: Seq<char>,
    new_stem: Seq<char>,
    rename_parent: bool,
    video: Seq<char>,
    c: Seq<char>,
    ci: bool,
) -> Seq<(Seq<char>, Seq<char>, bool)> {
    if is_subtitle_of(video, c) {
        let ext = extension(c)->0;
        let suffix = subtitle_suffix(file_stem(c)->0, old_stem);
        let source = if rename_parent {
            crate::paths::remap_after_dir_rename(c, old_dir, target_dir)
        } else {
            c
        };
        let target = join(target_dir, new_stem + suffix + seq!['.'] + ext);
        if same_fs_path(source, target, ci) {
            Seq::empty()
        } else {
            seq![(source, target, false)]
        }
    } else {
        Seq::empty()
    }
}

/// The renames of the subtitles of the video among the files of its directory.
pub open spec fn subtitle_moves(l: RenameLayout, video: Seq<char>, entries: Seq<Seq<char>>, ci: bool) -> Seq<(Seq<char>, Seq<char>, bool)>
    decreases entries.len(),
{
    if entries.len() == 0 {
        Seq::empty()
    } else {
        subtitle_moves(l, video, entries.drop_last(), ci) + subtitle_move(
            l.old_dir,
            l.old_stem,
            l.target_dir,
            l.new_stem,
            l.rename_parent,
            video,
            entries.last(),
            ci,
        )
    }
}

/// The moves of the directory (when it is renamed along), of the video and of
/// its NFO.
pub open spec fn core_moves(l: RenameLayout, video: Seq<char>, nfo_exists: bool, ci: bool) -> Seq<(Seq<char>, Seq<char>, bool)> {
    let dir_move: Seq<(Seq<char>, Seq<char>, bool)> = if l.rename_parent && !same_fs_path(
        l.old_dir,
        l.target_dir,
        ci,
    ) {
        seq![(l.old_dir, l.target_dir, true)]
    } else {
        Seq::empty()
    };
    let video_move: Seq<(Seq<char>, Seq<char>, bool)> = if !same_fs_path(
        l.current_video,
        l.new_video,
        ci,
    ) {
        seq![(l.current_video, l.new_video, false)]
    } else {
        Seq::empty()
    };
    let nfo = crate::paths::with_extension(video, "nfo"@);
    let current_nfo = if l.rename_parent {
        crate::paths::remap_after_dir_rename(nfo, l.old_dir, l.target_dir)
    } else {
        nfo
    };
    let new_nfo = crate::paths::with_extension(l.new_video, "nfo"@);
    let nfo_move: Seq<(Seq<char>, Seq<char>, bool)> = if nfo_exists && !same_fs_path(
        current_nfo,
        new_nfo,
        ci,
    ) {
        seq![(current_nfo, new_nfo, false)]
    } else {
        Seq::empty()
    };
    dir_move + video_move + nfo_move
}

/// The renames of the poster, thumbnail and background.
pub open spec fn artwork_moves(
    l: RenameLayout,
    poster: Option<Seq<char>>,
    thumb: Option<Seq<char>>,
    fanart: Option<Seq<char>>,
    ci: bool,
) -> Seq<(Seq<char>, Seq<char>, bool)> {
    optional_move(moved_artwork(l, poster, "poster"@), ci) + optional_move(
        moved_artwork(l, thumb, "thumb"@),
        ci,
    ) + optional_move(moved_artwork(l, fanart, "fanart"@), ci)
}

/// The move of the `extrafanart` directory when the directory of the video is
/// not renamed along.
pub open spec fn extrafanart_moves(l: RenameLayout, extrafanart_is_dir: bool, ci: bool) -> Seq<(Seq<char>, Seq<char>, bool)> {
    let ef_source = join(l.old_dir, EXTRAFANART_DIR_NAME@);
    let ef_target = join(l.target_dir, EXTRAFANART_DIR_NAME@);
    if !l.rename_parent && extrafanart_is_dir && !same_fs_path(ef_source, ef_target, ci) {
        seq![(ef_source, ef_target, true)]
    } else {
        Seq::empty()
    }
}

/// Every move of a title rename, in order: the directory, the video, its
/// NFO, the poster, thumbnail and background, the `extrafanart` directory,
/// then the subtitles.
pub open spec fn rename_moves(
    l: RenameLayout,
    video: Seq<char>,
    poster: Option<Seq<char>>,
    thumb: Option<Seq<char>>,
    fanart: Option<Seq<char>>,
    nfo_exists: bool,
    extrafanart_is_dir: bool,
    entries: Seq<Seq<char>>,
    ci: bool,
) -> Seq<(Seq<char>, Seq<char>, bool)> {
    core_moves(l, video, nfo_exists, ci) + artwork_moves(l, poster, thumb, fanart, ci)
        + extrafanart_moves(l, extrafanart_is_dir, ci) + subtitle_moves(l, video, entries, ci)
}

/// Where an artwork item ends up: its renamed target, else its moved source,
/// else the path the caller gave.
pub open spec fn final_artwork(pair: (Option<Seq<char>>, Option<Seq<char>>), given: Option<Seq<char>>) -> Option<Seq<char>> {
    match pair.1 {
        Some(t) => Some(t),
        None => match pair.0 {
            Some(s) => Some(s),
            None => given,
        },
    }
}

fn remap_opt(p: &Option<String>, old_dir: &Vec<char>, target_dir: &Vec<char>) -> (r: Option<Vec<char>>)
    ensures
        match *p {
            Some(s) => r matches Some(x) && x@ == crate::paths::remap_after_dir_rename(
                s@,
                old_dir@,
                target_dir@,
            ),
            None => r is None,
        },
{
    match p {
        Some(s) => {
            let v = chars_of(s.as_str());
            Some(crate::paths::remap_after_dir_rename_chars(&v, old_dir, target_dir))
        },
        None => None,
    }
}

fn target_opt(m: &Option<Vec<char>>, target_dir: &str, new_stem: &str, suffix: &str) -> (r: Option<String>)
    ensures
        match *m {
            Some(s) => match artwork_target(s@, target_dir@, new_stem@, suffix@) {
                Some(t) => r matches Some(x) && x@ == t,
                None => r is None,
            },
            None => r is None,
        },
{
    match m {
        Some(s) => {
            let ss = string_of(s);
            build_artwork_target_path(ss.as_str(), target_dir, new_stem, suffix)
        },
        None => None,
    }
}

fn push_optional_move(
    ops: &mut Vec<PendingRenameOperation>,
    source: &Option<Vec<char>>,
    target: &Option<String>,
    ci: bool,
)
    ensures
        op_views(final(ops)@) == op_views(old(ops)@) + optional_move(
            (
                match *source {
                    Some(s) => Some(s@),
                    None => None,
                },
                opt_seq(*target),
            ),
            ci,
        ),
{
    let ghost before = op_views(ops@);
    match (source, target) {
        (Some(s), Some(t)) => {
            let ss = string_of(s);
            if !is_same_path_for_fs(ss.as_str(), t.as_str(), ci) {
                ops.push(PendingRenameOperation { source: ss, target: t.clone(), is_dir: false });
                assert(op_views(ops@) =~= before + seq![(s@, t@, false)]);
            } else {
                assert(op_views(ops@) =~= before + Seq::<(Seq<char>, Seq<char>, bool)>::empty());
            }
        },
        _ => {
            assert(op_views(ops@) =~= before + Seq::<(Seq<char>, Seq<char>, bool)>::empty());
        },
    }
}

fn final_opt(target: &Option<String>, source: &Option<Vec<char>>, given: Option<&str>) -> (r: Option<String>)
    ensures
        opt_seq(r) == final_artwork(
            (
                match *source {
                    Some(s) => Some(s@),
                    None => None,
                },
                opt_seq(*target),
            ),
            crate::storage::opt_view(given),
        ),
{
    match target {
        Some(t) => Some(t.clone()),
        None => match source {
            Some(s) => Some(string_of(s)),
            None => match given {
                Some(g) => Some(owned(g)),
                None => None,
            },
        },
    }
}

} // verus!

verus! {

fn subtitle_suffix_chars(candidate_stem: &Vec<char>, video_stem: &Vec<char>) -> (r: Vec<char>)
    ensures
        r@ == subtitle_suffix(candidate_stem@, video_stem@),
{
    if video_stem.len() <= candidate_stem.len() {
        let head = slice(candidate_stem, 0, video_stem.len());
        assert(head@ =~= candidate_stem@.take(video_stem@.len() as int));
        let hl = lower_chars(&head);
        let vl = lower_chars(video_stem);
        if same(&hl, &vl) {
            let r = slice(candidate_stem, video_stem.len(), candidate_stem.len());
            assert(r@ =~= candidate_stem@.skip(video_stem@.len() as int));
            return r;
        }
    }
    Vec::new()
}

fn subtitle_move_exec(
    video: &Vec<char>,
    c: &Vec<char>,
    old_dir: &Vec<char>,
    old_stem: &Vec<char>,
    target_dir: &Vec<char>,
    new_stem: &Vec<char>,
    rename_parent: bool,
    ci: bool,
) -> (r: Option<PendingRenameOperation>)
    ensures
        match r {
            Some(o) => seq![op_view(o)],
            None => Seq::empty(),
        } == subtitle_move(
            old_dir@,
            old_stem@,
            target_dir@,
            new_stem@,
            rename_parent,
            video@,
            c@,
            ci,
        ),
{
    if !is_subtitle_of_chars(video, c) {
        return None;
    }
    let ext = match extension_chars(c) {
        Some(e) => e,
        None => {
            return None;
        },
    };
    let cs = match file_stem_chars(c) {
        Some(s) => s,
        None => {
            return None;
        },
    };
    let suffix = subtitle_suffix_chars(&cs, old_stem);
    let source = if rename_parent {
        crate::paths::remap_after_dir_rename_chars(c, old_dir, target_dir)
    } else {
        crate::text::copy_chars(c)
    };
    let a = concat(new_stem, &suffix);
    let mut dot: Vec<char> = Vec::new();
    dot.push('.');
    assert(dot@ =~= seq!['.']);
    let b = concat(&a, &dot);
    let name = concat(&b, &ext);
    let target = join_chars(target_dir, &name);
    let ss = string_of(&source);
    let ts = string_of(&target);
    if is_same_path_for_fs(ss.as_str(), ts.as_str(), ci) {
        None
    } else {
        Some(PendingRenameOperation { source: ss, target: ts, is_dir: false })
    }
}

fn push_op(ops: &mut Vec<PendingRenameOperation>, source: &Vec<char>, target: &Vec<char>, is_dir: bool)
    ensures
        op_views(final(ops)@) == op_views(old(ops)@).push((source@, target@, is_dir)),
{
    let ghost before = op_views(ops@);
    ops.push(PendingRenameOperation { source: string_of(source), target: string_of(target), is_dir });
    assert(op_views(ops@) =~= before.push((source@, target@, is_dir)));
}

/// What the caller found on disk before a title rename.
#[derive(Debug, Clone)]
pub struct RenameFacts {
    /// The video file exists.
    pub video_exists: bool,
    /// `<video>.nfo` exists.
    pub nfo_exists: bool,
    /// `<dir>/extrafanart` is a directory.
    pub extrafanart_is_dir: bool,
    /// The poster, thumbnail and background files beside the video, if any.
    pub poster_source: Option<String>,
    pub thumb_source: Option<String>,
    pub fanart_source: Option<String>,
    /// The files of the directory of the video.
    pub dir_entries: Vec<String>,
    /// The file system ignores case.
    pub case_insensitive: bool,
}

/// The layout of a title rename, as computed.
struct RenameTargets {
    old_dir: String,
    old_stem: String,
    new_stem: String,
    rename_parent: bool,
    already_in_target: bool,
    target_dir: String,
    current_video: String,
    new_video: String,
}

spec fn layout_of(t: RenameTargets) -> RenameLayout {
    RenameLayout {
        old_dir: t.old_dir@,
        old_stem: t.old_stem@,
        new_stem: t.new_stem@,
        rename_parent: t.rename_parent,
        already_in_target: t.already_in_target,
        target_dir: t.target_dir@,
        current_video: t.current_video@,
        new_video: t.new_video@,
    }
}

fn compute_rename_layout(video_path: &str, new_title: &str) -> (r: Result<Option<RenameTargets>, String>)
    ensures
        match rename_layout(video_path@, new_title@) {
            Err(m) => r matches Err(e) && e@ == m,
            Ok(None) => r matches Ok(None),
            Ok(Some(l)) => r matches Ok(Some(t)) && layout_of(t) == l,
        },
{
    let video = chars_of(video_path);
    let old_dir = match parent_chars(&video) {
        Some(d) => d,
        None => {
            return Err(owned("无效的视频路径"));
        },
    };
    let old_stem = match file_stem_chars(&video) {
        Some(s) => s,
        None => {
            return Err(owned("无效的视频文件名"));
        },
    };
    let os = string_of(&old_stem);
    if parse_stack_part(os.as_str()).is_some() {
        return Ok(None);
    }
    let new_stem_s = match sanitize_title_for_path(new_title) {
        Ok(s) => s,
        Err(e) => {
            return Err(e);
        },
    };
    let new_stem = chars_of(new_stem_s.as_str());
    let pname = file_name_chars(&old_dir);
    let (already, rename_parent) = match &pname {
        Some(n) => (eq_ignore_case_chars(n, &new_stem), eq_ignore_case_chars(n, &old_stem)),
        None => (false, false),
    };
    let target_dir = if already {
        crate::text::copy_chars(&old_dir)
    } else if rename_parent {
        match parent_chars(&old_dir) {
            Some(pp) => join_chars(&pp, &new_stem),
            None => {
                return Err(owned("无效的父目录"));
            },
        }
    } else {
        join_chars(&old_dir, &new_stem)
    };
    let current = if rename_parent {
        crate::paths::remap_after_dir_rename_chars(&video, &old_dir, &target_dir)
    } else {
        crate::text::copy_chars(&video)
    };
    let new_name = match extension_chars(&video) {
        Some(e) => if e.len() > 0 {
            let mut dot: Vec<char> = Vec::new();
            dot.push('.');
            assert(dot@ =~= seq!['.']);
            let a = concat(&new_stem, &dot);
            concat(&a, &e)
        } else {
            crate::text::copy_chars(&new_stem)
        },
        None => crate::text::copy_chars(&new_stem),
    };
    let new_video = join_chars(&target_dir, &new_name);
    Ok(
        Some(
            RenameTargets {
                old_dir: string_of(&old_dir),
                old_stem: os,
                new_stem: new_stem_s,
                rename_parent,
                already_in_target: already,
                target_dir: string_of(&target_dir),
                current_video: string_of(&current),
                new_video: string_of(&new_video),
            },
        ),
    )
}

fn push_core_moves(ops: &mut Vec<PendingRenameOperation>, t: &RenameTargets, video: &Vec<char>, nfo_exists: bool, ci: bool)
    ensures
        op_views(final(ops)@) == op_views(old(ops)@) + core_moves(layout_of(*t), video@, nfo_exists, ci),
{
    let ghost start = op_views(ops@);
    let old_dir = chars_of(t.old_dir.as_str());
    let target_dir = chars_of(t.target_dir.as_str());
    let current = chars_of(t.current_video.as_str());
    let new_video = chars_of(t.new_video.as_str());
    if t.rename_parent && !is_same_path_for_fs(t.old_dir.as_str(), t.target_dir.as_str(), ci) {
        push_op(ops, &old_dir, &target_dir, true);
    }
    let ghost a = op_views(ops@);
    if !is_same_path_for_fs(t.current_video.as_str(), t.new_video.as_str(), ci) {
        push_op(ops, &current, &new_video, false);
    }
    let ghost b = op_views(ops@);
    let nfo_ext = chars_of("nfo");
    let nfo = crate::paths::with_extension_chars(video, &nfo_ext);
    let current_nfo = if t.rename_parent {
        crate::paths::remap_after_dir_rename_chars(&nfo, &old_dir, &target_dir)
    } else {
        crate::text::copy_chars(&nfo)
    };
    let new_nfo = crate::paths::with_extension_chars(&new_video, &nfo_ext);
    let cns = string_of(&current_nfo);
    let nns = string_of(&new_nfo);
    if nfo_exists && !is_same_path_for_fs(cns.as_str(), nns.as_str(), ci) {
        push_op(ops, &current_nfo, &new_nfo, false);
    }
    assert(op_views(ops@) =~= start + core_moves(layout_of(*t), video@, nfo_exists, ci));
}

fn push_subtitle_moves(ops: &mut Vec<PendingRenameOperation>, t: &RenameTargets, video: &Vec<char>, entries: &Vec<String>, ci: bool)
    ensures
        op_views(final(ops)@) == op_views(old(ops)@) + subtitle_moves(
            layout_of(*t),
            video@,
            string_views(entries@),
            ci,
        ),
{
    let ghost l = layout_of(*t);
    let old_dir = chars_of(t.old_dir.as_str());
    let old_stem = chars_of(t.old_stem.as_str());
    let target_dir = chars_of(t.target_dir.as_str());
    let new_stem = chars_of(t.new_stem.as_str());
    let ghost head = op_views(ops@);
    let ghost ev = string_views(entries@);
    let mut i: usize = 0;
    while i < entries.len()
        invariant
            i <= entries.len(),
            ev == string_views(entries@),
            l.old_dir == old_dir@ && l.old_stem == old_stem@ && l.target_dir == target_dir@
                && l.new_stem == new_stem@ && l.rename_parent == t.rename_parent,
            op_views(ops@) == head + subtitle_moves(l, video@, ev.take(i as int), ci),
        decreases entries.len() - i,
    {
        assert(ev.take(i + 1).drop_last() =~= ev.take(i as int));
        let c = chars_of(entries[i].as_str());
        assert(ev[i as int] == c@);
        let ghost before = op_views(ops@);
        match subtitle_move_exec(
            video,
            &c,
            &old_dir,
            &old_stem,
            &target_dir,
            &new_stem,
            t.rename_parent,
            ci,
        ) {
            Some(o) => {
                ops.push(o);
                assert(op_views(ops@) =~= before + seq![op_view(o)]);
            },
            None => {
                assert(op_views(ops@) =~= before + Seq::<(Seq<char>, Seq<char>, bool)>::empty());
            },
        }
        i += 1;
        assert(op_views(ops@) =~= head + subtitle_moves(l, video@, ev.take(i as int), ci));
    }
    assert(ev.take(entries.len() as int) =~= ev);
}

fn collect_rename_ops(
    t: &RenameTargets,
    video: &Vec<char>,
    ps: &Option<Vec<char>>,
    pt: &Option<String>,
    ts: &Option<Vec<char>>,
    tt: &Option<String>,
    fs: &Option<Vec<char>>,
    ft: &Option<String>,
    facts: &RenameFacts,
) -> (r: Vec<PendingRenameOperation>)
    requires
        match *ps {
            Some(s) => Some(s@),
            None => None,
        } == moved_artwork(layout_of(*t), opt_seq(facts.poster_source), "poster"@).0,
        opt_seq(*pt) == moved_artwork(layout_of(*t), opt_seq(facts.poster_source), "poster"@).1,
        match *ts {
            Some(s) => Some(s@),
            None => None,
        } == moved_artwork(layout_of(*t), opt_seq(facts.thumb_source), "thumb"@).0,
        opt_seq(*tt) == moved_artwork(layout_of(*t), opt_seq(facts.thumb_source), "thumb"@).1,
        match *fs {
            Some(s) => Some(s@),
            None => None,
        } == moved_artwork(layout_of(*t), opt_seq(facts.fanart_source), "fanart"@).0,
        opt_seq(*ft) == moved_artwork(layout_of(*t), opt_seq(facts.fanart_source), "fanart"@).1,
    ensures
        op_views(r@) == rename_moves(
            layout_of(*t),
            video@,
            opt_seq(facts.poster_source),
            opt_seq(facts.thumb_source),
            opt_seq(facts.fanart_source),
            facts.nfo_exists,
            facts.extrafanart_is_dir,
            string_views(facts.dir_entries@),
            facts.case_insensitive,
        ),
{
    let ghost l = layout_of(*t);
    let ci = facts.case_insensitive;
    let mut ops: Vec<PendingRenameOperation> = Vec::new();
    push_core_moves(&mut ops, t, video, facts.nfo_exists, ci);
    let ghost c = op_views(ops@);
    push_optional_move(&mut ops, ps, pt, ci);
    push_optional_move(&mut ops, ts, tt, ci);
    push_optional_move(&mut ops, fs, ft, ci);
    assert(op_views(ops@) =~= c + artwork_moves(
        l,
        opt_seq(facts.poster_source),
        opt_seq(facts.thumb_source),
        opt_seq(facts.fanart_source),
        ci,
    ));
    let ghost d = op_views(ops@);
    let old_dir = chars_of(t.old_dir.as_str());
    let target_dir = chars_of(t.target_dir.as_str());
    let ef_source = join_str(&old_dir, EXTRAFANART_DIR_NAME);
    let ef_target = join_str(&target_dir, EXTRAFANART_DIR_NAME);
    let efs = string_of(&ef_source);
    let eft = string_of(&ef_target);
    if !t.rename_parent && facts.extrafanart_is_dir && !is_same_path_for_fs(
        efs.as_str(),
        eft.as_str(),
        ci,
    ) {
        push_op(&mut ops, &ef_source, &ef_target, true);
    }
    assert(op_views(ops@) =~= d + extrafanart_moves(l, facts.extrafanart_is_dir, ci));
    let ghost e = op_views(ops@);
    push_subtitle_moves(&mut ops, t, video, &facts.dir_entries, ci);
    assert(op_views(ops@) =~= rename_moves(
        l,
        video@,
        opt_seq(facts.poster_source),
        opt_seq(facts.thumb_source),
        opt_seq(facts.fanart_source),
        facts.nfo_exists,
        facts.extrafanart_is_dir,
        string_views(facts.dir_entries@),
        ci,
    ));
    ops
}

/// The moves that rename a video and its files after a new title, and where
/// everything ends up; `Ok(None)` when there is nothing to move or the video is
/// a part of a multi-part video. `poster`, `thumb` and `fanart` are the paths
/// recorded for the video, kept for items that do not move.
pub fn rename_video_assets_with_title(
    video_path: &str,
    new_title: &str,
    poster: Option<&str>,
    thumb: Option<&str>,
    fanart: Option<&str>,
    facts: &RenameFacts,
) -> (r: Result<Option<RenamePlan>, String>)
    ensures
        !facts.video_exists ==> (r matches Err(e) && e@ == "源视频文件不存在"@),
        facts.video_exists ==> match rename_layout(video_path@, new_title@) {
            Err(m) => r matches Err(e) && e@ == m,
            Ok(None) => r matches Ok(None),
            Ok(Some(l)) => {
                let ci = facts.case_insensitive;
                let moves = rename_moves(
                    l,
                    video_path@,
                    opt_seq(facts.poster_source),
                    opt_seq(facts.thumb_source),
                    opt_seq(facts.fanart_source),
                    facts.nfo_exists,
                    facts.extrafanart_is_dir,
                    string_views(facts.dir_entries@),
                    ci,
                );
                if (l.already_in_target && same_fs_path(l.current_video, l.new_video, ci))
                    || moves.len() == 0 {
                    r matches Ok(None)
                } else {
                    r matches Ok(Some(p)) && op_views(p.operations@) == moves
                        && p.assets.original_video_path@ == video_path@ && p.assets.video_path@
                        == l.new_video && p.assets.dir_path@ == l.target_dir && opt_seq(
                        p.assets.poster,
                    ) == final_artwork(
                        moved_artwork(l, opt_seq(facts.poster_source), "poster"@),
                        crate::storage::opt_view(poster),
                    ) && opt_seq(p.assets.thumb) == final_artwork(
                        moved_artwork(l, opt_seq(facts.thumb_source), "thumb"@),
                        crate::storage::opt_view(thumb),
                    ) && opt_seq(p.assets.fanart) == final_artwork(
                        moved_artwork(l, opt_seq(facts.fanart_source), "fanart"@),
                        crate::storage::opt_view(fanart),
                    ) && p.assets.moved_siblings@.len() == 0
                }
            },
        },
{
    if !facts.video_exists {
        return Err(owned("源视频文件不存在"));
    }
    let t = match compute_rename_layout(video_path, new_title) {
        Err(e) => {
            return Err(e);
        },
        Ok(None) => {
            return Ok(None);
        },
        Ok(Some(t)) => t,
    };
    let ghost l = layout_of(t);
    let ci = facts.case_insensitive;
    if t.already_in_target && is_same_path_for_fs(t.current_video.as_str(), t.new_video.as_str(), ci) {
        return Ok(None);
    }
    let video = chars_of(video_path);
    let old_dir = chars_of(t.old_dir.as_str());
    let target_dir = chars_of(t.target_dir.as_str());
    let ps = remap_opt(&facts.poster_source, &old_dir, &target_dir);
    let ts = remap_opt(&facts.thumb_source, &old_dir, &target_dir);
    let fs = remap_opt(&facts.fanart_source, &old_dir, &target_dir);
    let pt = target_opt(&ps, t.target_dir.as_str(), t.new_stem.as_str(), "poster");
    let tt = target_opt(&ts, t.target_dir.as_str(), t.new_stem.as_str(), "thumb");
    let ft = target_opt(&fs, t.target_dir.as_str(), t.new_stem.as_str(), "fanart");
    let ops = collect_rename_ops(&t, &video, &ps, &pt, &ts, &tt, &fs, &ft, facts);
    if ops.len() == 0 {
        return Ok(None);
    }
    let assets = RelocatedVideoAssets {
        original_video_path: owned(video_path),
        video_path: t.new_video.clone(),
        dir_path: t.target_dir.clone(),
        poster: final_opt(&pt, &ps, poster),
        thumb: final_opt(&tt, &ts, thumb),
        fanart: final_opt(&ft, &fs, fanart),
        moved_siblings: Vec::new(),
    };
    Ok(Some(RenamePlan { operations: ops, assets }))
}

} // verus!

verus! {

/// Where a video goes when it is given a directory of its own: `(directory,
/// new video path, group directory name)`. `Ok(None)` when it already sits in
/// a directory named like it, or (a part of a multi-part video) in its group's
/// directory. A part goes into the directory of its group, with the other
/// parts.
pub open spec fn named_dir_target(video: Seq<char>) -> Result<Option<(Seq<char>, Seq<char>, Option<Seq<char>>)>, Seq<char>> {
    if in_same_named_dir(video) || in_group_dir(video) {
        Ok(None)
    } else {
        match parent(video) {
            None => Err("无效的视频路径"@),
            Some(d) => match (file_stem(video), file_name(video)) {
                (Some(stem), Some(name)) => {
                    let group = group_dir_name(stem);
                    let dir = join(
                        d,
                        match group {
                            Some(g) => g,
                            None => stem,
                        },
                    );
                    Ok(Some((dir, join(dir, name), group)))
                },
                _ => Err("无效的视频文件名"@),
            },
        }
    }
}

/// The directory a video moves into, its new path, and the group directory
/// name of a multi-part video.
pub fn named_parent_target(video_path: &str) -> (r: Result<Option<(String, String, Option<String>)>, String>)
    ensures
        match named_dir_target(video_path@) {
            Err(m) => r matches Err(e) && e@ == m,
            Ok(None) => r matches Ok(None),
            Ok(Some((d, v, g))) => r matches Ok(Some((rd, rv, rg))) && rd@ == d && rv@ == v
                && opt_seq(rg) == g,
        },
{
    if has_same_named_parent_dir(video_path) || is_stack_part_in_grouped_dir(video_path) {
        return Ok(None);
    }
    let v = chars_of(video_path);
    let d = match parent_chars(&v) {
        Some(d) => d,
        None => {
            return Err(owned("无效的视频路径"));
        },
    };
    let stem = match file_stem_chars(&v) {
        Some(s) => s,
        None => {
            return Err(owned("无效的视频文件名"));
        },
    };
    let name = match file_name_chars(&v) {
        Some(n) => n,
        None => {
            return Err(owned("无效的视频文件名"));
        },
    };
    let ss = string_of(&stem);
    let group = stack_group_dir_name(ss.as_str());
    let sub = match &group {
        Some(g) => chars_of(g.as_str()),
        None => crate::text::copy_chars(&stem),
    };
    let dir = join_chars(&d, &sub);
    let nv = join_chars(&dir, &name);
    Ok(Some((string_of(&dir), string_of(&nv), group)))
}

/// A part of a multi-part video is never renamed after a title: renaming it
/// alone would split it from the other parts.
pub proof fn lemma_stack_part_not_renamed(video: Seq<char>, new_title: Seq<char>)
    requires
        parent(video) is Some,
        file_stem(video) matches Some(s) && stack_part(s) is Some,
    ensures
        rename_layout(video, new_title) matches Ok(None),
{
}

/// A file name holds no separator, is not empty and is not `..`.
proof fn lemma_file_name_component(p: Seq<char>)
    ensures
        file_name(p) matches Some(n) ==> n.len() > 0 && n != seq!['.', '.'] && forall|i: int|
            0 <= i < n.len() ==> !is_sep(n[i]),
{
    lemma_last_sep(p);
    if let Some(n) = file_name(p) {
        match last_sep(p) {
            Some(k) => {
                assert forall|i: int| 0 <= i < n.len() implies !is_sep(n[i]) by {
                    assert(n[i] == p[k + 1 + i]);
                }
            },
            None => {},
        }
    }
}

/// The stem of a file name is a non-empty piece of it.
proof fn lemma_stem_component(n: Seq<char>)
    requires
        n.len() > 0,
        forall|i: int| 0 <= i < n.len() ==> !is_sep(n[i]),
    ensures
        stem_of_name(n).len() > 0,
        forall|i: int| 0 <= i < stem_of_name(n).len() ==> !is_sep(stem_of_name(n)[i]),
{
    lemma_last_index_of(n, '.');
    match ext_dot(n) {
        Some(k) => {
            assert forall|i: int| 0 <= i < stem_of_name(n).len() implies !is_sep(stem_of_name(n)[i]) by {
                assert(stem_of_name(n)[i] == n[i]);
            }
        },
        None => {},
    }
}

/// The group directory of a part of a multi-part video is a single component
/// that the group claims.
proof fn lemma_group_dir_component(stem: Seq<char>)
    requires
        forall|i: int| 0 <= i < stem.len() ==> !is_sep(stem[i]),
        group_dir_name(stem) is Some,
    ensures
        ({
            let g = group_dir_name(stem)->0;
            &&& g.len() > 0
            &&& g != seq!['.', '.']
            &&& !is_bare_drive(g)
            &&& forall|i: int| 0 <= i < g.len() ==> !is_sep(g[i])
            &&& stack_part(stem) matches Some((base, _)) && belongs_to_stack(g, base)
        }),
{
    let k = last_index_of(stem, '-')->0;
    lemma_last_index_of(stem, '-');
    let raw = stem.take(k);
    lemma_last_index_of(raw, '-');
    let j = last_index_of(raw, '-')->0;
    let (base, _) = stack_part(stem)->0;
    assert(base == upper_seq(raw));
    assert(raw[j] == '-');
    let g = group_dir_name(stem)->0;
    if base.len() <= stem.len() && eq_ignore_case(stem.take(base.len() as int), base) {
        assert(g == raw);
        assert(g[j] == '-');
        assert forall|i: int| 0 <= i < g.len() implies !is_sep(g[i]) by {
            assert(g[i] == stem[i]);
        }
    } else {
        assert(g == base);
        assert(g[j] == upper(raw[j]));
        assert(g[j] == '-');
        assert forall|i: int| 0 <= i < g.len() implies !is_sep(g[i]) by {
            assert(g[i] == upper(raw[i]));
            assert(raw[i] == stem[i]);
        }
    }
    assert(j < g.len());
    if g == seq!['.', '.'] {
        assert(g[j] == '.');
    }
    if is_bare_drive(g) {
        assert(g[j] == '-');
    }
}

/// Moving a video into its named directory is done once: the moved video is
/// then in its named (or group) directory and needs no further move. A file
/// whose stem is `..` or a bare drive (`C:`) is left out: no directory can be
/// named after it.
pub proof fn lemma_named_dir_target_settles(video: Seq<char>)
    requires
        file_stem(video) != Some(seq!['.', '.']),
        file_stem(video) matches Some(st) ==> !is_bare_drive(st),
    ensures
        named_dir_target(video) matches Ok(Some((d, nv, g))) ==> named_dir_target(nv) matches Ok(None),
{
    if let Ok(Some((d, nv, g))) = named_dir_target(video) {
        let p = parent(video)->0;
        let name = file_name(video)->0;
        let stem = file_stem(video)->0;
        lemma_file_name_component(video);
        lemma_stem_component(name);
        assert(stem == stem_of_name(name));
        let sub = match group_dir_name(stem) {
            Some(gn) => gn,
            None => stem,
        };
        if group_dir_name(stem) is Some {
            lemma_group_dir_component(stem);
        }
        lemma_join_component(p, sub);
        assert(d == join(p, sub));
        assert(d.len() > 0);
        assert(!is_bare_drive(d)) by {
            assert(root_len(sub) == 0);
            if p.len() > 0 && d.len() == 2 {
                if is_sep(p.last()) {
                    assert(d == p + sub);
                    assert(d[0] == p[0]);
                } else {
                    assert(d.len() == p.len() + 1 + sub.len());
                }
            }
        }
        lemma_join_component(d, name);
        assert(nv == join(d, name));
        assert(file_name(nv) == Some(name));
        assert(parent(nv) == Some(d));
        assert(parent_name(nv) == Some(sub));
        assert(file_stem(nv) == Some(stem));
        if group_dir_name(stem) is Some {
            assert(in_group_dir(nv));
        } else {
            assert(in_same_named_dir(nv));
        }
    }
}

/// What moving an optional artwork file into a directory comes to.
#[derive(Debug, Clone)]
pub enum AssetMove {
    /// The source has no file name: nothing is moved.
    Invalid,
    /// The file is already at this path (moved before, or source and target
    /// are one path).
    Kept(String),
    /// Move the file from the first path to the second.
    Move(String, String),
    /// The source does not exist: nothing is moved.
    Missing,
}

/// The move of an artwork file `source` into `target_dir`, given whether the
/// source and the target (`target_dir` joined with the file name) exist.
pub open spec fn asset_move_of(
    source: Seq<char>,
    target_dir: Seq<char>,
    source_exists: bool,
    target_exists: bool,
) -> Option<(Seq<char>, Option<Seq<char>>)> {
    match file_name(source) {
        None => None,
        Some(name) => {
            let target = join(target_dir, name);
            if (target_exists && !source_exists) || source == target {
                Some((target, None))
            } else if !source_exists {
                None
            } else {
                Some((target, Some(source)))
            }
        },
    }
}

/// Plans the move of an optional artwork file into `target_dir`.
pub fn optional_asset_move(source: &str, target_dir: &str, source_exists: bool, target_exists: bool) -> (r: AssetMove)
    ensures
        match r {
            AssetMove::Invalid => file_name(source@) is None,
            AssetMove::Kept(t) => file_name(source@) is Some && asset_move_of(
                source@,
                target_dir@,
                source_exists,
                target_exists,
            ) == Some((t@, None::<Seq<char>>)),
            AssetMove::Move(s, t) => asset_move_of(source@, target_dir@, source_exists, target_exists)
                == Some((t@, Some(s@))),
            AssetMove::Missing => file_name(source@) is Some && asset_move_of(
                source@,
                target_dir@,
                source_exists,
                target_exists,
            ) is None,
        },
{
    let sv = chars_of(source);
    let name = match file_name_chars(&sv) {
        Some(n) => n,
        None => {
            return AssetMove::Invalid;
        },
    };
    let dv = chars_of(target_dir);
    let target = join_chars(&dv, &name);
    if (target_exists && !source_exists) || same(&sv, &target) {
        AssetMove::Kept(string_of(&target))
    } else if !source_exists {
        AssetMove::Missing
    } else {
        AssetMove::Move(string_of(&sv), string_of(&target))
    }
}

/// A file stem is another part of the multi-part group `stack_base` (ASCII
/// case ignored).
pub open spec fn is_sibling_part(stem: Seq<char>, stack_base: Seq<char>) -> bool {
    match stack_part(stem) {
        Some((b, _)) => eq_ignore_case(b, stack_base),
        None => false,
    }
}

pub fn is_stack_sibling(candidate_stem: &str, stack_base: &str) -> (r: bool)
    ensures
        r == is_sibling_part(candidate_stem@, stack_base@),
{
    match parse_stack_part(candidate_stem) {
        Some((b, _)) => {
            let bv = chars_of(b.as_str());
            let sv = chars_of(stack_base);
            eq_ignore_case_chars(&bv, &sv)
        },
        None => false,
    }
}

/// The artwork file names an NFO refers to (relative to its directory).
#[derive(Debug, Clone, Default)]
pub struct NfoArtwork {
    pub poster: Option<String>,
    pub fanart: Option<String>,
    pub thumb: Option<String>,
}

/// The first artwork name for `stem` and `suffix` (in extension order) that is
/// among the names present in the directory.
pub open spec fn present_artwork(stem: Seq<char>, suffix: Seq<char>, present: Seq<Seq<char>>) -> Option<Seq<char>> {
    match first_match_name(artwork_names(stem, suffix), present) {
        Some(i) => Some(artwork_names(stem, suffix)[i]),
        None => None,
    }
}

pub open spec fn first_match_name(names: Seq<Seq<char>>, present: Seq<Seq<char>>) -> Option<int> {
    crate::seqs::first_match(names, |n: Seq<char>| present.contains(n))
}

fn contains_name(present: &Vec<String>, name: &Vec<char>) -> (r: bool)
    ensures
        r == string_views(present@).contains(name@),
{
    let mut i: usize = 0;
    while i < present.len()
        invariant
            i <= present.len(),
            forall|k: int| 0 <= k < i ==> string_views(present@)[k] != name@,
        decreases present.len() - i,
    {
        let p = chars_of(present[i].as_str());
        assert(string_views(present@)[i as int] == p@);
        if same(&p, name) {
            return true;
        }
        i += 1;
    }
    false
}

fn detect_artwork_filename(stem: &str, suffix: &str, present: &Vec<String>) -> (r: Option<String>)
    ensures
        opt_seq(r) == present_artwork(stem@, suffix@, string_views(present@)),
{
    let names = artwork_file_candidates(stem, suffix);
    let ghost nv = string_views(names@);
    let ghost pv = string_views(present@);
    let ghost f = |n: Seq<char>| pv.contains(n);
    let mut i: usize = 0;
    while i < names.len()
        invariant
            i <= names.len(),
            nv == string_views(names@),
            nv == artwork_names(stem@, suffix@),
            pv == string_views(present@),
            f == (|n: Seq<char>| pv.contains(n)),
            crate::seqs::first_match(nv.take(i as int), f) is None,
        decreases names.len() - i,
    {
        let n = chars_of(names[i].as_str());
        assert(nv[i as int] == n@);
        if contains_name(present, &n) {
            proof {
                crate::seqs::lemma_first_match_at(nv, f, i as int);
            }
            return Some(string_of(&n));
        }
        proof {
            crate::seqs::lemma_first_match_step(nv, f, i as int);
        }
        i += 1;
    }
    assert(nv.take(names.len() as int) =~= nv);
    None
}

/// The artwork an NFO refers to: for each of poster, background and
/// thumbnail, the first standard file name present in the directory
/// (`present` lists the names of its files).
pub fn detect_local_artwork(stem: &str, present: &Vec<String>) -> (r: NfoArtwork)
    ensures
        opt_seq(r.poster) == present_artwork(stem@, "poster"@, string_views(present@)),
        opt_seq(r.fanart) == present_artwork(stem@, "fanart"@, string_views(present@)),
        opt_seq(r.thumb) == present_artwork(stem@, "thumb"@, string_views(present@)),
{
    NfoArtwork {
        poster: detect_artwork_filename(stem, "poster", present),
        fanart: detect_artwork_filename(stem, "fanart", present),
        thumb: detect_artwork_filename(stem, "thumb", present),
    }
}

/// The artwork produced from a captured frame is kept when it has a
/// background or a poster; otherwise saving the cover failed.
pub fn save_frame_as_cover_assets(artwork: ArtworkResult) -> (r: Result<ArtworkResult, String>)
    ensures
        artwork.fanart is None && artwork.poster is None ==> (r matches Err(e) && e@ == "保存封面失败"@),
        !(artwork.fanart is None && artwork.poster is None) ==> (r matches Ok(a) && a == artwork),
{
    if artwork.fanart.is_none() && artwork.poster.is_none() {
        return Err(owned("保存封面失败"));
    }
    Ok(artwork)
}

// ------------------------------------------------------------------
// Carrying out a rename plan
// ------------------------------------------------------------------

/// Before an operation of a rename plan is made: a target that already exists
/// (and is not the source itself) stops the run with this error.
pub open spec fn rename_check(op: (Seq<char>, Seq<char>, bool), target_exists: bool, case_insensitive: bool) -> Option<Seq<char>> {
    if target_exists && !same_fs_path(op.0, op.1, case_insensitive) {
        Some("目标已存在，无法重命名: "@ + op.1)
    } else {
        None
    }
}

/// Checks an operation before it is made; `Err` stops the run.
pub fn check_rename_target(op: &PendingRenameOperation, target_exists: bool, case_insensitive: bool) -> (r: Result<(), String>)
    ensures
        match rename_check(op_view(*op), target_exists, case_insensitive) {
            Some(m) => r matches Err(e) && e@ == m,
            None => r is Ok,
        },
{
    if target_exists && !is_same_path_for_fs(op.source.as_str(), op.target.as_str(), case_insensitive) {
        let pre = chars_of("目标已存在，无法重命名: ");
        let t = chars_of(op.target.as_str());
        Err(string_of(&concat(&pre, &t)))
    } else {
        Ok(())
    }
}

/// The error of a move that failed with `error`.
pub fn rename_failure_message(op: &PendingRenameOperation, error: &str) -> (r: String)
    ensures
        r@ == "重命名失败: "@ + op.source@ + " -> "@ + op.target@ + ": "@ + error@,
{
    let a = concat(&chars_of("重命名失败: "), &chars_of(op.source.as_str()));
    let b = concat(&a, &chars_of(" -> "));
    let c = concat(&b, &chars_of(op.target.as_str()));
    let d = concat(&c, &chars_of(": "));
    string_of(&concat(&d, &chars_of(error)))
}

/// The moves that undo the operations made, the last made first: each moves
/// its target back to its source.
pub open spec fn undo_of(done: Seq<(Seq<char>, Seq<char>, bool)>) -> Seq<(Seq<char>, Seq<char>, bool)> {
    Seq::new(done.len(), |j: int| {
        let o = done[done.len() - 1 - j];
        (o.1, o.0, o.2)
    })
}

/// A run stopped at operation `i` with the error `message`: the error, and
/// the moves that undo operations `0..i` (those already made), last first.
/// An undo move whose source no longer exists is skipped by the caller.
pub fn stop_rename_run(operations: &Vec<PendingRenameOperation>, i: usize, message: String) -> (r: (String, Vec<PendingRenameOperation>))
    requires
        i <= operations.len(),
    ensures
        r.0@ == message@,
        op_views(r.1@) == undo_of(op_views(operations@).take(i as int)),
{
    let ghost done = op_views(operations@).take(i as int);
    let mut undo: Vec<PendingRenameOperation> = Vec::new();
    let mut k: usize = i;
    while k > 0
        invariant
            k <= i,
            i <= operations.len(),
            done == op_views(operations@).take(i as int),
            undo@.len() == i - k,
            forall|j: int| 0 <= j < undo@.len() ==> #[trigger] op_view(undo@[j]) == undo_of(done)[j],
        decreases k,
    {
        let o = &operations[k - 1];
        let back = PendingRenameOperation { source: owned(o.target.as_str()), target: owned(o.source.as_str()), is_dir: o.is_dir };
        proof {
            let j = (i - k) as int;
            assert(undo_of(done)[j] == (done[i - 1 - j].1, done[i - 1 - j].0, done[i - 1 - j].2));
            assert(done[i - 1 - j] == op_view(operations@[k - 1]));
        }
        undo.push(back);
        k -= 1;
    }
    assert(op_views(undo@) =~= undo_of(done));
    (message, undo)
}

// ------------------------------------------------------------------
// Moving a video into its named directory: per-file decisions
// ------------------------------------------------------------------

/// The first path whose file exists (`exists[i]` for `paths[i]`).
pub open spec fn first_existing(paths: Seq<Seq<char>>, exists: Seq<bool>) -> Option<Seq<char>>
    decreases paths.len(),
{
    if paths.len() == 0 || exists.len() == 0 {
        None
    } else if exists[0] {
        Some(paths[0])
    } else {
        first_existing(paths.drop_first(), exists.drop_first())
    }
}

/// The artwork file that goes along with a video: the recorded one when it is
/// a file in the video's directory, else the first candidate beside the video
/// (`sibling_artwork_paths`) that exists.
pub open spec fn asset_source_of(
    video: Seq<char>,
    recorded: Option<Seq<char>>,
    recorded_is_file: bool,
    suffix: Seq<char>,
    candidate_exists: Seq<bool>,
) -> Option<Seq<char>> {
    if recorded is Some && recorded_is_file && parent(recorded->0) == parent(video) {
        recorded
    } else {
        first_existing(sibling_artwork_paths(video, suffix), candidate_exists)
    }
}

/// Picks the artwork file to carry along: `recorded_is_file` says whether the
/// recorded path is a file, `candidate_exists[i]` whether the `i`-th path of
/// `sibling_artwork_candidates(video_path, suffix)` exists.
pub fn pick_asset_source(
    video_path: &str,
    recorded: Option<&str>,
    recorded_is_file: bool,
    suffix: &str,
    candidate_exists: &Vec<bool>,
) -> (r: Option<String>)
    ensures
        opt_seq(r) == asset_source_of(video_path@, opt_str_view(recorded), recorded_is_file, suffix@, candidate_exists@),
{
    if let Some(p) = recorded {
        if recorded_is_file {
            let pv = chars_of(p);
            let vv = chars_of(video_path);
            let same_dir = match (parent_chars(&pv), parent_chars(&vv)) {
                (Some(a), Some(b)) => same(&a, &b),
                (None, None) => true,
                _ => false,
            };
            if same_dir {
                return Some(owned(p));
            }
        }
    }
    let cands = sibling_artwork_candidates(video_path, suffix);
    let ghost cv = string_views(cands@);
    let ghost want = asset_source_of(video_path@, opt_str_view(recorded), recorded_is_file, suffix@, candidate_exists@);
    assert(want == first_existing(cv, candidate_exists@));
    assert(cv.skip(0) =~= cv);
    assert(candidate_exists@.skip(0) =~= candidate_exists@);
    let mut i: usize = 0;
    while i < cands.len() && i < candidate_exists.len()
        invariant
            i <= cands.len(),
            cv == string_views(cands@),
            cv.len() == cands.len(),
            i <= candidate_exists.len(),
            want == asset_source_of(video_path@, opt_str_view(recorded), recorded_is_file, suffix@, candidate_exists@),
            want == first_existing(cv, candidate_exists@),
            first_existing(cv, candidate_exists@) == first_existing(cv.skip(i as int), candidate_exists@.skip(i as int)),
        decreases cands.len() - i,
    {
        assert(cv.skip(i as int).drop_first() =~= cv.skip(i + 1));
        assert(candidate_exists@.skip(i as int).drop_first() =~= candidate_exists@.skip(i + 1));
        assert(cv.skip(i as int)[0] == cv[i as int]);
        assert(candidate_exists@.skip(i as int)[0] == candidate_exists@[i as int]);
        if candidate_exists[i] {
            assert(first_existing(cv.skip(i as int), candidate_exists@.skip(i as int)) == Some(cv[i as int]));
            assert(cv[i as int] == cands@[i as int]@);
            return Some(owned(cands[i].as_str()));
        }
        i += 1;
    }
    assert(cv.skip(i as int).len() == 0 || candidate_exists@.skip(i as int).len() == 0);
    None
}

pub open spec fn opt_str_view(o: Option<&str>) -> Option<Seq<char>> {
    match o {
        Some(s) => Some(s@),
        None => None,
    }
}

/// Where another file of the video's directory goes when a part of a
/// multi-part video moves into its group directory: a video file, other than
/// the one being moved, whose stem is a part of the same group goes to
/// `target_dir` under its own name; any other entry stays.
pub open spec fn stack_sibling_target_of(
    candidate: Seq<char>,
    is_file: bool,
    is_video: bool,
    current_video: Seq<char>,
    stack_base: Seq<char>,
    target_dir: Seq<char>,
) -> Option<Seq<char>> {
    let stem = match file_stem(candidate) {
        Some(s) => s,
        None => Seq::empty(),
    };
    if candidate == current_video || !is_file || !is_video || !is_sibling_part(stem, stack_base) {
        None
    } else {
        match file_name(candidate) {
            Some(n) => Some(join(target_dir, n)),
            None => None,
        }
    }
}

/// The target of an entry of the video's directory that moves along with a
/// part of a multi-part video; `None` when it stays. The caller also leaves
/// it where it is when the target already exists.
pub fn stack_sibling_target(
    candidate: &str,
    is_file: bool,
    is_video: bool,
    current_video: &str,
    stack_base: &str,
    target_dir: &str,
) -> (r: Option<String>)
    ensures
        opt_seq(r) == stack_sibling_target_of(candidate@, is_file, is_video, current_video@, stack_base@, target_dir@),
{
    let c = chars_of(candidate);
    let stem = match file_stem_chars(&c) {
        Some(s) => string_of(&s),
        None => String::new(),
    };
    if crate::text::str_eq(candidate, current_video) || !is_file || !is_video || !is_stack_sibling(stem.as_str(), stack_base) {
        return None;
    }
    match file_name_chars(&c) {
        Some(n) => {
            let d = chars_of(target_dir);
            Some(string_of(&join_chars(&d, &n)))
        },
        None => None,
    }
}

/// Moving a video into its named directory is refused when a file of that
/// name is already there.
pub fn named_dir_conflict(new_video_path: &str, exists: bool) -> (r: Option<String>)
    ensures
        exists ==> (r matches Some(e) && e@ == "目标目录已存在同名视频文件: "@ + new_video_path@),
        !exists ==> r is None,
{
    if exists {
        let pre = chars_of("目标目录已存在同名视频文件: ");
        Some(string_of(&concat(&pre, &chars_of(new_video_path))))
    } else {
        None
    }
}

} // verus!
