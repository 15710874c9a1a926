//! File-system paths as text.
//!
//! A path is a character sequence whose components are separated by `/` or
//! `\\`, as `std::path::Path` reads them on Windows, the platform of the
//! application. The last component is what follows the last separator; a
//! path without one has the empty path as parent; a root (`/`, `\\`, or a
//! drive with its separator such as `D:\\`) and the empty path have none.
//! Joining writes the separator the base path already uses (`/` when it has
//! none), so `D:\\v` joined with `a` is `D:\\v\\a` and `/v` joined with `a` is
//! `/v/a`.

use vstd::prelude::*;
use crate::text::{chars_of, concat, copy_chars, is_lower_ascii, is_upper_ascii, same, slice, starts_with, starts_with_chars, string_of};

verus! {

/// Position of the last occurrence of `c` in `s`.
pub open spec fn last_index_of(s: Seq<char>, c: char) -> Option<int>
    decreases s.len(),
{
    if s.len() == 0 {
        None
    } else if s.last() == c {
        Some(s.len() - 1)
    } else {
        last_index_of(s.drop_last(), c)
    }
}

/// `last_index_of` gives the position of the last `c`, or `None` when there is none.
pub proof fn lemma_last_index_of(s: Seq<char>, c: char)
    ensures
        last_index_of(s, c) matches Some(k) ==> 0 <= k < s.len() && s[k] == c && forall|j: int|
            k < j < s.len() ==> s[j] != c,
        last_index_of(s, c) is None ==> forall|j: int| 0 <= j < s.len() ==> s[j] != c,
    decreases s.len(),
{
    if s.len() > 0 {
        let t = s.drop_last();
        lemma_last_index_of(t, c);
        assert forall|j: int| 0 <= j < t.len() implies t[j] == s[j] by {}
    }
}

pub fn last_index_of_chars(s: &Vec<char>, c: char) -> (r: Option<usize>)
    ensures
        r matches Some(k) ==> last_index_of(s@, c) == Some(k as int) && k < s.len(),
        r is None ==> last_index_of(s@, c) is None,
{
    proof {
        lemma_last_index_of(s@, c);
    }
    let mut i: usize = s.len();
    assert(s@.take(i as int) =~= s@);
    while i > 0
        invariant
            i <= s.len(),
            last_index_of(s@, c) == last_index_of(s@.take(i as int), c),
        decreases i,
    {
        if s[i - 1] == c {
            return Some(i - 1);
        }
        assert(s@.take(i as int).drop_last() =~= s@.take(i - 1));
        i -= 1;
    }
    None
}

/// A path separator: `/` or `\\`.
pub open spec fn is_sep(c: char) -> bool {
    c == '/' || c == '\\'
}

pub fn is_sep_char(c: char) -> (r: bool)
    ensures
        r == is_sep(c),
{
    c == '/' || c == '\\'
}

/// Position of the last separator in `s`.
pub open spec fn last_sep(s: Seq<char>) -> Option<int>
    decreases s.len(),
{
    if s.len() == 0 {
        None
    } else if is_sep(s.last()) {
        Some(s.len() - 1)
    } else {
        last_sep(s.drop_last())
    }
}

/// `last_sep` gives the position of the last separator, or `None` when there is none.
pub proof fn lemma_last_sep(s: Seq<char>)
    ensures
        last_sep(s) matches Some(k) ==> 0 <= k < s.len() && is_sep(s[k]) && forall|j: int|
            k < j < s.len() ==> !is_sep(s[j]),
        last_sep(s) is None ==> forall|j: int| 0 <= j < s.len() ==> !is_sep(s[j]),
    decreases s.len(),
{
    if s.len() > 0 {
        let t = s.drop_last();
        lemma_last_sep(t);
        assert forall|j: int| 0 <= j < t.len() implies t[j] == s[j] by {}
    }
}

pub fn last_sep_chars(s: &Vec<char>) -> (r: Option<usize>)
    ensures
        r matches Some(k) ==> last_sep(s@) == Some(k as int) && k < s.len(),
        r is None ==> last_sep(s@) is None,
{
    proof {
        lemma_last_sep(s@);
    }
    let mut i: usize = s.len();
    assert(s@.take(i as int) =~= s@);
    while i > 0
        invariant
            i <= s.len(),
            last_sep(s@) == last_sep(s@.take(i as int)),
        decreases i,
    {
        if is_sep_char(s[i - 1]) {
            return Some(i - 1);
        }
        assert(s@.take(i as int).drop_last() =~= s@.take(i - 1));
        i -= 1;
    }
    None
}

/// A drive letter followed by `:` and nothing else (`C:`).
pub open spec fn is_bare_drive(p: Seq<char>) -> bool {
    p.len() == 2 && (is_upper_ascii(p[0]) || is_lower_ascii(p[0])) && p[1] == ':'
}

/// Length of the root a path starts with: a separator (1), a drive letter with
/// `:` and a separator such as `D:\\` (3), or none (0).
pub open spec fn root_len(p: Seq<char>) -> int {
    if p.len() >= 1 && is_sep(p[0]) {
        1
    } else if p.len() >= 3 && is_bare_drive(p.take(2)) && is_sep(p[2]) {
        3
    } else {
        0
    }
}

pub fn root_len_chars(p: &Vec<char>) -> (r: usize)
    ensures
        r as int == root_len(p@),
{
    if p.len() >= 1 && is_sep_char(p[0]) {
        1
    } else if p.len() >= 3 && (('A' <= p[0] && p[0] <= 'Z') || ('a' <= p[0] && p[0] <= 'z')) && p[1]
        == ':' && is_sep_char(p[2]) {
        assert(is_bare_drive(p@.take(2)));
        3
    } else {
        assert(!(p@.len() >= 3 && is_bare_drive(p@.take(2)) && is_sep(p@[2]))) by {
            if p@.len() >= 3 && is_bare_drive(p@.take(2)) {
                assert(p@.take(2)[0] == p@[0]);
                assert(p@.take(2)[1] == p@[1]);
            }
        }
        0
    }
}

/// The final component: what follows the last separator (`Path::file_name`);
/// none when that is empty or `..`.
pub open spec fn file_name(p: Seq<char>) -> Option<Seq<char>> {
    let name = match last_sep(p) {
        Some(k) => p.skip(k + 1),
        None => p,
    };
    if name.len() == 0 || name == seq!['.', '.'] {
        None
    } else {
        Some(name)
    }
}

/// The path without its final component (`Path::parent`): up to the last
/// separator, keeping a root whole.
pub open spec fn parent(p: Seq<char>) -> Option<Seq<char>> {
    if p.len() == 0 || p.len() == root_len(p) {
        None
    } else {
        match last_sep(p) {
            None => Some(Seq::empty()),
            Some(k) => if k < root_len(p) {
                Some(p.take(root_len(p)))
            } else {
                Some(p.take(k))
            },
        }
    }
}

/// Position of the dot that starts the extension of a file name, if any
/// (a leading dot does not count).
pub open spec fn ext_dot(name: Seq<char>) -> Option<int> {
    match last_index_of(name, '.') {
        Some(k) => if k > 0 {
            Some(k)
        } else {
            None
        },
        None => None,
    }
}

/// The file name without its extension (`Path::file_stem`).
pub open spec fn stem_of_name(name: Seq<char>) -> Seq<char> {
    match ext_dot(name) {
        Some(k) => name.take(k),
        None => name,
    }
}

/// The extension of a file name (`Path::extension`).
pub open spec fn ext_of_name(name: Seq<char>) -> Option<Seq<char>> {
    match ext_dot(name) {
        Some(k) => Some(name.skip(k + 1)),
        None => None,
    }
}

pub open spec fn file_stem(p: Seq<char>) -> Option<Seq<char>> {
    match file_name(p) {
        Some(n) => Some(stem_of_name(n)),
        None => None,
    }
}

pub open spec fn extension(p: Seq<char>) -> Option<Seq<char>> {
    match file_name(p) {
        Some(n) => ext_of_name(n),
        None => None,
    }
}

/// The separator a path already uses: its last one, `/` when it has none.
pub open spec fn sep_of(p: Seq<char>) -> char {
    match last_sep(p) {
        Some(k) => p[k],
        None => '/',
    }
}

/// `base` joined with `rel` (`Path::join`): a `rel` that starts with a root
/// replaces `base`; otherwise the separator of `base` is inserted unless
/// `base` is empty or already ends with a separator.
pub open spec fn join(base: Seq<char>, rel: Seq<char>) -> Seq<char> {
    if root_len(rel) > 0 {
        rel
    } else if base.len() == 0 || is_sep(base.last()) {
        base + rel
    } else {
        base + seq![sep_of(base)] + rel
    }
}

/// The path with the extension of its file name replaced by `ext`
/// (`Path::with_extension`); unchanged when there is no file name.
pub open spec fn with_extension(p: Seq<char>, ext: Seq<char>) -> Seq<char> {
    match file_name(p) {
        None => p,
        Some(n) => {
            let head = p.take(p.len() - n.len() + stem_of_name(n).len());
            if ext.len() == 0 {
                head
            } else {
                head + seq!['.'] + ext
            }
        },
    }
}

/// `path` relative to `base` when `base` is a leading run of its components
/// (`Path::strip_prefix`).
pub open spec fn strip_dir_prefix(path: Seq<char>, base: Seq<char>) -> Option<Seq<char>> {
    if path == base {
        Some(Seq::empty())
    } else if base.len() > 0 && is_sep(base.last()) && starts_with(path, base) {
        Some(path.skip(base.len() as int))
    } else if starts_with(path, base) && path.len() > base.len() && is_sep(path[base.len() as int]) {
        Some(path.skip(base.len() as int + 1))
    } else {
        None
    }
}

/// Where a path lies after the directory `old_dir` was renamed to `new_dir`.
pub open spec fn remap_after_dir_rename(path: Seq<char>, old_dir: Seq<char>, new_dir: Seq<char>) -> Seq<char> {
    match strip_dir_prefix(path, old_dir) {
        Some(rel) => join(new_dir, rel),
        None => path,
    }
}

/// A suffix without a separator does not move the last separator.
pub proof fn lemma_last_sep_append(a: Seq<char>, b: Seq<char>)
    requires
        forall|i: int| 0 <= i < b.len() ==> !is_sep(b[i]),
    ensures
        last_sep(a + b) == last_sep(a),
    decreases b.len(),
{
    if b.len() == 0 {
        assert(a + b =~= a);
    } else {
        assert((a + b).drop_last() =~= a + b.drop_last());
        assert((a + b).last() == b.last());
        assert(b.last() == b[b.len() - 1]);
        lemma_last_sep_append(a, b.drop_last());
    }
}

/// Joining a single component `x` (no separator, not empty, not `..`) to a
/// path: the result's file name is `x`, it ends with `x`, and its parent is
/// the path when that is not empty, does not end with a separator and is not
/// a bare drive (`C:`).
pub proof fn lemma_join_component(base: Seq<char>, x: Seq<char>)
    requires
        x.len() > 0,
        forall|i: int| 0 <= i < x.len() ==> !is_sep(x[i]),
        x != seq!['.', '.'],
    ensures
        file_name(join(base, x)) == Some(x),
        join(base, x).len() >= x.len(),
        join(base, x).skip(join(base, x).len() - x.len()) == x,
        !is_sep(join(base, x).last()),
        base.len() > 0 && !is_sep(base.last()) && !is_bare_drive(base) ==> parent(join(base, x)) == Some(base),
{
    let j = join(base, x);
    assert(!is_sep(x[0]));
    assert(root_len(x) == 0);
    lemma_last_sep(x);
    assert(last_sep(x) is None);
    assert(x.last() == x[x.len() - 1]);
    if base.len() == 0 {
        assert(j =~= Seq::<char>::empty() + x);
        assert(j =~= x);
        assert(x.skip(0) =~= x);
    } else if is_sep(base.last()) {
        assert(j == base + x);
        lemma_last_sep_append(base, x);
        assert(base.drop_last().push(base.last()) =~= base);
        assert(last_sep(base) == Some(base.len() - 1));
        assert(j.skip(base.len() as int) =~= x);
        assert(j.last() == x.last());
    } else {
        lemma_last_sep(base);
        let pre = base + seq![sep_of(base)];
        assert(is_sep(sep_of(base)));
        assert(j == pre + x);
        lemma_last_sep_append(pre, x);
        assert(pre.drop_last() =~= base);
        assert(last_sep(pre) == Some(base.len() as int));
        assert(j.skip(base.len() + 1int) =~= x);
        assert(j.last() == x.last());
        assert(j.take(base.len() as int) =~= base);
        assert(is_sep(j[base.len() as int]));
        if !is_bare_drive(base) {
            assert(root_len(j) <= base.len()) by {
                if base.len() < 3 && j.len() >= 3 && is_bare_drive(j.take(2)) && is_sep(j[2]) {
                    assert(base.len() == 2);
                    assert(j.take(2) =~= base);
                }
                if j.len() >= 1 && is_sep(j[0]) {
                    assert(j[0] == base[0]);
                }
            }
            assert(j.len() > root_len(j));
        }
    }
}

// ------------------------------------------------------------------
// Executable counterparts
// ------------------------------------------------------------------

pub fn file_name_chars(p: &Vec<char>) -> (r: Option<Vec<char>>)
    ensures
        r matches Some(n) ==> file_name(p@) == Some(n@),
        r is None ==> file_name(p@) is None,
{
    let name = match last_sep_chars(p) {
        Some(k) => {
            assert(p@.subrange(k + 1, p.len() as int) =~= p@.skip(k + 1));
            slice(p, k + 1, p.len())
        },
        None => copy_chars(p),
    };
    let mut dd: Vec<char> = Vec::new();
    dd.push('.');
    dd.push('.');
    assert(dd@ =~= seq!['.', '.']);
    if name.len() == 0 || same(&name, &dd) {
        None
    } else {
        Some(name)
    }
}

pub fn parent_chars(p: &Vec<char>) -> (r: Option<Vec<char>>)
    ensures
        r matches Some(d) ==> parent(p@) == Some(d@),
        r is None ==> parent(p@) is None,
{
    let rl = root_len_chars(p);
    if p.len() == 0 || p.len() == rl {
        return None;
    }
    match last_sep_chars(p) {
        None => {
            let e: Vec<char> = Vec::new();
            assert(e@ =~= Seq::<char>::empty());
            Some(e)
        },
        Some(k) => {
            if k < rl {
                assert(p@.subrange(0, rl as int) =~= p@.take(rl as int));
                Some(slice(p, 0, rl))
            } else {
                assert(p@.subrange(0, k as int) =~= p@.take(k as int));
                Some(slice(p, 0, k))
            }
        },
    }
}

pub fn ext_dot_chars(name: &Vec<char>) -> (r: Option<usize>)
    ensures
        r matches Some(k) ==> ext_dot(name@) == Some(k as int),
        r is None ==> ext_dot(name@) is None,
{
    match last_index_of_chars(name, '.') {
        Some(k) => if k > 0 {
            Some(k)
        } else {
            None
        },
        None => None,
    }
}

pub fn stem_of_name_chars(name: &Vec<char>) -> (r: Vec<char>)
    ensures
        r@ == stem_of_name(name@),
{
    proof {
        lemma_last_index_of(name@, '.');
    }
    match ext_dot_chars(name) {
        Some(k) => {
            assert(name@.subrange(0, k as int) =~= name@.take(k as int));
            slice(name, 0, k)
        },
        None => copy_chars(name),
    }
}

pub fn ext_of_name_chars(name: &Vec<char>) -> (r: Option<Vec<char>>)
    ensures
        r matches Some(e) ==> ext_of_name(name@) == Some(e@),
        r is None ==> ext_of_name(name@) is None,
{
    proof {
        lemma_last_index_of(name@, '.');
    }
    match ext_dot_chars(name) {
        Some(k) => {
            assert(name@.subrange(k + 1, name.len() as int) =~= name@.skip(k + 1));
            Some(slice(name, k + 1, name.len()))
        },
        None => None,
    }
}

pub fn file_stem_chars(p: &Vec<char>) -> (r: Option<Vec<char>>)
    ensures
        r matches Some(n) ==> file_stem(p@) == Some(n@),
        r is None ==> file_stem(p@) is None,
{
    match file_name_chars(p) {
        Some(n) => Some(stem_of_name_chars(&n)),
        None => None,
    }
}

pub fn extension_chars(p: &Vec<char>) -> (r: Option<Vec<char>>)
    ensures
        r matches Some(n) ==> extension(p@) == Some(n@),
        r is None ==> extension(p@) is None,
{
    match file_name_chars(p) {
        Some(n) => ext_of_name_chars(&n),
        None => None,
    }
}

pub fn join_chars(base: &Vec<char>, rel: &Vec<char>) -> (r: Vec<char>)
    ensures
        r@ == join(base@, rel@),
{
    if root_len_chars(rel) > 0 {
        copy_chars(rel)
    } else if base.len() == 0 || is_sep_char(base[base.len() - 1]) {
        concat(base, rel)
    } else {
        let sep = match last_sep_chars(base) {
            Some(k) => base[k],
            None => '/',
        };
        let mut b = copy_chars(base);
        b.push(sep);
        assert(b@ =~= base@ + seq![sep_of(base@)]);
        concat(&b, rel)
    }
}

/// `base` joined with the string slice `rel`.
pub fn join_str(base: &Vec<char>, rel: &str) -> (r: Vec<char>)
    ensures
        r@ == join(base@, rel@),
{
    let rv = chars_of(rel);
    join_chars(base, &rv)
}

pub fn with_extension_chars(p: &Vec<char>, ext: &Vec<char>) -> (r: Vec<char>)
    ensures
        r@ == with_extension(p@, ext@),
{
    match file_name_chars(p) {
        None => copy_chars(p),
        Some(n) => {
            let stem = stem_of_name_chars(&n);
            proof {
                lemma_last_sep(p@);
                lemma_last_index_of(n@, '.');
            }
            assert(n.len() <= p.len());
            assert(stem.len() <= n.len());
            let end = p.len() - n.len() + stem.len();
            let head = slice(p, 0, end);
            assert(head@ =~= p@.take(end as int));
            if ext.len() == 0 {
                head
            } else {
                let mut h = head;
                h.push('.');
                assert(h@ =~= p@.take(end as int) + seq!['.']);
                concat(&h, ext)
            }
        },
    }
}

pub fn strip_dir_prefix_chars(path: &Vec<char>, base: &Vec<char>) -> (r: Option<Vec<char>>)
    ensures
        r matches Some(x) ==> strip_dir_prefix(path@, base@) == Some(x@),
        r is None ==> strip_dir_prefix(path@, base@) is None,
{
    if same(path, base) {
        let e: Vec<char> = Vec::new();
        assert(e@ =~= Seq::<char>::empty());
        return Some(e);
    }
    let prefixed = starts_with_chars(path, base);
    if base.len() > 0 && is_sep_char(base[base.len() - 1]) && prefixed {
        assert(path@.subrange(base.len() as int, path.len() as int) =~= path@.skip(
            base.len() as int,
        ));
        return Some(slice(path, base.len(), path.len()));
    }
    if prefixed && path.len() > base.len() && is_sep_char(path[base.len()]) {
        assert(path@.subrange(base.len() + 1, path.len() as int) =~= path@.skip(
            base.len() + 1,
        ));
        return Some(slice(path, base.len() + 1, path.len()));
    }
    None
}

pub fn remap_after_dir_rename_chars(path: &Vec<char>, old_dir: &Vec<char>, new_dir: &Vec<char>) -> (r: Vec<char>)
    ensures
        r@ == remap_after_dir_rename(path@, old_dir@, new_dir@),
{
    match strip_dir_prefix_chars(path, old_dir) {
        Some(rel) => join_chars(new_dir, &rel),
        None => copy_chars(path),
    }
}


/// A path inside a directory that was renamed, moved along with it; other
/// paths unchanged.
pub fn remap_path_after_dir_rename(path: &str, old_dir: &str, new_dir: &str) -> (r: String)
    ensures
        r@ == remap_after_dir_rename(path@, old_dir@, new_dir@),
{
    let p = chars_of(path);
    let o = chars_of(old_dir);
    let n = chars_of(new_dir);
    let r = remap_after_dir_rename_chars(&p, &o, &n);
    string_of(&r)
}

} // verus!
