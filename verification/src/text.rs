//! Character-sequence primitives used throughout the library.
//!
//! Text is modelled by its sequence of Unicode scalar values (`Seq<char>`); every
//! operation here is specified over that model and implemented on `Vec<char>`.

use vstd::prelude::*;

verus! {

broadcast use vstd::string::axiom_spec_iter;

// ------------------------------------------------------------------
// Character classes
// ------------------------------------------------------------------

/// Unicode `White_Space` property (what `char::is_whitespace` tests).
pub open spec fn is_ws(c: char) -> bool {
    ||| ('\u{9}' <= c && c <= '\u{d}')
    ||| c == ' '
    ||| c == '\u{85}'
    ||| c == '\u{a0}'
    ||| c == '\u{1680}'
    ||| ('\u{2000}' <= c && c <= '\u{200a}')
    ||| c == '\u{2028}'
    ||| c == '\u{2029}'
    ||| c == '\u{202f}'
    ||| c == '\u{205f}'
    ||| c == '\u{3000}'
}

/// General category `Cc` (what `char::is_control` tests).
pub open spec fn is_ctrl(c: char) -> bool {
    c <= '\u{1f}' || ('\u{7f}' <= c && c <= '\u{9f}')
}

pub open spec fn is_digit(c: char) -> bool {
    '0' <= c && c <= '9'
}

pub open spec fn is_upper_ascii(c: char) -> bool {
    'A' <= c && c <= 'Z'
}

pub open spec fn is_lower_ascii(c: char) -> bool {
    'a' <= c && c <= 'z'
}

pub open spec fn is_alnum(c: char) -> bool {
    is_digit(c) || is_upper_ascii(c) || is_lower_ascii(c)
}

/// ASCII lower-casing of one character (non-ASCII letters unchanged).
pub open spec fn lower(c: char) -> char {
    if is_upper_ascii(c) {
        ((c as u32) + 32) as char
    } else {
        c
    }
}

/// ASCII upper-casing of one character (non-ASCII letters unchanged).
pub open spec fn upper(c: char) -> char {
    if is_lower_ascii(c) {
        ((c as u32) - 32) as char
    } else {
        c
    }
}

pub open spec fn lower_seq(s: Seq<char>) -> Seq<char> {
    s.map_values(|c: char| lower(c))
}

pub open spec fn upper_seq(s: Seq<char>) -> Seq<char> {
    s.map_values(|c: char| upper(c))
}

/// Equality of two texts up to ASCII case.
pub open spec fn eq_ignore_case(a: Seq<char>, b: Seq<char>) -> bool {
    lower_seq(a) == lower_seq(b)
}

pub fn is_ws_char(c: char) -> (r: bool)
    ensures
        r == is_ws(c),
{
    ('\u{9}' <= c && c <= '\u{d}') || c == ' ' || c == '\u{85}' || c == '\u{a0}' || c == '\u{1680}'
        || ('\u{2000}' <= c && c <= '\u{200a}') || c == '\u{2028}' || c == '\u{2029}' || c
        == '\u{202f}' || c == '\u{205f}' || c == '\u{3000}'
}

pub fn is_ctrl_char(c: char) -> (r: bool)
    ensures
        r == is_ctrl(c),
{
    c <= '\u{1f}' || ('\u{7f}' <= c && c <= '\u{9f}')
}

pub fn is_digit_char(c: char) -> (r: bool)
    ensures
        r == is_digit(c),
{
    '0' <= c && c <= '9'
}

pub fn is_alnum_char(c: char) -> (r: bool)
    ensures
        r == is_alnum(c),
{
    ('0' <= c && c <= '9') || ('A' <= c && c <= 'Z') || ('a' <= c && c <= 'z')
}

pub fn lower_char(c: char) -> (r: char)
    ensures
        r == lower(c),
{
    if 'A' <= c && c <= 'Z' {
        let u: u32 = c as u32 + 32;
        assert(u <= 0x7a);
        char_from_ascii(u)
    } else {
        c
    }
}

pub fn upper_char(c: char) -> (r: char)
    ensures
        r == upper(c),
{
    if 'a' <= c && c <= 'z' {
        let u: u32 = c as u32 - 32;
        char_from_ascii(u)
    } else {
        c
    }
}

fn char_from_ascii(u: u32) -> (r: char)
    requires
        u < 128,
    ensures
        r == u as char,
{
    let b: u8 = u as u8;
    b as char
}

// ------------------------------------------------------------------
// Conversion between `str` / `String` and character vectors
// ------------------------------------------------------------------

/// The characters of a string slice, in order.
pub fn chars_of(s: &str) -> (v: Vec<char>)
    ensures
        v@ == s@,
{
    let mut v: Vec<char> = Vec::new();
    for c in it: s.chars()
        invariant
            v@ == it.seq().take(it.index() as int),
            it.seq() == s@,
    {
        v.push(c);
    }
    v
}

/// `String` collected from `chars` (`FromIterator<char>`).
#[verifier::external_body]
pub(crate) fn string_of(chars: &Vec<char>) -> (s: String)
    ensures
        s@ == chars@,
{
    chars.iter().collect()
}

/// Owned copy of a string slice.
pub fn owned(s: &str) -> (r: String)
    ensures
        r@ == s@,
{
    let v = chars_of(s);
    string_of(&v)
}

/// Copy of a character vector.
pub fn copy_chars(v: &Vec<char>) -> (r: Vec<char>)
    ensures
        r@ == v@,
{
    let mut r: Vec<char> = Vec::new();
    let mut i: usize = 0;
    while i < v.len()
        invariant
            i <= v.len(),
            r@ == v@.take(i as int),
        decreases v.len() - i,
    {
        r.push(v[i]);
        i += 1;
        assert(r@ =~= v@.take(i as int));
    }
    assert(v@.take(v.len() as int) =~= v@);
    r
}

/// `a` followed by `b`.
pub fn concat(a: &Vec<char>, b: &Vec<char>) -> (r: Vec<char>)
    ensures
        r@ == a@ + b@,
{
    let mut r = copy_chars(a);
    let mut i: usize = 0;
    while i < b.len()
        invariant
            i <= b.len(),
            r@ == a@ + b@.take(i as int),
        decreases b.len() - i,
    {
        r.push(b[i]);
        i += 1;
        assert(r@ =~= a@ + b@.take(i as int));
    }
    assert(b@.take(b.len() as int) =~= b@);
    r
}

/// `s[lo..hi]`.
pub fn slice(s: &Vec<char>, lo: usize, hi: usize) -> (r: Vec<char>)
    requires
        lo <= hi <= s.len(),
    ensures
        r@ == s@.subrange(lo as int, hi as int),
{
    let mut r: Vec<char> = Vec::new();
    let mut i: usize = lo;
    while i < hi
        invariant
            lo <= i <= hi <= s.len(),
            r@ == s@.subrange(lo as int, i as int),
        decreases hi - i,
    {
        r.push(s[i]);
        i += 1;
        assert(r@ =~= s@.subrange(lo as int, i as int));
    }
    r
}

/// Equality of two character vectors.
pub fn same(a: &Vec<char>, b: &Vec<char>) -> (r: bool)
    ensures
        r == (a@ == b@),
{
    if a.len() != b.len() {
        return false;
    }
    let mut i: usize = 0;
    while i < a.len()
        invariant
            i <= a.len() == b.len(),
            forall|k: int| 0 <= k < i ==> a@[k] == b@[k],
        decreases a.len() - i,
    {
        if a[i] != b[i] {
            return false;
        }
        i += 1;
    }
    assert(a@ =~= b@);
    true
}

/// Equality of two string slices.
pub fn str_eq(a: &str, b: &str) -> (r: bool)
    ensures
        r == (a@ == b@),
{
    let va = chars_of(a);
    let vb = chars_of(b);
    same(&va, &vb)
}

pub fn lower_chars(s: &Vec<char>) -> (r: Vec<char>)
    ensures
        r@ == lower_seq(s@),
{
    let mut r: Vec<char> = Vec::new();
    let mut i: usize = 0;
    while i < s.len()
        invariant
            i <= s.len(),
            r@ == lower_seq(s@.take(i as int)),
        decreases s.len() - i,
    {
        let c = lower_char(s[i]);
        r.push(c);
        i += 1;
        assert(r@ =~= lower_seq(s@.take(i as int)));
    }
    assert(s@.take(s.len() as int) =~= s@);
    r
}

pub fn upper_chars(s: &Vec<char>) -> (r: Vec<char>)
    ensures
        r@ == upper_seq(s@),
{
    let mut r: Vec<char> = Vec::new();
    let mut i: usize = 0;
    while i < s.len()
        invariant
            i <= s.len(),
            r@ == upper_seq(s@.take(i as int)),
        decreases s.len() - i,
    {
        let c = upper_char(s[i]);
        r.push(c);
        i += 1;
        assert(r@ =~= upper_seq(s@.take(i as int)));
    }
    assert(s@.take(s.len() as int) =~= s@);
    r
}

pub fn eq_ignore_case_chars(a: &Vec<char>, b: &Vec<char>) -> (r: bool)
    ensures
        r == eq_ignore_case(a@, b@),
{
    let la = lower_chars(a);
    let lb = lower_chars(b);
    same(&la, &lb)
}

// ------------------------------------------------------------------
// Trimming
// ------------------------------------------------------------------

pub open spec fn trim_start(s: Seq<char>) -> Seq<char>
    decreases s.len(),
{
    if s.len() > 0 && is_ws(s[0]) {
        trim_start(s.drop_first())
    } else {
        s
    }
}

pub open spec fn trim_end(s: Seq<char>) -> Seq<char>
    decreases s.len(),
{
    if s.len() > 0 && is_ws(s.last()) {
        trim_end(s.drop_last())
    } else {
        s
    }
}

/// What `str::trim` leaves: leading and trailing white space removed.
pub open spec fn trim(s: Seq<char>) -> Seq<char> {
    trim_end(trim_start(s))
}

/// `s` with trailing characters from `set` removed (`trim_end_matches`).
pub open spec fn trim_end_set(s: Seq<char>, set: Seq<char>) -> Seq<char>
    decreases s.len(),
{
    if s.len() > 0 && set.contains(s.last()) {
        trim_end_set(s.drop_last(), set)
    } else {
        s
    }
}

/// `s` with leading characters equal to `c` removed (`trim_start_matches`).
pub open spec fn trim_start_char(s: Seq<char>, c: char) -> Seq<char>
    decreases s.len(),
{
    if s.len() > 0 && s[0] == c {
        trim_start_char(s.drop_first(), c)
    } else {
        s
    }
}

pub fn trim_chars(s: &Vec<char>) -> (r: Vec<char>)
    ensures
        r@ == trim(s@),
{
    let n = s.len();
    let mut lo: usize = 0;
    assert(s@.skip(0) =~= s@);
    while lo < n && is_ws_char(s[lo])
        invariant
            lo <= n == s.len(),
            trim_start(s@) == trim_start(s@.skip(lo as int)),
        decreases n - lo,
    {
        assert(s@.skip(lo as int).drop_first() =~= s@.skip(lo + 1));
        lo += 1;
    }
    assert(trim_start(s@) == s@.subrange(lo as int, n as int)) by {
        assert(s@.skip(lo as int) =~= s@.subrange(lo as int, n as int));
    }
    let mut hi: usize = n;
    while hi > lo && is_ws_char(s[hi - 1])
        invariant
            lo <= hi <= n == s.len(),
            trim(s@) == trim_end(s@.subrange(lo as int, hi as int)),
        decreases hi,
    {
        assert(s@.subrange(lo as int, hi as int).drop_last() =~= s@.subrange(
            lo as int,
            hi - 1,
        ));
        hi -= 1;
    }
    slice(s, lo, hi)
}

pub fn trim_end_set_chars(s: &Vec<char>, set: &Vec<char>) -> (r: Vec<char>)
    ensures
        r@ == trim_end_set(s@, set@),
{
    let mut hi: usize = s.len();
    assert(s@.take(hi as int) =~= s@);
    while hi > 0 && contains_char(set, s[hi - 1])
        invariant
            hi <= s.len(),
            trim_end_set(s@, set@) == trim_end_set(s@.take(hi as int), set@),
        decreases hi,
    {
        assert(s@.take(hi as int).drop_last() =~= s@.take(hi - 1));
        hi -= 1;
    }
    assert(s@.take(hi as int) =~= s@.subrange(0, hi as int));
    slice(s, 0, hi)
}

pub fn trim_start_char_chars(s: &Vec<char>, c: char) -> (r: Vec<char>)
    ensures
        r@ == trim_start_char(s@, c),
{
    let mut lo: usize = 0;
    assert(s@.skip(0) =~= s@);
    while lo < s.len() && s[lo] == c
        invariant
            lo <= s.len(),
            trim_start_char(s@, c) == trim_start_char(s@.skip(lo as int), c),
        decreases s.len() - lo,
    {
        assert(s@.skip(lo as int).drop_first() =~= s@.skip(lo + 1));
        lo += 1;
    }
    assert(s@.skip(lo as int) =~= s@.subrange(lo as int, s.len() as int));
    slice(s, lo, s.len())
}

/// Is `c` an element of `v`?
pub fn contains_char(v: &Vec<char>, c: char) -> (r: bool)
    ensures
        r == v@.contains(c),
{
    let mut i: usize = 0;
    while i < v.len()
        invariant
            i <= v.len(),
            forall|k: int| 0 <= k < i ==> v@[k] != c,
        decreases v.len() - i,
    {
        if v[i] == c {
            assert(v@[i as int] == c);
            return true;
        }
        i += 1;
    }
    false
}

/// Trimmed copy of a string slice (`str::trim`).
pub fn trim_str(s: &str) -> (r: Vec<char>)
    ensures
        r@ == trim(s@),
{
    let v = chars_of(s);
    trim_chars(&v)
}

/// Is the text blank (empty after trimming)?
pub open spec fn is_blank(s: Seq<char>) -> bool {
    trim(s).len() == 0
}

pub fn is_blank_str(s: &str) -> (r: bool)
    ensures
        r == is_blank(s@),
{
    let t = trim_str(s);
    t.len() == 0
}

// ------------------------------------------------------------------
// Prefixes, suffixes, search
// ------------------------------------------------------------------

pub open spec fn starts_with(s: Seq<char>, p: Seq<char>) -> bool {
    p.len() <= s.len() && s.take(p.len() as int) == p
}

pub open spec fn ends_with(s: Seq<char>, p: Seq<char>) -> bool {
    p.len() <= s.len() && s.skip(s.len() - p.len()) == p
}

pub open spec fn occurs_at(s: Seq<char>, p: Seq<char>, i: int) -> bool {
    0 <= i && i + p.len() <= s.len() && s.subrange(i, i + p.len()) == p
}

/// First position at or after `i` where `p` occurs in `s`.
pub open spec fn find_from(s: Seq<char>, p: Seq<char>, i: int) -> Option<int>
    decreases s.len() + 1 - i,
{
    if i < 0 || i + p.len() > s.len() {
        None
    } else if occurs_at(s, p, i) {
        Some(i)
    } else {
        find_from(s, p, i + 1)
    }
}

/// First position where `p` occurs in `s` (`str::find`).
pub open spec fn find(s: Seq<char>, p: Seq<char>) -> Option<int> {
    find_from(s, p, 0)
}

pub open spec fn contains(s: Seq<char>, p: Seq<char>) -> bool {
    find(s, p) is Some
}

pub fn starts_with_chars(s: &Vec<char>, p: &Vec<char>) -> (r: bool)
    ensures
        r == starts_with(s@, p@),
{
    if p.len() > s.len() {
        return false;
    }
    let h = slice(s, 0, p.len());
    assert(h@ =~= s@.take(p.len() as int));
    same(&h, p)
}

pub fn ends_with_chars(s: &Vec<char>, p: &Vec<char>) -> (r: bool)
    ensures
        r == ends_with(s@, p@),
{
    if p.len() > s.len() {
        return false;
    }
    let t = slice(s, s.len() - p.len(), s.len());
    assert(t@ =~= s@.skip(s.len() - p.len()));
    same(&t, p)
}

pub fn occurs_at_chars(s: &Vec<char>, p: &Vec<char>, i: usize) -> (r: bool)
    ensures
        r == occurs_at(s@, p@, i as int),
{
    if p.len() > s.len() || i > s.len() - p.len() {
        return false;
    }
    let mut k: usize = 0;
    while k < p.len()
        invariant
            i + p.len() <= s.len(),
            k <= p.len(),
            forall|j: int| 0 <= j < k ==> s@[i + j] == p@[j],
        decreases p.len() - k,
    {
        if s[i + k] != p[k] {
            assert(s@.subrange(i as int, i + p.len())[k as int] != p@[k as int]);
            return false;
        }
        k += 1;
    }
    assert(s@.subrange(i as int, i + p.len()) =~= p@);
    true
}

pub fn find_chars(s: &Vec<char>, p: &Vec<char>) -> (r: Option<usize>)
    ensures
        r matches Some(i) ==> find(s@, p@) == Some(i as int),
        r is None ==> find(s@, p@) is None,
{
    if p.len() > s.len() {
        return None;
    }
    let last = s.len() - p.len();
    let mut i: usize = 0;
    loop
        invariant
            i <= last,
            last + p.len() == s.len(),
            find(s@, p@) == find_from(s@, p@, i as int),
        decreases last - i,
    {
        if occurs_at_chars(s, p, i) {
            return Some(i);
        }
        if i == last {
            assert(find_from(s@, p@, i + 1) is None);
            return None;
        }
        i += 1;
    }
}

pub fn contains_chars(s: &Vec<char>, p: &Vec<char>) -> (r: bool)
    ensures
        r == contains(s@, p@),
{
    find_chars(s, p).is_some()
}

/// Does `s` contain the string slice `p`?
pub fn contains_str(s: &Vec<char>, p: &str) -> (r: bool)
    ensures
        r == contains(s@, p@),
{
    let pv = chars_of(p);
    contains_chars(s, &pv)
}

pub fn starts_with_str(s: &Vec<char>, p: &str) -> (r: bool)
    ensures
        r == starts_with(s@, p@),
{
    let pv = chars_of(p);
    starts_with_chars(s, &pv)
}

pub fn ends_with_str(s: &Vec<char>, p: &str) -> (r: bool)
    ensures
        r == ends_with(s@, p@),
{
    let pv = chars_of(p);
    ends_with_chars(s, &pv)
}

// ------------------------------------------------------------------
// Splitting and joining
// ------------------------------------------------------------------

/// Pieces of `s` between separators drawn from `seps` (`str::split` with a
/// character set): always at least one piece, empty pieces kept.
pub open spec fn split_set(s: Seq<char>, seps: Seq<char>) -> Seq<Seq<char>>
    decreases s.len(),
{
    if s.len() == 0 {
        seq![Seq::<char>::empty()]
    } else {
        let r = split_set(s.drop_last(), seps);
        if seps.contains(s.last()) {
            r.push(Seq::<char>::empty())
        } else {
            r.update(r.len() - 1, r.last().push(s.last()))
        }
    }
}

/// Splitting always gives at least one part (possibly empty).
pub proof fn lemma_split_set_nonempty(s: Seq<char>, seps: Seq<char>)
    ensures
        split_set(s, seps).len() >= 1,
    decreases s.len(),
{
    if s.len() > 0 {
        lemma_split_set_nonempty(s.drop_last(), seps);
    }
}

/// Maximal runs of non-white-space characters (`str::split_whitespace`).
pub open spec fn words(s: Seq<char>) -> Seq<Seq<char>>
    decreases s.len(),
{
    if s.len() == 0 {
        Seq::empty()
    } else {
        let prev = s.drop_last();
        let w = words(prev);
        let c = s.last();
        if is_ws(c) {
            w
        } else if prev.len() > 0 && !is_ws(prev.last()) && w.len() > 0 {
            w.update(w.len() - 1, w.last().push(c))
        } else {
            w.push(seq![c])
        }
    }
}

/// `parts` joined with `sep` between consecutive parts (`[T]::join`).
pub open spec fn join(parts: Seq<Seq<char>>, sep: Seq<char>) -> Seq<char>
    decreases parts.len(),
{
    if parts.len() == 0 {
        Seq::empty()
    } else if parts.len() == 1 {
        parts[0]
    } else {
        join(parts.drop_last(), sep) + sep + parts.last()
    }
}

/// White space collapsed: the words of `s` joined by single spaces.
pub open spec fn collapse_ws(s: Seq<char>) -> Seq<char> {
    join(words(s), seq![' '])
}

pub open spec fn views(v: Seq<Vec<char>>) -> Seq<Seq<char>> {
    v.map_values(|x: Vec<char>| x@)
}

pub open spec fn string_views(v: Seq<String>) -> Seq<Seq<char>> {
    v.map_values(|x: String| x@)
}

/// Does the list hold the text `t`?
pub fn list_contains(v: &Vec<String>, t: &Vec<char>) -> (r: bool)
    ensures
        r == string_views(v@).contains(t@),
{
    let mut i: usize = 0;
    while i < v.len()
        invariant
            i <= v.len(),
            forall|k: int| 0 <= k < i ==> string_views(v@)[k] != t@,
        decreases v.len() - i,
    {
        let c = chars_of(v[i].as_str());
        if same(&c, t) {
            assert(string_views(v@)[i as int] == t@);
            return true;
        }
        i += 1;
    }
    false
}

pub fn split_set_chars(s: &Vec<char>, seps: &Vec<char>) -> (r: Vec<Vec<char>>)
    ensures
        views(r@) == split_set(s@, seps@),
{
    let mut done: Vec<Vec<char>> = Vec::new();
    let mut cur: Vec<char> = Vec::new();
    let mut i: usize = 0;
    while i < s.len()
        invariant
            i <= s.len(),
            split_set(s@.take(i as int), seps@) == views(done@).push(cur@),
        decreases s.len() - i,
    {
        let c = s[i];
        assert(s@.take(i + 1).drop_last() =~= s@.take(i as int));
        if contains_char(seps, c) {
            let ghost old_done = done@;
            done.push(cur);
            cur = Vec::new();
            assert(views(done@) =~= views(old_done).push(views(done@).last()));
            assert(split_set(s@.take(i + 1), seps@) =~= views(done@).push(cur@));
        } else {
            let ghost old_cur = cur@;
            cur.push(c);
            assert(split_set(s@.take(i + 1), seps@) =~= views(done@).push(cur@));
        }
        i += 1;
    }
    assert(s@.take(s.len() as int) =~= s@);
    let ghost old_done = done@;
    done.push(cur);
    assert(views(done@) =~= views(old_done).push(views(done@).last()));
    done
}

pub fn words_chars(s: &Vec<char>) -> (r: Vec<Vec<char>>)
    ensures
        views(r@) == words(s@),
{
    let mut done: Vec<Vec<char>> = Vec::new();
    let mut i: usize = 0;
    while i < s.len()
        invariant
            i <= s.len(),
            words(s@.take(i as int)) == views(done@),
        decreases s.len() - i,
    {
        let c = s[i];
        let ghost prev = s@.take(i as int);
        assert(s@.take(i + 1).drop_last() =~= prev);
        if is_ws_char(c) {
        } else if i > 0 && !is_ws_char(s[i - 1]) && done.len() > 0 {
            let last_idx = done.len() - 1;
            let mut w = copy_chars(&done[last_idx]);
            w.push(c);
            let ghost old_done = done@;
            done.set(last_idx, w);
            assert(views(done@) =~= views(old_done).update(
                last_idx as int,
                views(old_done).last().push(c),
            ));
        } else {
            let mut w: Vec<char> = Vec::new();
            w.push(c);
            let ghost old_done = done@;
            done.push(w);
            assert(views(done@) =~= views(old_done).push(seq![c]));
        }
        i += 1;
    }
    assert(s@.take(s.len() as int) =~= s@);
    done
}

pub fn join_chars(parts: &Vec<Vec<char>>, sep: &Vec<char>) -> (r: Vec<char>)
    ensures
        r@ == join(views(parts@), sep@),
{
    let mut r: Vec<char> = Vec::new();
    let mut i: usize = 0;
    while i < parts.len()
        invariant
            i <= parts.len(),
            r@ == join(views(parts@).take(i as int), sep@),
        decreases parts.len() - i,
    {
        assert(views(parts@).take(i + 1).drop_last() =~= views(parts@).take(i as int));
        if i == 0 {
            r = copy_chars(&parts[0]);
        } else {
            let t = concat(&r, sep);
            r = concat(&t, &parts[i]);
        }
        i += 1;
    }
    assert(views(parts@).take(parts.len() as int) =~= views(parts@));
    r
}

/// The texts of `parts` joined with `sep` between them.
pub fn join_strings(parts: &Vec<String>, sep: &str) -> (r: String)
    ensures
        r@ == join(string_views(parts@), sep@),
{
    let mut cs: Vec<Vec<char>> = Vec::new();
    let mut i: usize = 0;
    while i < parts.len()
        invariant
            i <= parts.len(),
            views(cs@) == string_views(parts@).take(i as int),
        decreases parts.len() - i,
    {
        let ghost before = views(cs@);
        cs.push(chars_of(parts[i].as_str()));
        assert(views(cs@) =~= before.push(parts@[i as int]@));
        i += 1;
        assert(string_views(parts@).take(i as int) =~= before.push(parts@[i - 1]@));
    }
    assert(string_views(parts@).take(parts.len() as int) =~= string_views(parts@));
    let joined = join_chars(&cs, &chars_of(sep));
    string_of(&joined)
}

/// White space collapsed (`split_whitespace().collect::<Vec<_>>().join(" ")`).
pub fn collapse_ws_chars(s: &Vec<char>) -> (r: Vec<char>)
    ensures
        r@ == collapse_ws(s@),
{
    let w = words_chars(s);
    let mut sep: Vec<char> = Vec::new();
    sep.push(' ');
    assert(sep@ =~= seq![' ']);
    join_chars(&w, &sep)
}

// ------------------------------------------------------------------
// Integers
// ------------------------------------------------------------------

pub open spec fn all_digits(s: Seq<char>) -> bool {
    forall|i: int| 0 <= i < s.len() ==> is_digit(#[trigger] s[i])
}

/// Decimal value of a digit string.
pub open spec fn digits_value(s: Seq<char>) -> nat
    decreases s.len(),
{
    if s.len() == 0 {
        0
    } else {
        digits_value(s.drop_last()) * 10 + ((s.last() as nat) - ('0' as nat)) as nat
    }
}

/// The leading run of ASCII digits of `s` (`take_while(is_ascii_digit)`).
pub open spec fn leading_digits(s: Seq<char>) -> Seq<char>
    decreases s.len(),
{
    if s.len() > 0 && is_digit(s[0]) {
        seq![s[0]] + leading_digits(s.drop_first())
    } else {
        Seq::empty()
    }
}

/// The leading ASCII digits of a character vector.
pub fn leading_digits_chars(s: &Vec<char>) -> (r: Vec<char>)
    ensures
        r@ == leading_digits(s@),
{
    let mut n: usize = 0;
    assert(s@.skip(0) =~= s@);
    while n < s.len() && is_digit_char(s[n])
        invariant
            n <= s.len(),
            leading_digits(s@) == s@.take(n as int) + leading_digits(s@.skip(n as int)),
        decreases s.len() - n,
    {
        assert(s@.skip(n as int).drop_first() =~= s@.skip(n + 1));
        assert(s@.take(n + 1) =~= s@.take(n as int) + seq![s@[n as int]]);
        n += 1;
    }
    assert(leading_digits(s@.skip(n as int)) =~= Seq::<char>::empty());
    assert(s@.take(n as int) + Seq::<char>::empty() =~= s@.take(n as int));
    slice(s, 0, n)
}

/// The first `n` characters of `s` (all of them when it is shorter).
pub open spec fn take_at_most(s: Seq<char>, n: nat) -> Seq<char> {
    if s.len() <= n {
        s
    } else {
        s.take(n as int)
    }
}

pub fn take_at_most_chars(s: &Vec<char>, n: usize) -> (r: Vec<char>)
    ensures
        r@ == take_at_most(s@, n as nat),
{
    if s.len() <= n {
        slice(s, 0, s.len())
    } else {
        slice(s, 0, n)
    }
}

/// What `str::parse::<T>` yields for an integer type whose range is
/// `min..=max`: an optional `+` (or, when `min < 0`, `-`) sign followed by at
/// least one ASCII digit, the value in range.
pub open spec fn parse_int(s: Seq<char>, min: int, max: int) -> Option<int> {
    let neg = s.len() > 0 && s[0] == '-' && min < 0;
    let signed = s.len() > 0 && (s[0] == '+' || neg);
    let body = if signed { s.drop_first() } else { s };
    if body.len() == 0 || !all_digits(body) {
        None
    } else {
        let v: int = if neg { -(digits_value(body) as int) } else { digits_value(body) as int };
        if min <= v <= max { Some(v) } else { None }
    }
}

/// Parses a digit string (optionally signed) into an integer in `min..=max`.
pub fn parse_int_chars(s: &Vec<char>, min: i128, max: i128) -> (r: Option<i128>)
    requires
        -0x1_0000_0000_0000_0000 <= min <= 0 <= max <= 0xffff_ffff_ffff_ffff,
    ensures
        r matches Some(v) ==> parse_int(s@, min as int, max as int) == Some(v as int),
        r is None ==> parse_int(s@, min as int, max as int) is None,
{
    let neg = s.len() > 0 && s[0] == '-' && min < 0;
    let signed = s.len() > 0 && (s[0] == '+' || neg);
    let start: usize = if signed { 1 } else { 0 };
    let ghost body = if signed { s@.drop_first() } else { s@ };
    assert(body =~= s@.skip(start as int));
    assert(neg == (s@.len() > 0 && s@[0] == '-' && min < 0));
    assert(signed == (s@.len() > 0 && (s@[0] == '+' || neg)));
    if start >= s.len() {
        return None;
    }
    let limit: i128 = if neg { -min } else { max };
    let mut v: i128 = 0;
    let mut i: usize = start;
    while i < s.len()
        invariant
            start <= i <= s.len(),
            body =~= s@.skip(start as int),
            neg == (s@.len() > 0 && s@[0] == '-' && min < 0),
            signed == (s@.len() > 0 && (s@[0] == '+' || neg)),
            body == (if signed { s@.drop_first() } else { s@ }),
            limit == (if neg { -min } else { max as int }),
            -0x1_0000_0000_0000_0000 <= min <= 0 <= max <= 0xffff_ffff_ffff_ffff,
            0 <= limit <= 0x1_0000_0000_0000_0000,
            all_digits(s@.subrange(start as int, i as int)),
            v as int == digits_value(s@.subrange(start as int, i as int)),
            0 <= v <= limit,
        decreases s.len() - i,
    {
        let c = s[i];
        if !is_digit_char(c) {
            assert(!all_digits(body)) by {
                assert(body[i - start] == c);
            }
            return None;
        }
        let d: i128 = (c as u32 - '0' as u32) as i128;
        assert(s@.subrange(start as int, i + 1).drop_last() =~= s@.subrange(start as int, i as int));
        if v * 10 + d > limit {
            // the value of body exceeds the limit: every longer prefix only grows
            proof {
                lemma_value_exceeds(s@, start as int, i as int + 1, limit as int);
            }
            return None;
        }
        v = v * 10 + d;
        i += 1;
    }
    assert(s@.subrange(start as int, s.len() as int) =~= body);
    if neg {
        Some(-v)
    } else {
        Some(v)
    }
}

/// Once a prefix of the digits exceeds `limit`, so does the whole number.
proof fn lemma_value_exceeds(s: Seq<char>, start: int, j: int, limit: int)
    requires
        0 <= start < j <= s.len(),
        all_digits(s.subrange(start, j)),
        digits_value(s.subrange(start, j)) > limit,
    ensures
        all_digits(s.skip(start)) ==> digits_value(s.skip(start)) > limit,
    decreases s.len() - j,
{
    if j < s.len() {
        if all_digits(s.skip(start)) {
            assert(all_digits(s.subrange(start, j + 1))) by {
                assert forall|k: int| 0 <= k < j + 1 - start implies is_digit(
                    #[trigger] s.subrange(start, j + 1)[k],
                ) by {
                    assert(s.subrange(start, j + 1)[k] == s.skip(start)[k]);
                }
            }
            assert(s.subrange(start, j + 1).drop_last() =~= s.subrange(start, j));
            lemma_value_exceeds(s, start, j + 1, limit);
        }
    } else {
        assert(s.subrange(start, j) =~= s.skip(start));
    }
}

} // verus!

verus! {

// ------------------------------------------------------------------
// Unicode case mapping (std)
// ------------------------------------------------------------------

/// What `str::to_uppercase` returns for a text (full Unicode case mapping).
pub uninterp spec fn unicode_upper(s: Seq<char>) -> Seq<char>;

/// What `str::to_lowercase` returns for a text (full Unicode case mapping).
pub uninterp spec fn unicode_lower(s: Seq<char>) -> Seq<char>;

/// `str::to_uppercase`: the result is named, as Unicode case mapping is table-driven.
#[verifier::external_body]
pub(crate) fn to_uppercase(s: &str) -> (r: String)
    ensures
        r@ == unicode_upper(s@),
{
    s.to_uppercase()
}

/// `str::to_lowercase`: the result is named, as Unicode case mapping is table-driven.
#[verifier::external_body]
pub(crate) fn to_lowercase(s: &str) -> (r: String)
    ensures
        r@ == unicode_lower(s@),
{
    s.to_lowercase()
}

/// Upper-cased characters of a character vector.
pub fn to_uppercase_chars(v: &Vec<char>) -> (r: Vec<char>)
    ensures
        r@ == unicode_upper(v@),
{
    let s = string_of(v);
    let u = to_uppercase(s.as_str());
    chars_of(u.as_str())
}

/// Lower-cased characters of a character vector.
pub fn to_lowercase_chars(v: &Vec<char>) -> (r: Vec<char>)
    ensures
        r@ == unicode_lower(v@),
{
    let s = string_of(v);
    let u = to_lowercase(s.as_str());
    chars_of(u.as_str())
}

} // verus!

verus! {

// ------------------------------------------------------------------
// Replacement
// ------------------------------------------------------------------

/// `s` with every non-overlapping occurrence of `pat`, scanning left to right,
/// replaced by `rep` (`str::replace`); an empty pattern leaves `s` unchanged.
pub open spec fn replace_all(s: Seq<char>, pat: Seq<char>, rep: Seq<char>) -> Seq<char>
    decreases s.len(),
{
    if pat.len() == 0 {
        s
    } else {
        match find(s, pat) {
            Some(i) => if 0 <= i && i + pat.len() <= s.len() {
                s.take(i) + rep + replace_all(s.skip(i + pat.len()), pat, rep)
            } else {
                s
            },
            None => s,
        }
    }
}

/// `find_from` gives the first occurrence of `p` at or after `i`.
pub proof fn lemma_find_from_bounds(s: Seq<char>, p: Seq<char>, i: int)
    ensures
        find_from(s, p, i) matches Some(k) ==> i <= k && occurs_at(s, p, k) && forall|j: int|
            i <= j < k ==> !occurs_at(s, p, j),
    decreases s.len() + 1 - i,
{
    if i >= 0 && i + p.len() <= s.len() && !occurs_at(s, p, i) {
        lemma_find_from_bounds(s, p, i + 1);
    }
}

pub fn replace_chars(s: &Vec<char>, pat: &Vec<char>, rep: &Vec<char>) -> (r: Vec<char>)
    ensures
        r@ == replace_all(s@, pat@, rep@),
{
    if pat.len() == 0 {
        return copy_chars(s);
    }
    let mut out: Vec<char> = Vec::new();
    let mut rest = copy_chars(s);
    while rest.len() > 0
        invariant
            pat@.len() > 0,
            out@ + replace_all(rest@, pat@, rep@) == replace_all(s@, pat@, rep@),
        decreases rest.len(),
    {
        match find_chars(&rest, pat) {
            Some(i) => {
                proof {
                    lemma_find_from_bounds(rest@, pat@, 0);
                }
                let head = slice(&rest, 0, i);
                assert(head@ =~= rest@.take(i as int));
                let tail = slice(&rest, i + pat.len(), rest.len());
                assert(tail@ =~= rest@.skip(i + pat.len()));
                let t = concat(&out, &head);
                out = concat(&t, rep);
                rest = tail;
            },
            None => {
                out = concat(&out, &rest);
                rest = Vec::new();
                assert(replace_all(rest@, pat@, rep@) =~= Seq::<char>::empty());
            },
        }
    }
    assert(replace_all(rest@, pat@, rep@) =~= rest@);
    assert(out@ + rest@ =~= out@);
    out
}

/// `replace_chars` with a string-slice pattern.
pub fn replace_str(s: &Vec<char>, pat: &str, rep: &Vec<char>) -> (r: Vec<char>)
    ensures
        r@ == replace_all(s@, pat@, rep@),
{
    let p = chars_of(pat);
    replace_chars(s, &p, rep)
}

} // verus!

verus! {

// ------------------------------------------------------------------
// Decimal numerals
// ------------------------------------------------------------------

pub open spec fn digit_char(d: nat) -> char {
    ((d + 48) as u8) as char
}

/// The decimal numeral of `n` (`{}` of an unsigned integer).
pub open spec fn decimal(n: nat) -> Seq<char>
    decreases n,
{
    if n < 10 {
        seq![digit_char(n)]
    } else {
        decimal(n / 10).push(digit_char(n % 10))
    }
}

fn digit_of(d: u64) -> (r: char)
    requires
        d < 10,
    ensures
        r == digit_char(d as nat),
{
    let b: u8 = (d + 48) as u8;
    b as char
}

/// The decimal numeral of `n`.
pub fn decimal_chars(n: u64) -> (r: Vec<char>)
    ensures
        r@ == decimal(n as nat),
    decreases n,
{
    if n < 10 {
        let mut v: Vec<char> = Vec::new();
        v.push(digit_of(n));
        assert(v@ =~= seq![digit_char(n as nat)]);
        v
    } else {
        let mut v = decimal_chars(n / 10);
        v.push(digit_of(n % 10));
        v
    }
}

} // verus!

verus! {

/// `s` with leading characters from `set` removed (`trim_start_matches`).
pub open spec fn trim_start_set(s: Seq<char>, set: Seq<char>) -> Seq<char>
    decreases s.len(),
{
    if s.len() > 0 && set.contains(s[0]) {
        trim_start_set(s.drop_first(), set)
    } else {
        s
    }
}

pub fn trim_start_set_chars(s: &Vec<char>, set: &Vec<char>) -> (r: Vec<char>)
    ensures
        r@ == trim_start_set(s@, set@),
{
    let mut lo: usize = 0;
    assert(s@.skip(0) =~= s@);
    while lo < s.len() && contains_char(set, s[lo])
        invariant
            lo <= s.len(),
            trim_start_set(s@, set@) == trim_start_set(s@.skip(lo as int), set@),
        decreases s.len() - lo,
    {
        assert(s@.skip(lo as int).drop_first() =~= s@.skip(lo + 1));
        lo += 1;
    }
    assert(s@.skip(lo as int) =~= s@.subrange(lo as int, s.len() as int));
    slice(s, lo, s.len())
}

} // verus!

verus! {

// ------------------------------------------------------------------
// Facts about trimming, words and joining
// ------------------------------------------------------------------

/// Every character of `s` satisfies `p`.
pub open spec fn all_chars(s: Seq<char>, p: spec_fn(char) -> bool) -> bool {
    forall|i: int| 0 <= i < s.len() ==> #[trigger] p(s[i])
}

/// `trim_start(s)` is a suffix of `s` that does not start with white space.
pub proof fn lemma_trim_start(s: Seq<char>)
    ensures
        trim_start(s).len() <= s.len(),
        trim_start(s) == s.skip(s.len() - trim_start(s).len()),
        trim_start(s).len() > 0 ==> !is_ws(trim_start(s)[0]),
    decreases s.len(),
{
    if s.len() > 0 && is_ws(s[0]) {
        lemma_trim_start(s.drop_first());
        assert(s.drop_first().skip(s.drop_first().len() - trim_start(s).len()) =~= s.skip(
            s.len() - trim_start(s).len(),
        ));
    } else {
        assert(s.skip(0) =~= s);
    }
}

/// `trim_end(s)` is a prefix of `s` that does not end with white space.
pub proof fn lemma_trim_end(s: Seq<char>)
    ensures
        trim_end(s).len() <= s.len(),
        trim_end(s) == s.take(trim_end(s).len() as int),
        trim_end(s).len() > 0 ==> !is_ws(trim_end(s).last()),
    decreases s.len(),
{
    if s.len() > 0 && is_ws(s.last()) {
        lemma_trim_end(s.drop_last());
        assert(s.drop_last().take(trim_end(s).len() as int) =~= s.take(trim_end(s).len() as int));
    } else {
        assert(s.take(s.len() as int) =~= s);
    }
}

/// `trim(s)` is a piece of `s`, and neither starts nor ends with white space.
pub proof fn lemma_trim(s: Seq<char>) -> (a: int)
    ensures
        0 <= a <= s.len() - trim(s).len(),
        trim(s) == s.subrange(a, a + trim(s).len()),
        trim(s).len() > 0 ==> !is_ws(trim(s)[0]) && !is_ws(trim(s).last()),
{
    let ts = trim_start(s);
    lemma_trim_start(s);
    lemma_trim_end(ts);
    let t = trim(s);
    let a = s.len() - ts.len();
    assert(t =~= s.subrange(a, a + t.len()));
    if t.len() > 0 {
        assert(t[0] == ts[0]);
    }
    a
}

/// White space does not start or end what `trim` leaves, so trimming twice
/// changes nothing.
pub proof fn lemma_trim_idempotent(s: Seq<char>)
    ensures
        trim(trim(s)) == trim(s),
{
    let t = trim(s);
    lemma_trim(s);
    if t.len() > 0 {
        assert(trim_start(t) == t);
        assert(trim_end(t) == t);
    } else {
        assert(trim_start(t) == t);
        assert(trim_end(t) == t);
    }
}

/// A piece of `s` keeps a property of all its characters.
pub proof fn lemma_all_chars_subrange(s: Seq<char>, p: spec_fn(char) -> bool, a: int, b: int)
    requires
        all_chars(s, p),
        0 <= a <= b <= s.len(),
    ensures
        all_chars(s.subrange(a, b), p),
{
    assert forall|i: int| 0 <= i < b - a implies #[trigger] p(s.subrange(a, b)[i]) by {
        assert(s.subrange(a, b)[i] == s[a + i]);
    }
}

/// Trimming keeps a property of all characters, and never lengthens.
pub proof fn lemma_all_chars_trim(s: Seq<char>, p: spec_fn(char) -> bool)
    requires
        all_chars(s, p),
    ensures
        all_chars(trim(s), p),
        trim(s).len() <= s.len(),
{
    let a = lemma_trim(s);
    lemma_all_chars_subrange(s, p, a, a + trim(s).len());
}

/// `trim_end_set(s, set)` is a prefix of `s` that does not end with a
/// character of `set`.
pub proof fn lemma_trim_end_set(s: Seq<char>, set: Seq<char>)
    ensures
        trim_end_set(s, set).len() <= s.len(),
        trim_end_set(s, set) == s.take(trim_end_set(s, set).len() as int),
        trim_end_set(s, set).len() > 0 ==> !set.contains(trim_end_set(s, set).last()),
    decreases s.len(),
{
    if s.len() > 0 && set.contains(s.last()) {
        lemma_trim_end_set(s.drop_last(), set);
        assert(s.drop_last().take(trim_end_set(s, set).len() as int) =~= s.take(
            trim_end_set(s, set).len() as int,
        ));
    } else {
        assert(s.take(s.len() as int) =~= s);
    }
}

/// The words of `s` are made of characters of `s`, and are not empty.
pub proof fn lemma_words_chars(s: Seq<char>, p: spec_fn(char) -> bool)
    requires
        all_chars(s, p),
    ensures
        forall|k: int| 0 <= k < words(s).len() ==> all_chars(#[trigger] words(s)[k], p)
            && words(s)[k].len() > 0,
    decreases s.len(),
{
    if s.len() > 0 {
        let prev = s.drop_last();
        lemma_all_chars_subrange(s, p, 0, s.len() - 1);
        assert(prev =~= s.subrange(0, s.len() - 1));
        lemma_words_chars(prev, p);
        let w = words(prev);
        let c = s.last();
        assert(p(s[s.len() - 1]));
        if is_ws(c) {
        } else if prev.len() > 0 && !is_ws(prev.last()) && w.len() > 0 {
            let nw = w.update(w.len() - 1, w.last().push(c));
            assert forall|k: int| 0 <= k < nw.len() implies all_chars(#[trigger] nw[k], p)
                && nw[k].len() > 0 by {
                if k == w.len() - 1 {
                    assert(all_chars(w[k], p));
                    assert forall|i: int| 0 <= i < nw[k].len() implies #[trigger] p(nw[k][i]) by {
                        if i < w[k].len() {
                            assert(nw[k][i] == w[k][i]);
                        }
                    }
                }
            }
        } else {
            let nw = w.push(seq![c]);
            assert forall|k: int| 0 <= k < nw.len() implies all_chars(#[trigger] nw[k], p)
                && nw[k].len() > 0 by {
                if k == w.len() {
                    assert(nw[k] == seq![c]);
                    assert forall|i: int| 0 <= i < nw[k].len() implies #[trigger] p(nw[k][i]) by {
                        assert(nw[k][i] == c);
                    }
                }
            }
        }
    }
}

/// Joining parts whose characters satisfy `p` with a separator that does
/// gives characters that satisfy `p`.
pub proof fn lemma_join_chars(parts: Seq<Seq<char>>, sep: Seq<char>, p: spec_fn(char) -> bool)
    requires
        forall|k: int| 0 <= k < parts.len() ==> all_chars(#[trigger] parts[k], p),
        all_chars(sep, p),
    ensures
        all_chars(join(parts, sep), p),
    decreases parts.len(),
{
    if parts.len() > 1 {
        let init = parts.drop_last();
        assert forall|k: int| 0 <= k < init.len() implies all_chars(#[trigger] init[k], p) by {
            assert(init[k] == parts[k]);
        }
        lemma_join_chars(init, sep, p);
        let a = join(init, sep);
        let b = a + sep;
        let c = parts.last();
        assert(all_chars(c, p)) by {
            assert(c == parts[parts.len() - 1]);
        }
        assert forall|i: int| 0 <= i < (b + c).len() implies #[trigger] p((b + c)[i]) by {
            if i < a.len() {
                assert((b + c)[i] == a[i]);
            } else if i < b.len() {
                assert((b + c)[i] == sep[i - a.len()]);
            } else {
                assert((b + c)[i] == c[i - b.len()]);
            }
        }
    } else if parts.len() == 1 {
        assert(all_chars(parts[0], p));
    }
}

/// Collapsing white space keeps a property of all characters when a space
/// has it too.
pub proof fn lemma_all_chars_collapse_ws(s: Seq<char>, p: spec_fn(char) -> bool)
    requires
        all_chars(s, p),
        p(' '),
    ensures
        all_chars(collapse_ws(s), p),
{
    lemma_words_chars(s, p);
    assert(all_chars(seq![' '], p)) by {
        assert forall|i: int| 0 <= i < 1 implies #[trigger] p(seq![' '][i]) by {
            assert(seq![' '][i] == ' ');
        }
    }
    lemma_join_chars(words(s), seq![' '], p);
}

// ------------------------------------------------------------------
// Text operations that keep prefixes
// ------------------------------------------------------------------

/// A text that starts with `a` is `a` followed by the rest.
pub proof fn lemma_starts_with_split(b: Seq<char>, a: Seq<char>)
    requires
        starts_with(b, a),
    ensures
        b == a + b.skip(a.len() as int),
{
    assert(b =~= b.take(a.len() as int) + b.skip(a.len() as int));
}

/// Starting with a text is transitive.
pub proof fn lemma_starts_with_trans(c: Seq<char>, b: Seq<char>, a: Seq<char>)
    requires
        starts_with(c, b),
        starts_with(b, a),
    ensures
        starts_with(c, a),
{
    assert(c.take(a.len() as int) =~= c.take(b.len() as int).take(a.len() as int));
}

/// Trimming the start keeps prefixes.
pub proof fn lemma_trim_start_prefix(a: Seq<char>, b: Seq<char>)
    requires
        starts_with(b, a),
    ensures
        starts_with(trim_start(b), trim_start(a)),
    decreases a.len(),
{
    if a.len() > 0 {
        assert(b[0] == b.take(a.len() as int)[0]);
        assert(b[0] == a[0]);
        if is_ws(a[0]) {
            assert(trim_start(a) == trim_start(a.drop_first()));
            assert(trim_start(b) == trim_start(b.drop_first()));
            assert(b.drop_first().take(a.len() - 1) =~= a.drop_first());
            lemma_trim_start_prefix(a.drop_first(), b.drop_first());
        } else {
            assert(trim_start(a) == a);
            assert(trim_start(b) == b);
        }
    } else {
        assert(trim_start(a) == a);
        assert(trim_start(b).take(0) =~= trim_start(a));
    }
}

/// Trimming the end keeps prefixes.
pub proof fn lemma_trim_end_prefix(a: Seq<char>, b: Seq<char>)
    requires
        starts_with(b, a),
    ensures
        starts_with(trim_end(b), trim_end(a)),
    decreases b.len(),
{
    lemma_trim_end(a);
    let k = trim_end(a).len() as int;
    if b.len() > a.len() {
        if is_ws(b.last()) {
            assert(trim_end(b) == trim_end(b.drop_last()));
            assert(b.drop_last().take(a.len() as int) =~= b.take(a.len() as int));
            lemma_trim_end_prefix(a, b.drop_last());
        } else {
            assert(trim_end(b) == b);
            assert(b.take(k) =~= b.take(a.len() as int).take(k));
            assert(a.take(k) == trim_end(a));
        }
    } else {
        assert(b =~= a) by {
            assert(b.take(a.len() as int) =~= b);
        }
        assert(trim_end(a).take(k) =~= trim_end(a));
    }
}

/// `trim` keeps prefixes.
pub proof fn lemma_trim_prefix(a: Seq<char>, b: Seq<char>)
    requires
        starts_with(b, a),
    ensures
        starts_with(trim(b), trim(a)),
{
    lemma_trim_start_prefix(a, b);
    lemma_trim_end_prefix(trim_start(a), trim_start(b));
}

/// Trimming characters of a set from the end keeps prefixes.
pub proof fn lemma_trim_end_set_prefix(a: Seq<char>, b: Seq<char>, set: Seq<char>)
    requires
        starts_with(b, a),
    ensures
        starts_with(trim_end_set(b, set), trim_end_set(a, set)),
    decreases b.len(),
{
    lemma_trim_end_set(a, set);
    let k = trim_end_set(a, set).len() as int;
    if b.len() > a.len() {
        if set.contains(b.last()) {
            assert(trim_end_set(b, set) == trim_end_set(b.drop_last(), set));
            assert(b.drop_last().take(a.len() as int) =~= b.take(a.len() as int));
            lemma_trim_end_set_prefix(a, b.drop_last(), set);
        } else {
            assert(trim_end_set(b, set) == b);
            assert(b.take(k) =~= b.take(a.len() as int).take(k));
            assert(a.take(k) == trim_end_set(a, set));
        }
    } else {
        assert(b =~= a) by {
            assert(b.take(a.len() as int) =~= b);
        }
        assert(trim_end_set(a, set).take(k) =~= trim_end_set(a, set));
    }
}

/// Cutting to at most `n` characters keeps prefixes.
pub proof fn lemma_take_at_most_prefix(a: Seq<char>, b: Seq<char>, n: nat)
    requires
        starts_with(b, a),
    ensures
        starts_with(take_at_most(b, n), take_at_most(a, n)),
{
    if a.len() <= n {
        assert(take_at_most(a, n) == a);
        if b.len() > n {
            assert(take_at_most(b, n) == b.take(n as int));
            assert(b.take(n as int).take(a.len() as int) =~= b.take(a.len() as int));
        } else {
            assert(take_at_most(b, n) == b);
        }
    } else {
        assert(take_at_most(a, n) == a.take(n as int));
        assert(take_at_most(b, n) == b.take(n as int));
        assert(b.take(n as int) =~= b.take(a.len() as int).take(n as int));
        assert(b.take(n as int).take(n as int) =~= b.take(n as int));
    }
}

/// Extending the last part by one character extends the joined text by it.
proof fn lemma_join_extend_last(w: Seq<Seq<char>>, sep: Seq<char>, c: char)
    requires
        w.len() > 0,
    ensures
        join(w.update(w.len() - 1, w.last().push(c)), sep) == join(w, sep).push(c),
{
    let u = w.update(w.len() - 1, w.last().push(c));
    if w.len() > 1 {
        assert(u.drop_last() =~= w.drop_last());
        assert(u.last() == w.last().push(c));
        assert(join(u, sep) =~= join(w, sep).push(c));
    } else {
        assert(u[0] == w[0].push(c));
    }
}

/// One more character keeps the collapsed text as a prefix.
proof fn lemma_collapse_ws_step(s: Seq<char>, c: char)
    ensures
        starts_with(collapse_ws(s.push(c)), collapse_ws(s)),
{
    let t = s.push(c);
    assert(t.drop_last() =~= s);
    assert(t.last() == c);
    let w = words(s);
    let sp = seq![' '];
    let j = join(w, sp);
    if is_ws(c) {
        assert(words(t) == w);
        assert(j.take(j.len() as int) =~= j);
    } else if s.len() > 0 && !is_ws(s.last()) && w.len() > 0 {
        assert(words(t) == w.update(w.len() - 1, w.last().push(c)));
        lemma_join_extend_last(w, sp, c);
        assert(collapse_ws(t) == j.push(c));
        assert(j.push(c).take(j.len() as int) =~= j);
    } else {
        assert(words(t) == w.push(seq![c]));
        if w.len() == 0 {
            assert(j =~= Seq::<char>::empty());
            assert(collapse_ws(t).take(0) =~= j);
        } else {
            assert(w.push(seq![c]).drop_last() =~= w);
            assert(join(w.push(seq![c]), sp) == j + sp + seq![c]);
            assert((j + sp + seq![c]).take(j.len() as int) =~= j);
        }
    }
}

/// Collapsing white space keeps prefixes.
pub proof fn lemma_collapse_ws_prefix(a: Seq<char>, b: Seq<char>)
    requires
        starts_with(b, a),
    ensures
        starts_with(collapse_ws(b), collapse_ws(a)),
    decreases b.len(),
{
    if b.len() > a.len() {
        assert(b.drop_last().take(a.len() as int) =~= b.take(a.len() as int));
        lemma_collapse_ws_prefix(a, b.drop_last());
        assert(b.drop_last().push(b.last()) =~= b);
        lemma_collapse_ws_step(b.drop_last(), b.last());
        lemma_starts_with_trans(collapse_ws(b), collapse_ws(b.drop_last()), collapse_ws(a));
    } else {
        assert(b.take(a.len() as int) =~= b);
        assert(collapse_ws(a).take(collapse_ws(a).len() as int) =~= collapse_ws(a));
    }
}

} // verus!
