//! Designations ("番号") of videos: the standard `LETTERS-DIGITS` form,
//! multi-part files (`SIVR-015-2`), D2Pass numeric designations
//! (`110615-001`, `110615_001`, where the separator tells the labels apart),
//! and the forms that identify uncensored releases.

use vstd::prelude::*;
use crate::text::{
    all_digits, chars_of, digits_value, eq_ignore_case, eq_ignore_case_chars, is_digit,
    is_digit_char, is_lower_ascii, is_upper_ascii, lower_seq, slice, starts_with, starts_with_str,
    string_of, trim, trim_chars, trim_str, upper_chars, upper_seq, is_alnum, is_alnum_char,
};
use crate::text::{is_ws, lemma_trim_prefix, trim_end, trim_start, upper};
use crate::paths::{last_index_of, last_index_of_chars, lemma_last_index_of};

verus! {

pub open spec fn is_letter(c: char) -> bool {
    is_upper_ascii(c) || is_lower_ascii(c)
}

pub open spec fn all_alnum(s: Seq<char>) -> bool {
    forall|i: int| 0 <= i < s.len() ==> is_alnum(#[trigger] s[i])
}

fn is_letter_char(c: char) -> (r: bool)
    ensures
        r == is_letter(c),
{
    ('A' <= c && c <= 'Z') || ('a' <= c && c <= 'z')
}

fn all_digits_chars(s: &Vec<char>) -> (r: bool)
    ensures
        r == all_digits(s@),
{
    let mut i: usize = 0;
    while i < s.len()
        invariant
            i <= s.len(),
            forall|k: int| 0 <= k < i ==> is_digit(#[trigger] s@[k]),
        decreases s.len() - i,
    {
        if !is_digit_char(s[i]) {
            return false;
        }
        i += 1;
    }
    true
}

fn all_alnum_chars(s: &Vec<char>) -> (r: bool)
    ensures
        r == all_alnum(s@),
{
    let mut i: usize = 0;
    while i < s.len()
        invariant
            i <= s.len(),
            forall|k: int| 0 <= k < i ==> is_alnum(#[trigger] s@[k]),
        decreases s.len() - i,
    {
        if !is_alnum_char(s[i]) {
            return false;
        }
        i += 1;
    }
    true
}

/// Decimal value of a short digit string (at most four digits).
fn small_value(s: &Vec<char>) -> (r: u32)
    requires
        s.len() <= 4,
        all_digits(s@),
    ensures
        r as nat == digits_value(s@),
{
    let mut v: u32 = 0;
    let mut i: usize = 0;
    while i < s.len()
        invariant
            i <= s.len() <= 4,
            all_digits(s@),
            v as nat == digits_value(s@.take(i as int)),
            v < 10000,
        decreases s.len() - i,
    {
        assert(s@.take(i + 1).drop_last() =~= s@.take(i as int));
        assert(is_digit(s@[i as int]));
        proof {
            lemma_digits_value_bound(s@.take(i + 1));
        }
        v = v * 10 + (s[i] as u32 - '0' as u32);
        i += 1;
    }
    assert(s@.take(s.len() as int) =~= s@);
    v
}

/// A digit string of `n` digits has a value below `10^n` (for `n <= 4`).
proof fn lemma_digits_value_bound(s: Seq<char>)
    requires
        s.len() <= 4,
        all_digits(s),
    ensures
        digits_value(s) < 10000,
        s.len() <= 3 ==> digits_value(s) < 1000,
        s.len() <= 2 ==> digits_value(s) < 100,
        s.len() <= 1 ==> digits_value(s) < 10,
    decreases s.len(),
{
    if s.len() > 0 {
        assert(all_digits(s.drop_last())) by {
            assert forall|i: int| 0 <= i < s.drop_last().len() implies is_digit(
                #[trigger] s.drop_last()[i],
            ) by {
                assert(s.drop_last()[i] == s[i]);
            }
        }
        assert(is_digit(s[s.len() - 1]));
        lemma_digits_value_bound(s.drop_last());
    }
}

// ------------------------------------------------------------------
// Multi-part files
// ------------------------------------------------------------------

/// A part of a multi-part video: `<PREFIX>-<NUMBER>-<PART>` with an ASCII
/// letter-and-digit prefix, a digit number and a part of one or two digits
/// (at least 1). Yields the upper-cased base `<PREFIX>-<NUMBER>` and the part.
pub open spec fn stack_part(stem: Seq<char>) -> Option<(Seq<char>, nat)> {
    match last_index_of(stem, '-') {
        None => None,
        Some(k) => {
            let part = stem.skip(k + 1);
            let base = stem.take(k);
            match last_index_of(base, '-') {
                None => None,
                Some(j) => {
                    let prefix = base.take(j);
                    let number = base.skip(j + 1);
                    if 1 <= part.len() <= 2 && all_digits(part) && digits_value(part) >= 1
                        && prefix.len() > 0 && all_alnum(prefix) && number.len() > 0 && all_digits(
                        number,
                    ) {
                        Some((upper_seq(base), digits_value(part)))
                    } else {
                        None
                    }
                },
            }
        },
    }
}

/// Splits the stem of a part of a multi-part video into its upper-cased base
/// and its part number; `None` for any other stem.
pub fn parse_stack_part(stem: &str) -> (r: Option<(String, u32)>)
    ensures
        match stack_part(stem@) {
            Some((b, p)) => r matches Some((rb, rp)) && rb@ == b && rp as nat == p,
            None => r is None,
        },
{
    let s = chars_of(stem);
    proof {
        lemma_last_index_of(s@, '-');
    }
    let k = match last_index_of_chars(&s, '-') {
        Some(k) => k,
        None => {
            return None;
        },
    };
    let part = slice(&s, k + 1, s.len());
    assert(part@ =~= s@.skip(k + 1));
    let base = slice(&s, 0, k);
    assert(base@ =~= s@.take(k as int));
    proof {
        lemma_last_index_of(base@, '-');
    }
    let j = match last_index_of_chars(&base, '-') {
        Some(j) => j,
        None => {
            return None;
        },
    };
    let prefix = slice(&base, 0, j);
    assert(prefix@ =~= base@.take(j as int));
    let number = slice(&base, j + 1, base.len());
    assert(number@ =~= base@.skip(j + 1));
    if 1 <= part.len() && part.len() <= 2 && all_digits_chars(&part) && prefix.len() > 0
        && all_alnum_chars(&prefix) && number.len() > 0 && all_digits_chars(&number) {
        let v = small_value(&part);
        if v >= 1 {
            let ub = upper_chars(&base);
            return Some((string_of(&ub), v));
        }
    }
    None
}

/// A directory belongs to a multi-part group: its name is the base, or the
/// name of one of the parts (ASCII case ignored).
pub open spec fn belongs_to_stack(dir_name: Seq<char>, base: Seq<char>) -> bool {
    eq_ignore_case(dir_name, base) || match stack_part(dir_name) {
        Some((b, _)) => eq_ignore_case(b, base),
        None => false,
    }
}

/// Does a directory name belong to the multi-part group with base `base`?
pub fn dir_belongs_to_stack(dir_name: &str, base: &str) -> (r: bool)
    ensures
        r == belongs_to_stack(dir_name@, base@),
{
    let d = chars_of(dir_name);
    let b = chars_of(base);
    if eq_ignore_case_chars(&d, &b) {
        return true;
    }
    match parse_stack_part(dir_name) {
        Some((pb, _)) => {
            let pv = chars_of(pb.as_str());
            eq_ignore_case_chars(&pv, &b)
        },
        None => false,
    }
}

// ------------------------------------------------------------------
// D2Pass numeric designations
// ------------------------------------------------------------------

/// `MMDDYY-NNN` / `MMDDYY_NN(N)`: six digits, `-` or `_`, two or three digits
/// (after trimming). The separator distinguishes the labels.
pub open spec fn is_d2pass(s: Seq<char>) -> bool {
    let t = trim(s);
    &&& 9 <= t.len() <= 10
    &&& all_digits(t.take(6))
    &&& (t[6] == '-' || t[6] == '_')
    &&& all_digits(t.skip(7))
}

/// Is `s` a D2Pass numeric designation?
pub fn is_d2pass_designation(s: &str) -> (r: bool)
    ensures
        r == is_d2pass(s@),
{
    let t = trim_str(s);
    if t.len() < 9 || t.len() > 10 {
        return false;
    }
    let head = slice(&t, 0, 6);
    assert(head@ =~= t@.take(6));
    let tail = slice(&t, 7, t.len());
    assert(tail@ =~= t@.skip(7));
    all_digits_chars(&head) && (t[6] == '-' || t[6] == '_') && all_digits_chars(&tail)
}

/// Two designations are the same: equal after trimming, ASCII case ignored
/// (separators count, so `110615-001` and `110615_001` differ).
pub open spec fn same_designation_spec(a: Seq<char>, b: Seq<char>) -> bool {
    eq_ignore_case(trim(a), trim(b))
}

pub fn same_designation(a: &str, b: &str) -> (r: bool)
    ensures
        r == same_designation_spec(a@, b@),
{
    let x = trim_str(a);
    let y = trim_str(b);
    eq_ignore_case_chars(&x, &y)
}

// ------------------------------------------------------------------
// Uncensored releases
// ------------------------------------------------------------------

/// Tokyo-Hot style `N` + four digits.
pub open spec fn is_n_series(u: Seq<char>) -> bool {
    u.len() == 5 && u[0] == 'N' && all_digits(u.skip(1))
}

/// Forms that identify an uncensored release: FC2 and HEYZO designations,
/// Tokyo-Hot `n1234`, and D2Pass numeric designations.
pub open spec fn is_uncensored(s: Seq<char>) -> bool {
    let u = upper_seq(trim(s));
    starts_with(u, "FC2"@) || starts_with(u, "HEYZO"@) || is_n_series(u) || is_d2pass(s)
}

/// A text that neither starts nor ends with white space keeps its upper-cased
/// form at the head of the trimmed, upper-cased form of anything it begins.
proof fn lemma_upper_trim_prefix(p: Seq<char>, rest: Seq<char>)
    requires
        p.len() > 0,
        !is_ws(p[0]),
        !is_ws(p.last()),
    ensures
        starts_with(upper_seq(trim(p + rest)), upper_seq(p)),
{
    let s = p + rest;
    assert(s.take(p.len() as int) =~= p);
    lemma_trim_prefix(p, s);
    assert(trim_start(p) == p);
    assert(trim_end(p) == p);
    let t = trim(s);
    assert(t.take(p.len() as int) == p);
    assert(upper_seq(t).take(p.len() as int) =~= upper_seq(p));
}

/// Every FC2 and every HEYZO designation is uncensored, whatever follows the
/// label and in either case: such works are routed to the uncensored sources.
pub proof fn lemma_fc2_heyzo_uncensored(rest: Seq<char>)
    ensures
        is_uncensored("FC2"@ + rest),
        is_uncensored("fc2"@ + rest),
        is_uncensored("HEYZO"@ + rest),
        is_uncensored("heyzo"@ + rest),
{
    reveal_strlit("FC2");
    reveal_strlit("fc2");
    reveal_strlit("HEYZO");
    reveal_strlit("heyzo");
    lemma_upper_trim_prefix("FC2"@, rest);
    lemma_upper_trim_prefix("fc2"@, rest);
    lemma_upper_trim_prefix("HEYZO"@, rest);
    lemma_upper_trim_prefix("heyzo"@, rest);
    assert(upper_seq("FC2"@) =~= "FC2"@);
    assert(upper_seq("fc2"@) =~= "FC2"@);
    assert(upper_seq("HEYZO"@) =~= "HEYZO"@);
    assert(upper_seq("heyzo"@) =~= "HEYZO"@);
}

/// Tokyo-Hot designations, `n` or `N` followed by four digits, are
/// uncensored.
pub proof fn lemma_n_series_uncensored(d: Seq<char>)
    requires
        d.len() == 4,
        all_digits(d),
    ensures
        is_uncensored(seq!['n'] + d),
        is_uncensored(seq!['N'] + d),
{
    let lo = seq!['n'] + d;
    let hi = seq!['N'] + d;
    assert(trim_start(lo) == lo);
    assert(trim_end(lo) == lo) by {
        assert(is_digit(lo.last()));
    }
    assert(trim_start(hi) == hi);
    assert(trim_end(hi) == hi) by {
        assert(is_digit(hi.last()));
    }
    assert(upper_seq(lo) =~= hi) by {
        assert forall|i: int| 0 <= i < lo.len() implies upper(lo[i]) == hi[i] by {
            if i > 0 {
                assert(lo[i] == d[i - 1] && is_digit(d[i - 1]));
            }
        }
    }
    assert(upper_seq(hi) =~= hi) by {
        assert forall|i: int| 0 <= i < hi.len() implies upper(hi[i]) == hi[i] by {
            if i > 0 {
                assert(hi[i] == d[i - 1] && is_digit(d[i - 1]));
            }
        }
    }
    assert(hi.skip(1) =~= d);
}

/// D2Pass numeric designations (six digits, `-` or `_`, two or three
/// digits) are uncensored.
pub proof fn lemma_d2pass_uncensored(a: Seq<char>, sep: char, b: Seq<char>)
    requires
        a.len() == 6,
        all_digits(a),
        sep == '-' || sep == '_',
        2 <= b.len() <= 3,
        all_digits(b),
    ensures
        is_uncensored(a + seq![sep] + b),
{
    let s = a + seq![sep] + b;
    assert(is_digit(s[0]) && is_digit(s.last())) by {
        assert(s[0] == a[0]);
        assert(s.last() == b[b.len() - 1]);
    }
    assert(trim_start(s) == s);
    assert(trim_end(s) == s);
    assert(s.take(6) =~= a);
    assert(s.skip(7) =~= b);
    assert(s[6] == sep);
}

/// A designation whose trimmed, upper-cased form begins with `FC2` or
/// `HEYZO` is uncensored.
pub proof fn lemma_uncensored_labels(s: Seq<char>)
    ensures
        starts_with(upper_seq(trim(s)), "FC2"@) ==> is_uncensored(s),
        starts_with(upper_seq(trim(s)), "HEYZO"@) ==> is_uncensored(s),
{
}

/// Does the designation identify an uncensored release?
pub fn is_uncensored_designation(s: &str) -> (r: bool)
    ensures
        r == is_uncensored(s@),
{
    let t = trim_str(s);
    let u = upper_chars(&t);
    let n_series = if u.len() == 5 && u[0] == 'N' {
        let rest = slice(&u, 1, 5);
        assert(rest@ =~= u@.skip(1));
        all_digits_chars(&rest)
    } else {
        false
    };
    starts_with_str(&u, "FC2") || starts_with_str(&u, "HEYZO") || n_series || is_d2pass_designation(s)
}

// ------------------------------------------------------------------
// Standard form
// ------------------------------------------------------------------

/// Number of leading ASCII letters of `s`.
pub open spec fn letter_run(s: Seq<char>) -> nat
    decreases s.len(),
{
    if s.len() > 0 && is_letter(s[0]) {
        1 + letter_run(s.drop_first())
    } else {
        0
    }
}

proof fn lemma_letter_run(s: Seq<char>)
    ensures
        letter_run(s) <= s.len(),
        forall|i: int| 0 <= i < letter_run(s) ==> is_letter(#[trigger] s[i]),
        letter_run(s) < s.len() ==> !is_letter(s[letter_run(s) as int]),
    decreases s.len(),
{
    if s.len() > 0 && is_letter(s[0]) {
        lemma_letter_run(s.drop_first());
        assert forall|i: int| 0 <= i < letter_run(s) implies is_letter(#[trigger] s[i]) by {
            if i > 0 {
                assert(s[i] == s.drop_first()[i - 1]);
            }
        }
    }
}

/// The standard form of a whole designation `LETTERS[-]DIGITS` (two to six of
/// each): the letters upper-cased, a hyphen, the digits.
pub open spec fn standard_form(s: Seq<char>) -> Option<Seq<char>> {
    let l = letter_run(s);
    let rest = s.skip(l as int);
    let d = if rest.len() > 0 && rest[0] == '-' {
        rest.drop_first()
    } else {
        rest
    };
    if 2 <= l <= 6 && 2 <= d.len() <= 6 && all_digits(d) {
        Some(upper_seq(s.take(l as int)) + seq!['-'] + d)
    } else {
        None
    }
}

/// Recognises a whole designation in the standard form.
pub fn recognize_standard(s: &str) -> (r: Option<String>)
    ensures
        match standard_form(s@) {
            Some(f) => r matches Some(x) && x@ == f,
            None => r is None,
        },
{
    let v = chars_of(s);
    proof {
        lemma_letter_run(v@);
    }
    let mut l: usize = 0;
    assert(v@.skip(0) =~= v@);
    while l < v.len() && is_letter_char(v[l])
        invariant
            l <= v.len(),
            letter_run(v@) == l + letter_run(v@.skip(l as int)),
        decreases v.len() - l,
    {
        assert(v@.skip(l as int).drop_first() =~= v@.skip(l + 1));
        l += 1;
    }
    assert(letter_run(v@.skip(l as int)) == 0);
    let rest = slice(&v, l, v.len());
    assert(rest@ =~= v@.skip(l as int));
    let d = if rest.len() > 0 && rest[0] == '-' {
        let x = slice(&rest, 1, rest.len());
        assert(x@ =~= rest@.drop_first());
        x
    } else {
        rest
    };
    if 2 <= l && l <= 6 && 2 <= d.len() && d.len() <= 6 && all_digits_chars(&d) {
        let head = slice(&v, 0, l);
        assert(head@ =~= v@.take(l as int));
        let uh = upper_chars(&head);
        let mut out = uh;
        out.push('-');
        let r = crate::text::concat(&out, &d);
        Some(string_of(&r))
    } else {
        None
    }
}

} // verus!
