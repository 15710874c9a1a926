//! Generic facts about searching sequences.

use vstd::prelude::*;

verus! {

/// Index of the first element of `s` that satisfies `f`.
pub open spec fn first_match<T>(s: Seq<T>, f: spec_fn(T) -> bool) -> Option<int>
    decreases s.len(),
{
    if s.len() == 0 {
        None
    } else {
        match first_match(s.drop_last(), f) {
            Some(k) => Some(k),
            None => if f(s.last()) {
                Some(s.len() - 1)
            } else {
                None
            },
        }
    }
}

/// `first_match` gives the first position whose element matches, or `None` when none does.
pub proof fn lemma_first_match<T>(s: Seq<T>, f: spec_fn(T) -> bool)
    ensures
        first_match(s, f) matches Some(k) ==> 0 <= k < s.len() && f(s[k]) && forall|j: int|
            0 <= j < k ==> !f(#[trigger] s[j]),
        first_match(s, f) is None ==> forall|j: int| 0 <= j < s.len() ==> !f(#[trigger] s[j]),
    decreases s.len(),
{
    if s.len() > 0 {
        let t = s.drop_last();
        lemma_first_match(t, f);
        assert forall|j: int| 0 <= j < t.len() implies t[j] == s[j] by {}
    }
}

/// When no element of `s.take(i)` matches and `s[i]` does, `i` is the first match.
pub proof fn lemma_first_match_at<T>(s: Seq<T>, f: spec_fn(T) -> bool, i: int)
    requires
        0 <= i < s.len(),
        first_match(s.take(i), f) is None,
        f(s[i]),
    ensures
        first_match(s, f) == Some(i),
{
    lemma_first_match(s.take(i), f);
    lemma_first_match(s, f);
    assert forall|j: int| 0 <= j < i implies !f(#[trigger] s[j]) by {
        assert(s.take(i)[j] == s[j]);
    }
}

/// Extending a prefix without a match by one non-matching element.
pub proof fn lemma_first_match_step<T>(s: Seq<T>, f: spec_fn(T) -> bool, i: int)
    requires
        0 <= i < s.len(),
        first_match(s.take(i), f) is None,
        !f(s[i]),
    ensures
        first_match(s.take(i + 1), f) is None,
{
    assert(s.take(i + 1).drop_last() =~= s.take(i));
}

/// No element matches when no prefix element matches, up to the whole sequence.
pub proof fn lemma_first_match_none<T>(s: Seq<T>, f: spec_fn(T) -> bool)
    requires
        first_match(s.take(s.len() as int), f) is None,
    ensures
        first_match(s, f) is None,
{
    assert(s.take(s.len() as int) =~= s);
}

} // verus!
