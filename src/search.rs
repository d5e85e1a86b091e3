use vstd::prelude::*;

verus! {

/// The first element of `s` that satisfies `p`.
pub open spec fn first_match<T>(s: Seq<T>, p: spec_fn(T) -> bool) -> Option<T>
    decreases s.len(),
{
    if s.len() == 0 {
        None
    } else if first_match(s.drop_last(), p) is Some {
        first_match(s.drop_last(), p)
    } else if p(s.last()) {
        Some(s.last())
    } else {
        None
    }
}

/// A match found in a prefix is the first match of the whole sequence.
pub proof fn lemma_first_match_prefix<T>(s: Seq<T>, n: int, p: spec_fn(T) -> bool)
    requires
        0 <= n <= s.len(),
        first_match(s.subrange(0, n), p) is Some,
    ensures
        first_match(s, p) == first_match(s.subrange(0, n), p),
    decreases s.len() - n,
{
    if n < s.len() {
        assert(s.subrange(0, n + 1).drop_last() =~= s.subrange(0, n));
        lemma_first_match_prefix(s, n + 1, p);
    } else {
        assert(s.subrange(0, n) =~= s);
    }
}

/// Extending a prefix without a match by one element.
pub proof fn lemma_first_match_step<T>(s: Seq<T>, i: int, p: spec_fn(T) -> bool)
    requires
        0 <= i < s.len(),
        first_match(s.subrange(0, i), p) is None,
    ensures
        first_match(s.subrange(0, i + 1), p) == (if p(s[i]) {
            Some(s[i])
        } else {
            None
        }),
{
    assert(s.subrange(0, i + 1).drop_last() =~= s.subrange(0, i));
}

/// The whole sequence as its own prefix.
pub proof fn lemma_full_prefix<T>(s: Seq<T>)
    ensures
        s.subrange(0, s.len() as int) == s,
{
    assert(s.subrange(0, s.len() as int) =~= s);
}


/// Where there is no first match, no element matches.
pub proof fn lemma_first_match_none<T>(s: Seq<T>, p: spec_fn(T) -> bool)
    requires
        first_match(s, p) is None,
    ensures
        forall|i: int| 0 <= i < s.len() ==> !p(#[trigger] s[i]),
    decreases s.len(),
{
    if s.len() > 0 {
        lemma_first_match_none(s.drop_last(), p);
        assert forall|i: int| 0 <= i < s.len() implies !p(#[trigger] s[i]) by {
            if i < s.len() - 1 {
                assert(s[i] == s.drop_last()[i]);
            }
        }
    }
}

} // verus!
