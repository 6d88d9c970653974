use vstd::prelude::*;

verus! {

/// How many entries of `s` equal `x`.
pub open spec fn occurrences<A>(s: Seq<A>, x: A) -> nat
    decreases s.len(),
{
    if s.len() == 0 {
        0
    } else {
        occurrences(s.drop_last(), x) + (if s.last() == x {
            1nat
        } else {
            0nat
        })
    }
}

/// `s` with every entry equal to `x` removed, the order of the rest kept.
pub open spec fn without<A>(s: Seq<A>, x: A) -> Seq<A>
    decreases s.len(),
{
    if s.len() == 0 {
        Seq::empty()
    } else if s.last() == x {
        without(s.drop_last(), x)
    } else {
        without(s.drop_last(), x).push(s.last())
    }
}

/// Appending one entry raises its own count by one and no other count.
pub proof fn lemma_occurrences_push<A>(s: Seq<A>, e: A, x: A)
    ensures
        occurrences(s.push(e), x) == occurrences(s, x) + (if e == x {
            1int
        } else {
            0int
        }),
{
    assert(s.push(e).drop_last() =~= s);
}

/// An entry occurs somewhere in `s` exactly when its count is positive.
pub proof fn lemma_occurrences_contains<A>(s: Seq<A>, x: A)
    ensures
        (occurrences(s, x) == 0) <==> !s.contains(x),
    decreases s.len(),
{
    if s.len() > 0 {
        lemma_occurrences_contains(s.drop_last(), x);
        if s.contains(x) {
            let j = choose|j: int| 0 <= j < s.len() && s[j] == x;
            if j < s.len() - 1 {
                assert(s.drop_last()[j] == x);
                assert(s.drop_last().contains(x));
            }
        }
        if s.drop_last().contains(x) {
            let j = choose|j: int| 0 <= j < s.drop_last().len() && s.drop_last()[j] == x;
            assert(s[j] == x);
        }
    }
}

/// After removal, the removed entry no longer occurs.
pub proof fn lemma_without_removed<A>(s: Seq<A>, x: A)
    ensures
        occurrences(without(s, x), x) == 0,
    decreases s.len(),
{
    if s.len() > 0 {
        lemma_without_removed(s.drop_last(), x);
        if s.last() != x {
            lemma_occurrences_push(without(s.drop_last(), x), s.last(), x);
        }
    }
}

/// Removal of one value leaves every other value's count unchanged.
pub proof fn lemma_without_keeps<A>(s: Seq<A>, x: A, y: A)
    requires
        y != x,
    ensures
        occurrences(without(s, x), y) == occurrences(s, y),
    decreases s.len(),
{
    if s.len() > 0 {
        lemma_without_keeps(s.drop_last(), x, y);
        if s.last() != x {
            lemma_occurrences_push(without(s.drop_last(), x), s.last(), y);
        }
    }
}

/// Every entry left after removal stood in `s` and differs from the removed value.
pub proof fn lemma_without_contains<A>(s: Seq<A>, x: A, y: A)
    ensures
        without(s, x).contains(y) ==> s.contains(y) && y != x,
    decreases s.len(),
{
    if s.len() > 0 {
        lemma_without_contains(s.drop_last(), x, y);
        if without(s, x).contains(y) {
            if s.last() != x {
                let w = without(s.drop_last(), x);
                let j = choose|j: int| 0 <= j < w.push(s.last()).len() && w.push(s.last())[j] == y;
                if j < w.len() {
                    assert(w.contains(y));
                }
            }
            if s.drop_last().contains(y) {
                let k = choose|k: int|
                    0 <= k < s.drop_last().len() && s.drop_last()[k] == y;
                assert(s[k] == y);
            }
            if y == s.last() {
                assert(s[s.len() - 1] == y);
            }
        }
    }
}

} // verus!
