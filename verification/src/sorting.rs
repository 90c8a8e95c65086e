//! Stable sorting by an integer rank, with its mathematical definition.

use vstd::prelude::*;

verus! {

/// Values ordered by an integer rank.
pub trait Ranked: Sized {
    /// The integer by which values are ordered.
    spec fn rank(&self) -> int;

    /// Whether `self` may stand before `other`: its rank is not greater.
    fn ranks_at_most(&self, other: &Self) -> (b: bool)
        ensures
            b == (self.rank() <= other.rank()),
    ;
}

/// Ranks never decrease along `s`.
pub open spec fn is_ranked<T: Ranked>(s: Seq<T>) -> bool {
    forall|i: int, j: int| 0 <= i < j < s.len() ==> s[i].rank() <= s[j].rank()
}

/// The first position of `s` whose element ranks strictly above `x`, reading from the
/// front and stopping at the first such element; `s.len()` if there is none.
pub open spec fn insert_point<T: Ranked>(s: Seq<T>, x: T) -> int
    decreases s.len(),
{
    if s.len() == 0 || x.rank() < s[0].rank() {
        0
    } else {
        1 + insert_point(s.drop_first(), x)
    }
}

/// `s` with `x` placed at its insert point.
pub open spec fn insert_ranked<T: Ranked>(s: Seq<T>, x: T) -> Seq<T> {
    s.insert(insert_point(s, x), x)
}

/// The stable sort of `s` by rank: elements of equal rank keep their order.
pub open spec fn sorted_by_rank<T: Ranked>(s: Seq<T>) -> Seq<T>
    decreases s.len(),
{
    if s.len() == 0 {
        s
    } else {
        insert_ranked(sorted_by_rank(s.drop_last()), s.last())
    }
}

/// The insert point lies inside the sequence; everything before it ranks at most `x`,
/// and the element at it, if any, ranks strictly above `x`.
pub proof fn lemma_insert_point<T: Ranked>(s: Seq<T>, x: T)
    ensures
        0 <= insert_point(s, x) <= s.len(),
        forall|i: int| 0 <= i < insert_point(s, x) ==> s[i].rank() <= x.rank(),
        insert_point(s, x) < s.len() ==> x.rank() < s[insert_point(s, x)].rank(),
    decreases s.len(),
{
    if s.len() == 0 || x.rank() < s[0].rank() {
    } else {
        let t = s.drop_first();
        lemma_insert_point(t, x);
        let p = insert_point(t, x);
        assert forall|i: int| 0 <= i < 1 + p implies s[i].rank() <= x.rank() by {
            if i > 0 {
                assert(s[i] == t[i - 1]);
            }
        }
        if 1 + p < s.len() {
            assert(s[1 + p] == t[p]);
        }
    }
}

/// Inserting into a ranked sequence keeps it ranked.
pub proof fn lemma_insert_keeps_ranked<T: Ranked>(s: Seq<T>, x: T)
    requires
        is_ranked(s),
    ensures
        is_ranked(insert_ranked(s, x)),
{
    lemma_insert_point(s, x);
    let p = insert_point(s, x);
    let r = insert_ranked(s, x);
    assert forall|i: int, j: int| 0 <= i < j < r.len() implies r[i].rank() <= r[j].rank() by {
        if j < p {
        } else if j == p {
        } else if i < p {
            assert(r[j] == s[j - 1]);
            if p < s.len() {
                assert(s[p].rank() <= s[j - 1].rank() || p == j - 1);
            }
        } else if i == p {
            assert(r[j] == s[j - 1]);
            assert(s[p].rank() <= s[j - 1].rank() || p == j - 1);
        } else {
            assert(r[i] == s[i - 1]);
            assert(r[j] == s[j - 1]);
        }
    }
}

/// The sort of any sequence is ranked.
pub proof fn lemma_sorted_is_ranked<T: Ranked>(s: Seq<T>)
    ensures
        is_ranked(sorted_by_rank(s)),
        sorted_by_rank(s).len() == s.len(),
    decreases s.len(),
{
    if s.len() > 0 {
        lemma_sorted_is_ranked(s.drop_last());
        lemma_insert_point(sorted_by_rank(s.drop_last()), s.last());
        lemma_insert_keeps_ranked(sorted_by_rank(s.drop_last()), s.last());
    }
}

/// The sort of a sequence holds exactly the elements of the sequence, each as often.
pub proof fn lemma_sorted_permutes<T: Ranked>(s: Seq<T>)
    ensures
        sorted_by_rank(s).to_multiset() == s.to_multiset(),
    decreases s.len(),
{
    broadcast use vstd::seq_lib::group_to_multiset_ensures;

    if s.len() > 0 {
        let t = sorted_by_rank(s.drop_last());
        lemma_sorted_permutes(s.drop_last());
        lemma_insert_point(t, s.last());
        vstd::seq_lib::to_multiset_insert(t, insert_point(t, s.last()), s.last());
        assert(s.drop_last().push(s.last()) == s);
    }
}

/// In a ranked sequence followed by an element that ranks at least as high as each of
/// its elements, the element's insert point is the end.
pub proof fn lemma_insert_point_at_end<T: Ranked>(s: Seq<T>, x: T)
    requires
        forall|i: int| 0 <= i < s.len() ==> s[i].rank() <= x.rank(),
    ensures
        insert_point(s, x) == s.len(),
    decreases s.len(),
{
    if s.len() > 0 {
        let t = s.drop_first();
        assert forall|i: int| 0 <= i < t.len() implies t[i].rank() <= x.rank() by {
            assert(t[i] == s[i + 1]);
        }
        lemma_insert_point_at_end(t, x);
    }
}

/// Sorting leaves a ranked sequence as it is.
pub proof fn lemma_sorted_fixed<T: Ranked>(s: Seq<T>)
    requires
        is_ranked(s),
    ensures
        sorted_by_rank(s) == s,
    decreases s.len(),
{
    if s.len() > 0 {
        let t = s.drop_last();
        assert(is_ranked(t));
        lemma_sorted_fixed(t);
        lemma_insert_point_at_end(t, s.last());
        assert(t.insert(t.len() as int, s.last()) =~= s);
    }
}

/// How often `x` occurs in `s`.
pub open spec fn occurrences<T>(s: Seq<T>, x: T) -> nat
    decreases s.len(),
{
    if s.len() == 0 {
        0
    } else {
        occurrences(s.drop_last(), x) + if s.last() == x {
            1nat
        } else {
            0nat
        }
    }
}

/// A pushed element occurs once more; every other element as often as before.
pub proof fn lemma_occurrences_push<T>(s: Seq<T>, a: T, x: T)
    ensures
        occurrences(s.push(a), x) == occurrences(s, x) + if a == x {
            1nat
        } else {
            0nat
        },
{
    assert(s.push(a).drop_last() =~= s);
}

/// An inserted element occurs once more; every other element as often as before.
pub proof fn lemma_occurrences_insert<T>(s: Seq<T>, at: int, a: T, x: T)
    requires
        0 <= at <= s.len(),
    ensures
        occurrences(s.insert(at, a), x) == occurrences(s, x) + if a == x {
            1nat
        } else {
            0nat
        },
    decreases s.len(),
{
    if at == s.len() {
        assert(s.insert(at, a) =~= s.push(a));
        lemma_occurrences_push(s, a, x);
    } else {
        let front = s.drop_last();
        assert(s.insert(at, a).drop_last() =~= front.insert(at, a));
        assert(s.insert(at, a).last() == s.last());
        lemma_occurrences_insert(front, at, a, x);
    }
}

/// Every element occurs in the sort as often as in the sequence.
pub proof fn lemma_sorted_keeps_occurrences<T: Ranked>(s: Seq<T>, x: T)
    ensures
        occurrences(sorted_by_rank(s), x) == occurrences(s, x),
    decreases s.len(),
{
    if s.len() > 0 {
        let t = sorted_by_rank(s.drop_last());
        lemma_sorted_keeps_occurrences(s.drop_last(), x);
        lemma_sorted_is_ranked(s.drop_last());
        lemma_insert_point(t, s.last());
        lemma_occurrences_insert(t, insert_point(t, s.last()), s.last(), x);
    }
}

/// An element at some position occurs at least once, and one at two positions at
/// least twice.
pub proof fn lemma_occurrences_at<T>(s: Seq<T>, i: int, j: int)
    requires
        0 <= i < s.len(),
        0 <= j < s.len(),
    ensures
        occurrences(s, s[i]) >= 1,
        i != j && s[i] == s[j] ==> occurrences(s, s[i]) >= 2,
    decreases s.len(),
{
    let front = s.drop_last();
    let last = s.len() - 1;
    if i < last && j < last {
        lemma_occurrences_at(front, i, j);
    } else if i < last {
        lemma_occurrences_at(front, i, i);
    } else if j < last {
        lemma_occurrences_at(front, j, j);
    }
}

/// An element that occurs is at some position.
pub proof fn lemma_occurrences_witness<T>(s: Seq<T>, x: T) -> (i: int)
    requires
        occurrences(s, x) >= 1,
    ensures
        0 <= i < s.len(),
        s[i] == x,
    decreases s.len(),
{
    if s.last() == x {
        s.len() - 1
    } else {
        lemma_occurrences_witness(s.drop_last(), x)
    }
}

/// The first `k + 1` elements hold what the first `k` hold, and the element at `k`.
pub proof fn lemma_occurrences_take<T>(s: Seq<T>, k: int, x: T)
    requires
        0 <= k < s.len(),
    ensures
        occurrences(s.take(k + 1), x) == occurrences(s.take(k), x) + if s[k] == x {
            1nat
        } else {
            0nat
        },
{
    assert(s.take(k + 1).drop_last() =~= s.take(k));
}

/// Sorts a vector by rank, stably.
pub fn sort_by_rank<T: Ranked + Copy>(v: &Vec<T>) -> (out: Vec<T>)
    ensures
        out@ == sorted_by_rank(v@),
{
    let mut out: Vec<T> = Vec::new();
    let mut i: usize = 0;
    while i < v.len()
        invariant
            i <= v.len(),
            out@ == sorted_by_rank(v@.take(i as int)),
            out.len() == i,
        decreases v.len() - i,
    {
        let x = v[i];
        let mut j: usize = 0;
        proof {
            assert(out@.skip(0) =~= out@);
        }
        while j < out.len() && out[j].ranks_at_most(&x)
            invariant
                j <= out.len(),
                insert_point(out@, x) == j + insert_point(out@.skip(j as int), x),
            decreases out.len() - j,
        {
            proof {
                let rest = out@.skip(j as int);
                assert(rest[0] == out@[j as int]);
                assert(rest.drop_first() =~= out@.skip(j as int + 1));
            }
            j += 1;
        }
        proof {
            let rest = out@.skip(j as int);
            if j < out.len() {
                assert(rest[0] == out@[j as int]);
            }
            assert(insert_point(rest, x) == 0);
            assert(v@.take(i as int + 1).drop_last() =~= v@.take(i as int));
            assert(v@.take(i as int + 1).last() == x);
            lemma_sorted_is_ranked(v@.take(i as int));
        }
        out.insert(j, x);
        i += 1;
    }
    proof {
        assert(v@.take(v.len() as int) =~= v@);
    }
    out
}

} // verus!
