//! Picking positions out of a list.

use vstd::prelude::*;

verus! {

/// The positions below `n` that `keep` accepts, in increasing order.
pub open spec fn picked(n: nat, keep: spec_fn(int) -> bool) -> Seq<int>
    decreases n,
{
    if n == 0 {
        Seq::empty()
    } else if keep(n - 1) {
        picked((n - 1) as nat, keep).push(n - 1)
    } else {
        picked((n - 1) as nat, keep)
    }
}

/// The first position from `from` on that `wanted` accepts, or `n` if there is none below it.
pub open spec fn first_where(n: int, wanted: spec_fn(int) -> bool, from: int) -> int
    decreases n - from,
{
    if from >= n {
        n
    } else if wanted(from) {
        from
    } else {
        first_where(n, wanted, from + 1)
    }
}

/// What `first_where` finds is wanted, and nothing before it is.
pub proof fn lemma_first_where(n: int, wanted: spec_fn(int) -> bool, from: int)
    requires
        from <= n,
    ensures
        from <= first_where(n, wanted, from) <= n,
        first_where(n, wanted, from) < n ==> wanted(first_where(n, wanted, from)),
        forall|i: int| from <= i < first_where(n, wanted, from) ==> !#[trigger] wanted(i),
    decreases n - from,
{
    if from < n && !wanted(from) {
        lemma_first_where(n, wanted, from + 1);
    }
}

/// A list of positions as mathematical integers.
pub open spec fn ints(positions: Seq<usize>) -> Seq<int> {
    positions.map_values(|i: usize| i as int)
}

/// The positions of the flags that are up.
pub fn raised(flags: &Vec<bool>) -> (positions: Vec<usize>)
    ensures
        ints(positions@) == picked(flags@.len(), |i: int| flags@[i]),
{
    let ghost keep = |i: int| flags@[i];
    let mut positions: Vec<usize> = Vec::new();
    let mut i: usize = 0;
    assert(ints(positions@) =~= picked(0, keep));
    while i < flags.len()
        invariant
            i <= flags.len(),
            keep == (|i: int| flags@[i]),
            ints(positions@) == picked(i as nat, keep),
        decreases flags.len() - i,
    {
        let ghost before = positions@;
        if flags[i] {
            positions.push(i);
            assert(ints(positions@) =~= ints(before).push(i as int));
        }
        i = i + 1;
    }
    positions
}

/// Two conditions that agree below `n` pick the same positions.
pub proof fn lemma_picked_alike(n: nat, a: spec_fn(int) -> bool, b: spec_fn(int) -> bool)
    requires
        forall|i: int| 0 <= i < n ==> #[trigger] a(i) == b(i),
    ensures
        picked(n, a) == picked(n, b),
    decreases n,
{
    if n > 0 {
        lemma_picked_alike((n - 1) as nat, a, b);
    }
}

/// A position is picked exactly when it is in range and accepted, and the picked positions
/// increase.
pub proof fn lemma_picked(n: nat, keep: spec_fn(int) -> bool)
    ensures
        forall|i: int| #![trigger picked(n, keep).contains(i)]
            picked(n, keep).contains(i) <==> 0 <= i < n && keep(i),
        forall|a: int, b: int|
            #![trigger picked(n, keep)[a], picked(n, keep)[b]]
            0 <= a < b < picked(n, keep).len() ==> picked(n, keep)[a] < picked(n, keep)[b],
        forall|a: int|
            0 <= a < picked(n, keep).len() ==> 0 <= #[trigger] picked(n, keep)[a] < n && keep(
                picked(n, keep)[a],
            ),
    decreases n,
{
    if n > 0 {
        let m = (n - 1) as nat;
        lemma_picked(m, keep);
        if keep(n - 1) {
            let p = picked(m, keep);
            let q = picked(n, keep);
            assert(q[p.len() as int] == n - 1);
            assert forall|i: int| q.contains(i) <==> 0 <= i < n && keep(i) by {
                if p.contains(i) {
                    let j = choose|j: int| 0 <= j < p.len() && p[j] == i;
                    assert(q[j] == i);
                }
                if q.contains(i) && i != n - 1 {
                    let j = choose|j: int| 0 <= j < q.len() && q[j] == i;
                    assert(p[j] == i);
                }
            }
        }
    }
}

/// The largest of some widths, and nothing at least.
pub open spec fn widest(widths: Seq<i64>) -> int
    decreases widths.len(),
{
    if widths.len() == 0 {
        0
    } else {
        let rest = widest(widths.drop_last());
        if widths.last() > rest {
            widths.last() as int
        } else {
            rest
        }
    }
}

/// No width is larger than the largest.
pub proof fn lemma_widest(widths: Seq<i64>, i: int)
    requires
        0 <= i < widths.len(),
    ensures
        widths[i] <= widest(widths),
        0 <= widest(widths),
    decreases widths.len(),
{
    let rest = widths.drop_last();
    if i < rest.len() {
        lemma_widest(rest, i);
        assert(rest[i] == widths[i]);
    } else if rest.len() > 0 {
        lemma_widest(rest, 0);
    }
}

/// The largest of some widths.
pub fn widest_of(widths: &Vec<i64>) -> (w: i64)
    ensures
        w == widest(widths@),
        0 <= w,
{
    let mut w: i64 = 0;
    let mut i: usize = 0;
    assert(widths@.take(0) =~= Seq::empty());
    while i < widths.len()
        invariant
            i <= widths@.len(),
            0 <= w,
            w == widest(widths@.take(i as int)),
        decreases widths@.len() - i,
    {
        assert(widths@.take(i + 1).drop_last() =~= widths@.take(i as int));
        if widths[i] > w {
            w = widths[i];
        }
        i = i + 1;
    }
    assert(widths@.take(i as int) =~= widths@);
    w
}

} // verus!
