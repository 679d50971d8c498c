//! Ranking by value: largest first, and among equal values the one that
//! came first in the input.

use vstd::prelude::*;

verus! {

/// Whether position `i` of `values` is ranked before position `j`: its
/// value is larger, or the values are equal and `i` is the earlier position.
pub open spec fn ranks_before(values: Seq<int>, i: int, j: int) -> bool {
    values[i] > values[j] || (values[i] == values[j] && i < j)
}

/// Whether `order` ranks the first `n` positions of `values`: it lists `n`
/// of them, and each is ranked before all that follow it.
pub open spec fn is_ranking_of_first(values: Seq<int>, n: int, order: Seq<int>) -> bool {
    &&& order.len() == n
    &&& forall|k: int| 0 <= k < order.len() ==> 0 <= #[trigger] order[k] < n
    &&& forall|a: int, b: int|
        0 <= a < b < order.len() ==> ranks_before(values, #[trigger] order[a], #[trigger] order[b])
}

/// Whether `order` ranks all positions of `values`.
pub open spec fn is_ranking(values: Seq<int>, order: Seq<int>) -> bool {
    is_ranking_of_first(values, values.len() as int, order)
}

/// Where position `i` enters `order`: behind every listed position whose
/// value is at least that of `i`.
pub open spec fn entry_position(values: Seq<int>, order: Seq<int>, i: int) -> int
    decreases order.len(),
{
    if order.len() == 0 {
        0
    } else if values[order.last()] >= values[i] {
        order.len() as int
    } else {
        entry_position(values, order.drop_last(), i)
    }
}

/// The ranking of the first `n` positions of `values`.
pub open spec fn ranking_of_first(values: Seq<int>, n: nat) -> Seq<int>
    decreases n,
{
    if n == 0 {
        Seq::<int>::empty()
    } else {
        let before = ranking_of_first(values, (n - 1) as nat);
        before.insert(entry_position(values, before, n - 1), n - 1)
    }
}

/// The ranking of `values`: its positions, largest value first, equal
/// values in input order.
pub open spec fn ranking(values: Seq<int>) -> Seq<int> {
    ranking_of_first(values, values.len())
}

/// The positions in a vector of positions as mathematical integers.
pub open spec fn int_positions(order: Seq<usize>) -> Seq<int> {
    Seq::new(order.len(), |k: int| order[k] as int)
}

/// The values of a vector of metrics as mathematical integers.
pub open spec fn int_values(metrics: Seq<i64>) -> Seq<int> {
    Seq::new(metrics.len(), |i: int| metrics[i] as int)
}

/// In a list ordered by descending value, the entry position of `i` parts
/// the values that are at least `values[i]` from those that are smaller.
pub proof fn lemma_entry_position_parts(values: Seq<int>, order: Seq<int>, i: int)
    requires
        forall|a: int, b: int|
            0 <= a < b < order.len() ==> values[#[trigger] order[a]] >= values[#[trigger] order[b]],
    ensures
        0 <= entry_position(values, order, i) <= order.len(),
        forall|a: int|
            0 <= a < entry_position(values, order, i) ==> values[#[trigger] order[a]] >= values[i],
        forall|b: int|
            entry_position(values, order, i) <= b < order.len() ==> values[#[trigger] order[b]]
                < values[i],
    decreases order.len(),
{
    if order.len() == 0 {
    } else if values[order.last()] >= values[i] {
        assert forall|a: int| 0 <= a < order.len() implies values[#[trigger] order[a]]
            >= values[i] by {
            if a < order.len() - 1 {
                assert(values[order[a]] >= values[order[order.len() - 1]]);
            }
        }
    } else {
        let shorter = order.drop_last();
        assert forall|a: int, b: int| 0 <= a < b < shorter.len() implies values[
        #[trigger] shorter[a]] >= values[#[trigger] shorter[b]] by {
            assert(shorter[a] == order[a]);
            assert(shorter[b] == order[b]);
        }
        lemma_entry_position_parts(values, shorter, i);
        let p = entry_position(values, shorter, i);
        assert forall|a: int| 0 <= a < p implies values[#[trigger] order[a]] >= values[i] by {
            assert(shorter[a] == order[a]);
        }
        assert forall|b: int| p <= b < order.len() implies values[#[trigger] order[b]]
            < values[i] by {
            if b < order.len() - 1 {
                assert(shorter[b] == order[b]);
            }
        }
    }
}

/// The ranking of the first `n` positions is a ranking of them.
pub proof fn lemma_ranking_of_first(values: Seq<int>, n: nat)
    ensures
        is_ranking_of_first(values, n as int, ranking_of_first(values, n)),
    decreases n,
{
    if n > 0 {
        let before = ranking_of_first(values, (n - 1) as nat);
        lemma_ranking_of_first(values, (n - 1) as nat);
        let i = n - 1;
        assert forall|a: int, b: int| 0 <= a < b < before.len() implies values[#[trigger] before[a]]
            >= values[#[trigger] before[b]] by {
            assert(ranks_before(values, before[a], before[b]));
        }
        lemma_entry_position_parts(values, before, i);
        let p = entry_position(values, before, i);
        let order = before.insert(p, i);
        assert forall|k: int| 0 <= k < order.len() implies 0 <= #[trigger] order[k] < n by {
            if k < p {
                assert(order[k] == before[k]);
            } else if k > p {
                assert(order[k] == before[k - 1]);
            }
        }
        assert forall|a: int, b: int| 0 <= a < b < order.len() implies ranks_before(
            values,
            #[trigger] order[a],
            #[trigger] order[b],
        ) by {
            if b < p {
                assert(order[a] == before[a] && order[b] == before[b]);
                assert(ranks_before(values, before[a], before[b]));
            } else if b == p {
                assert(order[a] == before[a]);
                assert(values[before[a]] >= values[i]);
                assert(0 <= before[a] < i);
            } else if a < p {
                assert(order[a] == before[a] && order[b] == before[b - 1]);
                assert(ranks_before(values, before[a], before[b - 1]));
            } else if a == p {
                assert(order[b] == before[b - 1]);
                assert(values[before[b - 1]] < values[i]);
            } else {
                assert(order[a] == before[a - 1] && order[b] == before[b - 1]);
                assert(ranks_before(values, before[a - 1], before[b - 1]));
            }
        }
    }
}

/// The ranking lists every position once, largest value first, and keeps
/// positions of equal value in input order.
pub proof fn lemma_ranking_is_ranking(values: Seq<int>)
    ensures
        is_ranking(values, ranking(values)),
{
    lemma_ranking_of_first(values, values.len());
}

/// A list of `n` different positions below `n` holds the position `n - 1`.
proof fn lemma_last_position_listed(values: Seq<int>, n: int, order: Seq<int>)
    requires
        n > 0,
        is_ranking_of_first(values, n, order),
    ensures
        exists|q: int| 0 <= q < order.len() && #[trigger] order[q] == n - 1,
{
    if !(exists|q: int| 0 <= q < order.len() && #[trigger] order[q] == n - 1) {
        assert forall|a: int, b: int|
            0 <= a < order.len() && 0 <= b < order.len() && a != b implies order[a]
            != order[b] by {
            if a < b {
                assert(ranks_before(values, order[a], order[b]));
            } else {
                assert(ranks_before(values, order[b], order[a]));
            }
        }
        assert(order.no_duplicates());
        order.unique_seq_to_set();
        let below = vstd::set_lib::set_int_range(0, n - 1);
        vstd::set_lib::lemma_int_range(0, n - 1);
        assert forall|x: int| order.to_set().contains(x) implies below.contains(x) by {
            let k = choose|k: int| 0 <= k < order.len() && order[k] == x;
            assert(0 <= order[k] < n);
        }
        vstd::set_lib::lemma_len_subset(order.to_set(), below);
    }
}

/// There is one ranking only: a list that ranks the first `n` positions is
/// the ranking of them.
pub proof fn lemma_ranking_of_first_unique(values: Seq<int>, n: nat, order: Seq<int>)
    requires
        is_ranking_of_first(values, n as int, order),
    ensures
        order == ranking_of_first(values, n),
    decreases n,
{
    if n == 0 {
        assert(order =~= Seq::<int>::empty());
    } else {
        let i = n - 1;
        lemma_last_position_listed(values, n as int, order);
        let q = choose|q: int| 0 <= q < order.len() && #[trigger] order[q] == i;
        let rest = order.remove(q);
        assert forall|k: int| 0 <= k < rest.len() implies 0 <= #[trigger] rest[k] < i by {
            if k < q {
                assert(rest[k] == order[k]);
                assert(ranks_before(values, order[k], order[q]));
            } else {
                assert(rest[k] == order[k + 1]);
                assert(ranks_before(values, order[q], order[k + 1]));
            }
        }
        assert forall|a: int, b: int| 0 <= a < b < rest.len() implies ranks_before(
            values,
            #[trigger] rest[a],
            #[trigger] rest[b],
        ) by {
            let a0 = if a < q { a } else { a + 1 };
            let b0 = if b < q { b } else { b + 1 };
            assert(rest[a] == order[a0] && rest[b] == order[b0]);
            assert(ranks_before(values, order[a0], order[b0]));
        }
        lemma_ranking_of_first_unique(values, i as nat, rest);
        assert forall|a: int, b: int| 0 <= a < b < rest.len() implies values[#[trigger] rest[a]]
            >= values[#[trigger] rest[b]] by {
            assert(ranks_before(values, rest[a], rest[b]));
        }
        lemma_entry_position_parts(values, rest, i);
        let p = entry_position(values, rest, i);
        if p < q {
            assert(rest[p] == order[p]);
            assert(ranks_before(values, order[p], order[q]));
        } else if q < p {
            assert(rest[q] == order[q + 1]);
            assert(ranks_before(values, order[q], order[q + 1]));
            assert(0 <= rest[q] < i);
        }
        assert(order =~= rest.insert(q, i));
    }
}

/// A list is the ranking of `values` exactly if it lists every position
/// once, each before all positions of smaller value and before the later
/// positions of equal value.
pub proof fn lemma_ranking_unique(values: Seq<int>, order: Seq<int>)
    ensures
        is_ranking(values, order) <==> order == ranking(values),
{
    lemma_ranking_is_ranking(values);
    if is_ranking(values, order) {
        lemma_ranking_of_first_unique(values, values.len(), order);
    }
}

/// Positions of equal value keep their input order in the ranking.
pub proof fn lemma_ranking_stable(values: Seq<int>, a: int, b: int)
    requires
        0 <= a < b < values.len(),
        values[ranking(values)[a]] == values[ranking(values)[b]],
    ensures
        ranking(values)[a] < ranking(values)[b],
{
    lemma_ranking_is_ranking(values);
    assert(ranks_before(values, ranking(values)[a], ranking(values)[b]));
}

/// Values do not rise along the ranking.
pub proof fn lemma_ranking_descends(values: Seq<int>, a: int, b: int)
    requires
        0 <= a <= b < values.len(),
    ensures
        values[ranking(values)[a]] >= values[ranking(values)[b]],
{
    lemma_ranking_is_ranking(values);
    if a < b {
        assert(ranks_before(values, ranking(values)[a], ranking(values)[b]));
    }
}

/// Ranks the positions of `metrics`: largest value first, equal values in
/// input order.
pub fn rank(metrics: &Vec<i64>) -> (order: Vec<usize>)
    ensures
        int_positions(order@) == ranking(int_values(metrics@)),
        is_ranking(int_values(metrics@), int_positions(order@)),
{
    let ghost values = int_values(metrics@);
    proof {
        lemma_ranking_is_ranking(values);
    }
    let mut order: Vec<usize> = Vec::new();
    let mut i: usize = 0;
    while i < metrics.len()
        invariant
            i <= metrics.len(),
            values == int_values(metrics@),
            int_positions(order@) =~= ranking_of_first(values, i as nat),
        decreases metrics.len() - i,
    {
        let ghost before = ranking_of_first(values, i as nat);
        proof {
            lemma_ranking_of_first(values, i as nat);
            assert(before =~= before.take(before.len() as int));
        }
        let mut p: usize = order.len();
        while p > 0 && metrics[order[p - 1]] < metrics[i]
            invariant
                p <= order@.len(),
                i < metrics.len(),
                values == int_values(metrics@),
                int_positions(order@) == before,
                is_ranking_of_first(values, i as int, before),
                entry_position(values, before, i as int) == entry_position(
                    values,
                    before.take(p as int),
                    i as int,
                ),
            decreases p,
        {
            proof {
                let shown = before.take(p as int);
                assert(shown.last() == before[p - 1]);
                assert(shown.drop_last() =~= before.take(p - 1));
            }
            p -= 1;
        }
        proof {
            let shown = before.take(p as int);
            if p > 0 {
                assert(shown.last() == before[p - 1]);
            }
            assert(entry_position(values, before, i as int) == p);
        }
        order.insert(p, i);
        i += 1;
    }
    order
}

} // verus!
