//! Ranking: the order in which rows are listed, from the highest key down.

use vstd::prelude::*;

verus! {

/// Position `a` is listed before position `b`: its key is higher, or the keys
/// are equal and it came first.
pub open spec fn ranks_before(keys: Seq<i64>, a: int, b: int) -> bool {
    keys[a] > keys[b] || (keys[a] == keys[b] && a < b)
}

/// `order` lists every position of `keys` once, each before the positions
/// that it ranks before.
pub open spec fn is_ranking(order: Seq<usize>, keys: Seq<i64>) -> bool {
    &&& order.len() == keys.len()
    &&& forall|i: int| 0 <= i < order.len() ==> (#[trigger] order[i]) < keys.len()
    &&& forall|i: int, j: int|
        0 <= i < j < order.len() ==> ranks_before(keys, #[trigger] order[i] as int, #[trigger] order[j] as int)
    &&& forall|p: usize| p < keys.len() ==> #[trigger] order.contains(p)
}

/// The rows at the positions that `order` lists, in that order.
pub open spec fn arranged<T>(rows: Seq<T>, order: Seq<usize>) -> Seq<T> {
    Seq::new(order.len(), |i: int| rows[order[i] as int])
}

/// `listed` holds the rows of `rows` from the highest key down, rows with
/// equal keys in the order in which `rows` holds them.
pub open spec fn is_ranked<T>(listed: Seq<T>, rows: Seq<T>, keys: Seq<i64>) -> bool {
    exists|order: Seq<usize>| is_ranking(order, keys) && listed == arranged(rows, order)
}

/// What a ranked list is, said without the positions: it is as long as the
/// rows, its keys never rise, and every row is listed.
pub proof fn ranked_is_sorted<T>(listed: Seq<T>, rows: Seq<T>, keys: Seq<i64>, key_of: spec_fn(T) -> i64)
    requires
        is_ranked(listed, rows, keys),
        rows.len() == keys.len() <= usize::MAX,
        forall|p: int| 0 <= p < rows.len() ==> key_of(rows[p]) == keys[p],
    ensures
        listed.len() == rows.len(),
        forall|i: int, j: int| 0 <= i < j < listed.len() ==> key_of(listed[i]) >= key_of(listed[j]),
        forall|p: int| 0 <= p < rows.len() ==> listed.contains(rows[p]),
        forall|i: int| 0 <= i < listed.len() ==> rows.contains(listed[i]),
{
    let order = choose|order: Seq<usize>| is_ranking(order, keys) && listed == arranged(rows, order);
    assert forall|i: int, j: int| 0 <= i < j < listed.len() implies key_of(listed[i]) >= key_of(
        listed[j],
    ) by {
        assert(ranks_before(keys, order[i] as int, order[j] as int));
    }
    assert forall|p: int| 0 <= p < rows.len() implies listed.contains(rows[p]) by {
        assert(order.contains(p as usize));
        let i = choose|i: int| 0 <= i < order.len() && order[i] == p as usize;
        assert(order[i] as int == p);
        assert(listed[i] == rows[order[i] as int]);
    }
    assert forall|i: int| 0 <= i < listed.len() implies rows.contains(listed[i]) by {
        assert(rows[order[i] as int] == listed[i]);
    }
}

/// Two rankings of the same keys agree on their first `upto` places.
proof fn rankings_agree_up_to(first: Seq<usize>, second: Seq<usize>, keys: Seq<i64>, upto: int)
    requires
        is_ranking(first, keys),
        is_ranking(second, keys),
        0 <= upto <= keys.len(),
    ensures
        forall|i: int| 0 <= i < upto ==> first[i] == second[i],
    decreases upto,
{
    if upto > 0 {
        rankings_agree_up_to(first, second, keys, upto - 1);
        let i = upto - 1;
        let x = first[i];
        let y = second[i];
        assert(x < keys.len() && y < keys.len());
        assert(second.contains(x));
        assert(first.contains(y));
        let k = choose|k: int| 0 <= k < second.len() && second[k] == x;
        let m = choose|m: int| 0 <= m < first.len() && first[m] == y;
        if k < i {
            assert(first[k] == second[k]);
            assert(ranks_before(keys, first[k] as int, first[i] as int));
        } else if k > i {
            assert(ranks_before(keys, second[i] as int, second[k] as int));
            if m < i {
                assert(second[m] == first[m]);
                assert(ranks_before(keys, second[m] as int, second[i] as int));
            } else if m > i {
                assert(ranks_before(keys, first[i] as int, first[m] as int));
            }
        }
    }
}

/// Keys have one ranking only.
pub proof fn ranking_is_unique(first: Seq<usize>, second: Seq<usize>, keys: Seq<i64>)
    requires
        is_ranking(first, keys),
        is_ranking(second, keys),
    ensures
        first == second,
{
    rankings_agree_up_to(first, second, keys, keys.len() as int);
    assert(first =~= second);
}

/// Rows with keys are listed in one way only: a ranked list is determined
/// by the rows and their keys.
pub proof fn ranked_is_unique<T>(first: Seq<T>, second: Seq<T>, rows: Seq<T>, keys: Seq<i64>)
    requires
        is_ranked(first, rows, keys),
        is_ranked(second, rows, keys),
    ensures
        first == second,
{
    let a = choose|order: Seq<usize>| is_ranking(order, keys) && first == arranged(rows, order);
    let b = choose|order: Seq<usize>| is_ranking(order, keys) && second == arranged(rows, order);
    ranking_is_unique(a, b, keys);
}

/// The positions of `keys` from the highest key down, equal keys in their
/// own order.
pub fn rank(keys: &Vec<i64>) -> (order: Vec<usize>)
    ensures
        is_ranking(order@, keys@),
{
    let mut order: Vec<usize> = Vec::new();
    let mut next: usize = 0;
    while next < keys.len()
        invariant
            next <= keys.len(),
            is_ranking(order@, keys@.take(next as int)),
        decreases keys.len() - next,
    {
        let ghost before = order@;
        let ghost seen = keys@.take(next as int);
        let mut at: usize = 0;
        while at < order.len() && keys[order[at]] >= keys[next]
            invariant
                at <= order.len(),
                next < keys.len(),
                order@ == before,
                is_ranking(order@, seen),
                seen == keys@.take(next as int),
                forall|i: int| 0 <= i < at ==> keys@[order@[i] as int] >= keys@[next as int],
            decreases order.len() - at,
        {
            at = at + 1;
        }
        order.insert(at, next);
        proof {
            let after = order@;
            let grown = keys@.take(next + 1);
            assert(after == before.insert(at as int, next));
            assert forall|i: int| 0 <= i < after.len() implies (#[trigger] after[i]) < grown.len() by {
                if i < at {
                    assert(after[i] == before[i]);
                } else if i > at {
                    assert(after[i] == before[i - 1]);
                }
            }
            assert forall|i: int, j: int| 0 <= i < j < after.len() implies ranks_before(
                grown,
                #[trigger] after[i] as int,
                #[trigger] after[j] as int,
            ) by {
                let a = after[i] as int;
                let b = after[j] as int;
                if i < at && j < at {
                    assert(after[i] == before[i] && after[j] == before[j]);
                    assert(ranks_before(seen, before[i] as int, before[j] as int));
                } else if i < at && j == at {
                    assert(after[i] == before[i]);
                    assert(before[i] < seen.len());
                } else if i < at && j > at {
                    assert(after[i] == before[i] && after[j] == before[j - 1]);
                    assert(ranks_before(seen, before[i] as int, before[j - 1] as int));
                } else if i == at {
                    assert(after[j] == before[j - 1]);
                    assert(before[j - 1] < seen.len());
                    if j - 1 > at {
                        assert(ranks_before(seen, before[at as int] as int, before[j - 1] as int));
                    }
                    assert(keys@[before[at as int] as int] < keys@[next as int]);
                } else {
                    assert(after[i] == before[i - 1] && after[j] == before[j - 1]);
                    assert(ranks_before(seen, before[i - 1] as int, before[j - 1] as int));
                }
            }
            assert forall|p: usize| p < grown.len() implies #[trigger] after.contains(p) by {
                if p == next {
                    assert(after[at as int] == next);
                } else {
                    assert(before.contains(p));
                    let i = choose|i: int| 0 <= i < before.len() && before[i] == p;
                    if i < at {
                        assert(after[i] == before[i]);
                    } else {
                        assert(after[i + 1] == before[i]);
                    }
                }
            }
        }
        next = next + 1;
    }
    assert(keys@.take(keys.len() as int) == keys@);
    order
}

} // verus!
