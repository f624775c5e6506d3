//! The stable order of rows by a rank and a name.
use vstd::prelude::*;
use crate::text;

verus! {

/// What rows are ordered by: their ranks, then their names.
pub struct SortKey {
    pub rank: u64,
    pub name: String,
}

/// The key `a` is ordered before the key `b`.
pub open spec fn key_lt(a: SortKey, b: SortKey) -> bool {
    a.rank < b.rank || (a.rank == b.rank && text::lt(a.name@, b.name@))
}

/// Row `i` comes before row `j`: by their keys, or by their positions where the keys are equal.
pub open spec fn precedes(keys: Seq<SortKey>, i: int, j: int) -> bool {
    key_lt(keys[i], keys[j]) || (!key_lt(keys[j], keys[i]) && i < j)
}

/// `order` lists every position of `keys` once, by key, equal keys in their given order.
pub open spec fn is_stable_order(keys: Seq<SortKey>, order: Seq<usize>) -> bool {
    &&& order.len() == keys.len()
    &&& forall|a: int| 0 <= a < order.len() ==> (#[trigger] order[a]) < keys.len()
    &&& forall|a: int, b: int|
        0 <= a < b < order.len() ==> precedes(
            keys,
            (#[trigger] order[a]) as int,
            (#[trigger] order[b]) as int,
        )
}

/// Whether the key `a` is ordered before the key `b`.
fn key_before(a: &SortKey, b: &SortKey) -> (r: bool)
    ensures
        r == key_lt(*a, *b),
{
    a.rank < b.rank || (a.rank == b.rank && text::before(&a.name, &b.name))
}

/// Key order is transitive.
pub proof fn lemma_key_lt_transitive(a: SortKey, b: SortKey, c: SortKey)
    requires
        key_lt(a, b),
        key_lt(b, c),
    ensures
        key_lt(a, c),
{
    if text::lt(a.name@, b.name@) && text::lt(b.name@, c.name@) {
        text::law_order_transitive(a.name@, b.name@, c.name@);
    }
}

/// Key order is asymmetric, and keys that it leaves unordered are equal.
pub proof fn lemma_key_lt_asymmetric(a: SortKey, b: SortKey)
    ensures
        !(key_lt(a, b) && key_lt(b, a)),
        !key_lt(a, b) && !key_lt(b, a) ==> a.rank == b.rank && a.name@ == b.name@,
{
    text::law_order_total(a.name@, b.name@);
    text::law_order_irreflexive(a.name@);
}

/// The order of rows is strict, total on distinct rows, and transitive.
pub proof fn law_precedence_is_a_strict_total_order(keys: Seq<SortKey>, i: int, j: int, k: int)
    ensures
        !precedes(keys, i, i),
        i != j ==> precedes(keys, i, j) != precedes(keys, j, i),
        precedes(keys, i, j) && precedes(keys, j, k) ==> precedes(keys, i, k),
{
    lemma_key_lt_asymmetric(keys[i], keys[i]);
    lemma_key_lt_asymmetric(keys[i], keys[j]);
    lemma_key_lt_asymmetric(keys[j], keys[k]);
    lemma_key_lt_asymmetric(keys[i], keys[k]);
    if key_lt(keys[i], keys[j]) && key_lt(keys[j], keys[k]) {
        lemma_key_lt_transitive(keys[i], keys[j], keys[k]);
    }
}

/// The stable order of rows by their keys.
pub fn stable_order(keys: &Vec<SortKey>) -> (r: Vec<usize>)
    ensures
        is_stable_order(keys@, r@),
{
    let mut order: Vec<usize> = Vec::new();
    let mut i: usize = 0;
    while i < keys.len()
        invariant
            i <= keys@.len(),
            order@.len() == i,
            forall|a: int| 0 <= a < order@.len() ==> (#[trigger] order@[a]) < i,
            forall|a: int, b: int|
                0 <= a < b < order@.len() ==> precedes(
                    keys@,
                    (#[trigger] order@[a]) as int,
                    (#[trigger] order@[b]) as int,
                ),
        decreases keys@.len() - i,
    {
        let mut at: usize = order.len();
        while at > 0 && key_before(&keys[i], &keys[order[at - 1]])
            invariant
                i < keys@.len(),
                at <= order@.len(),
                order@.len() == i,
                forall|a: int| 0 <= a < order@.len() ==> (#[trigger] order@[a]) < i,
                forall|a: int|
                    at <= a < order@.len() ==> key_lt(keys@[i as int], keys@[(#[trigger] order@[a]) as int]),
            decreases at,
        {
            at = at - 1;
        }
        let ghost before = order@;
        order.insert(at, i);
        proof {
            let after = order@;
            assert forall|a: int, b: int| 0 <= a < b < after.len() implies precedes(
                keys@,
                (#[trigger] after[a]) as int,
                (#[trigger] after[b]) as int,
            ) by {
                let x = if a < at { a } else { a - 1 };
                let y = if b < at { b } else { b - 1 };
                if b == at {
                    assert(after[a] == before[x]);
                    if at > 0 {
                        let prev = before[at - 1];
                        lemma_key_lt_asymmetric(keys@[prev as int], keys@[i as int]);
                        assert(precedes(keys@, prev as int, i as int));
                        if x < at - 1 {
                            assert(precedes(keys@, before[x] as int, before[at - 1] as int));
                            law_precedence_is_a_strict_total_order(
                                keys@,
                                before[x] as int,
                                prev as int,
                                i as int,
                            );
                        }
                    }
                } else if a == at {
                    assert(after[b] == before[y]);
                    assert(key_lt(keys@[i as int], keys@[before[y] as int]));
                } else {
                    assert(after[a] == before[x]);
                    assert(after[b] == before[y]);
                }
            }
            assert forall|a: int| 0 <= a < after.len() implies (#[trigger] after[a]) < i + 1 by {
                let x = if a < at { a } else { a - 1 };
                if a != at {
                    assert(after[a] == before[x]);
                }
            }
        }
        i = i + 1;
    }
    order
}

/// A stable order leaves out no row.
pub proof fn law_order_covers_every_row(keys: Seq<SortKey>, order: Seq<usize>, row: int)
    requires
        is_stable_order(keys, order),
        0 <= row < keys.len(),
    ensures
        exists|a: int| 0 <= a < order.len() && (#[trigger] order[a]) as int == row,
{
    let places = order.map_values(|at: usize| at as int);
    assert(places.no_duplicates()) by {
        assert forall|a: int, b: int|
            0 <= a < places.len() && 0 <= b < places.len() && a != b implies places[a]
            != places[b] by {
            if a < b {
                assert(precedes(keys, order[a] as int, order[b] as int));
            } else {
                assert(precedes(keys, order[b] as int, order[a] as int));
            }
            law_precedence_is_a_strict_total_order(
                keys,
                order[a] as int,
                order[b] as int,
                order[a] as int,
            );
        }
    }
    places.unique_seq_to_set();
    vstd::seq_lib::seq_to_set_is_finite(places);
    let all = vstd::set_lib::set_int_range(0, keys.len() as int);
    vstd::set_lib::lemma_int_range(0, keys.len() as int);
    assert(places.to_set().subset_of(all)) by {
        assert forall|x: int| places.to_set().contains(x) implies all.contains(x) by {
            let a = choose|a: int| 0 <= a < places.len() && places[a] == x;
            assert(order[a] < keys.len());
        }
    }
    vstd::set_lib::lemma_subset_equality(places.to_set(), all);
    assert(all.contains(row));
    assert(places.to_set().contains(row));
    let a = choose|a: int| 0 <= a < places.len() && places[a] == row;
    assert(order[a] as int == row);
}

} // verus!
