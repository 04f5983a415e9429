//! Adjacency lists as sequences: what a list records for a neighbour, and
//! what appending, overwriting, removing and pruning do to that.

use vstd::prelude::*;

verus! {

/// An adjacency-list entry: the neighbour's id and the weight of the edge.
pub type Edge = (usize, i32);

/// No neighbour occurs twice in `list`.
pub open spec fn distinct(list: Seq<Edge>) -> bool {
    forall|i: int, j: int|
        0 <= i < j < list.len() ==> (#[trigger] list[i]).0 != (#[trigger] list[j]).0
}

/// Some entry of `list` names the neighbour `b`.
pub open spec fn mentions(list: Seq<Edge>, b: usize) -> bool {
    exists|i: int| 0 <= i < list.len() && (#[trigger] list[i]).0 == b
}

/// The position of an entry of `list` that names `b` (the only one, where
/// `list` is distinct).
pub open spec fn position(list: Seq<Edge>, b: usize) -> int {
    choose|i: int| 0 <= i < list.len() && (#[trigger] list[i]).0 == b
}

/// The weight that `list` records for the neighbour `b`, if any.
pub open spec fn weight_in(list: Seq<Edge>, b: usize) -> Option<i32> {
    if mentions(list, b) {
        Some(list[position(list, b)].1)
    } else {
        None
    }
}

/// `list` with the weight of every entry that names `b` replaced by `w`.
pub open spec fn reweighted(list: Seq<Edge>, b: usize, w: i32) -> Seq<Edge> {
    Seq::new(list.len(), |i: int| if list[i].0 == b { (list[i].0, w) } else { list[i] })
}

/// `list` with the entry at `i` taken out by moving the last entry into its
/// place: the order of the remaining entries is not kept.
pub open spec fn swap_removed(list: Seq<Edge>, i: int) -> Seq<Edge> {
    list.update(i, list.last()).drop_last()
}

/// `list` without its entries that name `v`, the others in their old order.
pub open spec fn pruned(list: Seq<Edge>, v: usize) -> Seq<Edge> {
    list.filter(|e: Edge| e.0 != v)
}

/// What an entry of a distinct list says is what `weight_in` reports, and
/// `weight_in` reports nothing exactly for the neighbours never named.
pub proof fn lemma_weight_in(list: Seq<Edge>)
    ensures
        forall|b: usize|
            (#[trigger] weight_in(list, b)) is None <==> !mentions(list, b),
        forall|i: int|
            0 <= i < list.len() ==> mentions(list, (#[trigger] list[i]).0),
        distinct(list) ==> forall|i: int|
            0 <= i < list.len() ==> weight_in(list, (#[trigger] list[i]).0) == Some(list[i].1),
{
    assert forall|i: int| 0 <= i < list.len() implies mentions(list, (#[trigger] list[i]).0) by {}
    if distinct(list) {
        assert forall|i: int| 0 <= i < list.len() implies weight_in(
            list,
            (#[trigger] list[i]).0,
        ) == Some(list[i].1) by {
            let p = position(list, list[i].0);
            assert(0 <= p < list.len() && list[p].0 == list[i].0);
            if p < i {
                assert(list[p].0 != list[i].0);
            } else if i < p {
                assert(list[i].0 != list[p].0);
            }
        }
    }
}

/// Appending an entry for a neighbour not yet named keeps the list distinct
/// and records the new weight, leaving every other neighbour's as it was.
pub proof fn lemma_push(list: Seq<Edge>, e: Edge)
    requires
        distinct(list),
        !mentions(list, e.0),
    ensures
        distinct(list.push(e)),
        forall|c: usize| #[trigger]
            weight_in(list.push(e), c) == if c == e.0 {
                Some(e.1)
            } else {
                weight_in(list, c)
            },
{
    let grown = list.push(e);
    assert(distinct(grown)) by {
        assert forall|i: int, j: int| 0 <= i < j < grown.len() implies (#[trigger] grown[i]).0 != (
        #[trigger] grown[j]).0 by {
            if j < list.len() {
                assert(list[i].0 != list[j].0);
            } else {
                assert(list[i].0 != e.0);
            }
        }
    }
    lemma_weight_in(list);
    lemma_weight_in(grown);
    assert forall|c: usize| #[trigger]
        weight_in(grown, c) == if c == e.0 {
            Some(e.1)
        } else {
            weight_in(list, c)
        } by {
        if c == e.0 {
            assert(grown[list.len() as int] == e);
        } else if mentions(list, c) {
            let p = position(list, c);
            assert(grown[p] == list[p]);
        } else if mentions(grown, c) {
            let q = position(grown, c);
            assert(grown[q] == list[q]);
        }
    }
}

/// Overwriting the weight of a neighbour keeps the list distinct, changes
/// that neighbour's weight where it is named, and no other.
pub proof fn lemma_reweighted(list: Seq<Edge>, b: usize, w: i32)
    requires
        distinct(list),
    ensures
        distinct(reweighted(list, b, w)),
        reweighted(list, b, w).len() == list.len(),
        forall|c: usize| #[trigger]
            weight_in(reweighted(list, b, w), c) == if c == b && mentions(list, b) {
                Some(w)
            } else {
                weight_in(list, c)
            },
{
    let fresh = reweighted(list, b, w);
    assert forall|i: int| 0 <= i < list.len() implies (#[trigger] fresh[i]).0 == list[i].0 by {}
    assert(distinct(fresh)) by {
        assert forall|i: int, j: int| 0 <= i < j < fresh.len() implies (#[trigger] fresh[i]).0 != (
        #[trigger] fresh[j]).0 by {
            assert(list[i].0 != list[j].0);
        }
    }
    lemma_weight_in(list);
    lemma_weight_in(fresh);
    assert forall|c: usize| #[trigger]
        weight_in(fresh, c) == if c == b && mentions(list, b) {
            Some(w)
        } else {
            weight_in(list, c)
        } by {
        if mentions(list, c) {
            let p = position(list, c);
            assert(fresh[p].0 == c);
        } else if mentions(fresh, c) {
            let q = position(fresh, c);
            assert(list[q].0 == c);
        }
    }
}

/// Taking one entry out keeps the list distinct, forgets the neighbour that
/// the entry named, and keeps every other neighbour's weight.
pub proof fn lemma_swap_removed(list: Seq<Edge>, i: int)
    requires
        distinct(list),
        0 <= i < list.len(),
    ensures
        distinct(swap_removed(list, i)),
        swap_removed(list, i).len() == list.len() - 1,
        forall|c: usize| #[trigger]
            weight_in(swap_removed(list, i), c) == if c == list[i].0 {
                None
            } else {
                weight_in(list, c)
            },
{
    let rest = swap_removed(list, i);
    let last = list.len() - 1;
    assert forall|k: int| 0 <= k < rest.len() implies #[trigger] rest[k] == if k == i {
        list[last]
    } else {
        list[k]
    } by {}
    assert(distinct(rest)) by {
        assert forall|k: int, j: int| 0 <= k < j < rest.len() implies (#[trigger] rest[k]).0 != (
        #[trigger] rest[j]).0 by {
            let sk = if k == i { last } else { k };
            let sj = if j == i { last } else { j };
            if sk < sj {
                assert(list[sk].0 != list[sj].0);
            } else {
                assert(list[sj].0 != list[sk].0);
            }
        }
    }
    lemma_weight_in(list);
    lemma_weight_in(rest);
    assert forall|c: usize| #[trigger]
        weight_in(rest, c) == if c == list[i].0 {
            None
        } else {
            weight_in(list, c)
        } by {
        if mentions(rest, c) {
            let q = position(rest, c);
            let sq = if q == i { last } else { q };
            assert(list[sq].0 == c);
            if sq < i {
                assert(list[sq].0 != list[i].0);
            } else if i < sq {
                assert(list[i].0 != list[sq].0);
            }
        } else if c != list[i].0 && mentions(list, c) {
            let p = position(list, c);
            if p == last {
                assert(rest[i].0 == c);
            } else {
                assert(rest[p].0 == c);
            }
        }
    }
}

/// Pruning a neighbour keeps the list distinct, forgets that neighbour, and
/// keeps every other neighbour's weight.
pub proof fn lemma_pruned(list: Seq<Edge>, v: usize)
    requires
        distinct(list),
    ensures
        distinct(pruned(list, v)),
        forall|c: usize| #[trigger]
            weight_in(pruned(list, v), c) == if c == v {
                None
            } else {
                weight_in(list, c)
            },
    decreases list.len(),
{
    reveal(Seq::filter);
    lemma_weight_in(list);
    lemma_weight_in(pruned(list, v));
    if list.len() == 0 {
        assert(pruned(list, v) =~= list);
    } else {
        let init = list.drop_last();
        let e = list.last();
        assert(list =~= init.push(e));
        assert(distinct(init)) by {
            assert forall|i: int, j: int| 0 <= i < j < init.len() implies (#[trigger] init[i]).0 != (
            #[trigger] init[j]).0 by {
                assert(list[i].0 != list[j].0);
            }
        }
        assert(!mentions(init, e.0)) by {
            if mentions(init, e.0) {
                let p = position(init, e.0);
                assert(list[p].0 != list[list.len() - 1].0);
            }
        }
        lemma_pruned(init, v);
        lemma_push(init, e);
        lemma_weight_in(init);
        lemma_weight_in(pruned(init, v));
        if e.0 != v {
            assert(pruned(list, v) == pruned(init, v).push(e));
            lemma_push(pruned(init, v), e);
        } else {
            assert(pruned(list, v) == pruned(init, v));
        }
    }
}

/// Pruning the list grown by one entry: the entry stays unless it names `v`.
pub proof fn lemma_pruned_push(list: Seq<Edge>, e: Edge, v: usize)
    ensures
        pruned(list.push(e), v) == if e.0 == v {
            pruned(list, v)
        } else {
            pruned(list, v).push(e)
        },
        pruned(Seq::<Edge>::empty(), v) == Seq::<Edge>::empty(),
{
    reveal(Seq::filter);
    assert(list.push(e).drop_last() =~= list);
}

} // verus!
