//! Laws that relate the graph operations to one another.
//!
//! Each law is stated over [`GraphModel`], the model in which the contracts
//! of the operations on `Graph` say what they return and leave behind.

use crate::error::GraphError;
use crate::model::GraphModel;
use vstd::prelude::*;

verus! {

/// An empty graph of either mode is well formed.
pub proof fn law_empty_is_wf(directed: bool)
    ensures
        (GraphModel { directed, slots: Seq::empty() }).wf(),
{
}

/// Every operation, accepted or rejected, leaves a well-formed graph well
/// formed and in its mode.
pub proof fn law_operations_keep_wf(g: GraphModel, a: usize, b: usize, w: i32)
    requires
        g.wf(),
    ensures
        g.insert_vertex(a).1.wf() && g.insert_vertex(a).1.directed == g.directed,
        g.remove_vertex(a).1.wf() && g.remove_vertex(a).1.directed == g.directed,
        g.insert_edge(a, b, w).1.wf() && g.insert_edge(a, b, w).1.directed == g.directed,
        g.update_edge(a, b, w).1.wf() && g.update_edge(a, b, w).1.directed == g.directed,
        g.remove_edge(a, b).1.wf() && g.remove_edge(a, b).1.directed == g.directed,
{
    if !g.has_vertex(a) {
        g.lemma_with_vertex(a);
    } else {
        g.lemma_without_vertex(a);
    }
    if g.has_vertex(a) && g.has_vertex(b) {
        if g.has_edge(a, b) {
            g.lemma_with_weight(a, b, w);
            g.lemma_without_edge(a, b);
        } else {
            g.lemma_with_edge(a, b, w);
        }
    }
}

/// Inserting a vertex twice: the second insertion is rejected as a
/// duplicate, and the graph stays as the first one left it.
pub proof fn law_second_insert_vertex_rejected(g: GraphModel, v: usize)
    ensures
        g.insert_vertex(v).1.insert_vertex(v) == (
            Err::<(), GraphError>(GraphError::VertexDuplication),
            g.insert_vertex(v).1,
        ),
{
    let first = g.insert_vertex(v).1;
    assert(first.has_vertex(v));
}

/// Inserting a vertex beyond the ids addressed so far succeeds, makes the
/// ids up to it addressable, and leaves every id below it that was absent
/// absent.
pub proof fn law_insert_vertex_grows(g: GraphModel, n: usize)
    requires
        g.slots.len() <= n,
    ensures
        g.insert_vertex(n).0 is Ok,
        g.insert_vertex(n).1.slots.len() == n + 1,
        g.insert_vertex(n).1.has_vertex(n),
        forall|i: usize|
            i < n && !g.has_vertex(i) ==> !(#[trigger] g.insert_vertex(n).1.has_vertex(i)),
        forall|i: usize|
            i < n && g.has_vertex(i) ==> #[trigger] g.insert_vertex(n).1.has_vertex(i),
{
}

/// In a well-formed undirected graph an edge exists one way exactly when it
/// exists the other way, and both ways carry the same weight.
pub proof fn law_undirected_mirror(g: GraphModel, a: usize, b: usize)
    requires
        g.wf(),
        !g.directed,
    ensures
        g.has_edge(a, b) == g.has_edge(b, a),
        g.weight(a, b) == g.weight(b, a),
{
    assert(g.weight(a, b) == g.weight(b, a));
}

/// In a directed graph, inserting an edge from `a` to another vertex `b`
/// neither makes nor unmakes an edge from `b` to `a`.
pub proof fn law_directed_independence(g: GraphModel, a: usize, b: usize, w: i32)
    requires
        g.wf(),
        g.directed,
        a != b,
    ensures
        g.insert_edge(a, b, w).1.has_edge(b, a) == g.has_edge(b, a),
        g.insert_edge(a, b, w).1.weight(b, a) == g.weight(b, a),
{
    if g.has_vertex(a) && g.has_vertex(b) && !g.has_edge(a, b) {
        g.lemma_with_edge(a, b, w);
        assert(g.with_edge(a, b, w).weight(b, a) == g.weight(b, a));
    }
}

/// Removing an existing vertex succeeds; afterwards the vertex is absent and
/// no vertex has an edge to it.
pub proof fn law_remove_vertex_prunes(g: GraphModel, v: usize)
    requires
        g.wf(),
        g.has_vertex(v),
    ensures
        g.remove_vertex(v).0 is Ok,
        !g.remove_vertex(v).1.has_vertex(v),
        forall|x: usize| !(#[trigger] g.remove_vertex(v).1.has_edge(x, v)),
        forall|x: usize| (#[trigger] g.remove_vertex(v).1.weight(x, v)) is None,
{
    g.lemma_without_vertex(v);
    let next = g.remove_vertex(v).1;
    assert forall|x: usize| !(#[trigger] next.has_edge(x, v)) by {
        assert(next.weight(x, v) is None);
    }
}

/// Updating an existing edge twice leaves the second weight, and only it:
/// the graph is the one that the second update alone would have left, no
/// list has grown, and no list names a neighbour twice.
pub proof fn law_update_twice(g: GraphModel, a: usize, b: usize, w1: i32, w2: i32)
    requires
        g.wf(),
        g.has_edge(a, b),
    ensures
        g.update_edge(a, b, w1).0 is Ok,
        g.update_edge(a, b, w1).1.update_edge(a, b, w2).0 is Ok,
        g.update_edge(a, b, w1).1.update_edge(a, b, w2).1.weight(a, b) == Some(w2),
        !g.directed ==> g.update_edge(a, b, w1).1.update_edge(a, b, w2).1.weight(b, a) == Some(w2),
        g.update_edge(a, b, w1).1.update_edge(a, b, w2).1.wf(),
        forall|x: usize| #[trigger]
            g.has_vertex(x) ==> g.update_edge(a, b, w1).1.update_edge(a, b, w2).1.neighbors(x).len()
                == g.neighbors(x).len(),
        g.update_edge(a, b, w1).1.update_edge(a, b, w2).1 == g.update_edge(a, b, w2).1,
{
    g.lemma_has_edge(a, b);
    g.lemma_with_weight(a, b, w1);
    let first = g.with_weight(a, b, w1);
    assert(first.weight(a, b) == Some(w1));
    first.lemma_has_edge(a, b);
    first.lemma_with_weight(a, b, w2);
    let second = first.with_weight(a, b, w2);
    assert(second.weight(a, b) == Some(w2));
    if !g.directed {
        assert(second.weight(b, a) == Some(w2));
    }
    assert forall|x: usize| #[trigger] g.has_vertex(x) implies second.neighbors(x).len()
        == g.neighbors(x).len() by {
        assert(first.has_vertex(x));
    }
    assert(second.slots =~~= g.with_weight(a, b, w2).slots);
}

} // verus!
