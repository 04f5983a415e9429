//! The mathematical model of a graph, and of each operation on it.

use crate::adjacency::{
    distinct, lemma_pruned, lemma_push, lemma_reweighted, lemma_swap_removed, lemma_weight_in,
    mentions, position, pruned, reweighted, swap_removed, weight_in, Edge,
};
use crate::error::GraphError;
use vstd::prelude::*;

verus! {

/// The state of a graph: its mode, and for each id addressed so far either
/// nothing (no such vertex) or the vertex's adjacency list.
pub struct GraphModel {
    /// The mode, fixed when the graph is made.
    pub directed: bool,
    /// The slot of each id addressed so far, by ascending id.
    pub slots: Seq<Option<Seq<Edge>>>,
}

impl GraphModel {
    /// The vertex `v` exists.
    pub open spec fn has_vertex(self, v: usize) -> bool {
        v < self.slots.len() && self.slots[v as int] is Some
    }

    /// The adjacency list of the existing vertex `v`.
    pub open spec fn neighbors(self, v: usize) -> Seq<Edge>
        recommends
            self.has_vertex(v),
    {
        self.slots[v as int].unwrap()
    }

    /// The weight recorded at `a` for the neighbour `b`, if `a` exists and
    /// records one.
    pub open spec fn weight(self, a: usize, b: usize) -> Option<i32> {
        if self.has_vertex(a) {
            weight_in(self.neighbors(a), b)
        } else {
            None
        }
    }

    /// There is an edge from `a` to `b`: `a` records a weight for `b` and, in
    /// an undirected graph, `b` records one for `a` too.
    pub open spec fn has_edge(self, a: usize, b: usize) -> bool {
        if self.directed {
            self.weight(a, b) is Some
        } else {
            self.weight(a, b) is Some && self.weight(b, a) is Some
        }
    }

    /// The invariant of every graph: a list names no neighbour twice, edges
    /// lead to existing vertices only, and an undirected graph records each
    /// edge at both ends with one weight.
    pub open spec fn wf(self) -> bool {
        &&& forall|a: usize| #[trigger] self.has_vertex(a) ==> distinct(self.neighbors(a))
        &&& forall|a: usize, b: usize| (#[trigger] self.weight(a, b)) is Some ==> self.has_vertex(b)
        &&& !self.directed ==> forall|a: usize, b: usize|
            #[trigger] self.weight(a, b) == self.weight(b, a)
    }

    /// The graph after the absent vertex `v` came to exist: the ids up to
    /// `v` become addressable, `v` gets an empty list, and the ids that were
    /// not addressable before stay absent.
    pub open spec fn with_vertex(self, v: usize) -> GraphModel {
        GraphModel {
            directed: self.directed,
            slots: Seq::new(
                if self.slots.len() <= v { (v + 1) as nat } else { self.slots.len() },
                |i: int|
                    if i == v {
                        Some(Seq::<Edge>::empty())
                    } else if i < self.slots.len() {
                        self.slots[i]
                    } else {
                        None
                    },
            ),
        }
    }

    /// The graph after `v` left it: its slot is empty, and no list names it.
    pub open spec fn without_vertex(self, v: usize) -> GraphModel {
        GraphModel {
            directed: self.directed,
            slots: Seq::new(
                self.slots.len(),
                |i: int|
                    if i == v {
                        None
                    } else {
                        match self.slots[i] {
                            Some(list) => Some(pruned(list, v)),
                            None => None,
                        }
                    },
            ),
        }
    }

    /// This graph with the list of `a` replaced by `list`.
    pub open spec fn with_list(self, a: usize, list: Seq<Edge>) -> GraphModel {
        GraphModel { directed: self.directed, slots: self.slots.update(a as int, Some(list)) }
    }

    /// Whether an edge between `a` and `b` has a second entry, at `b`.
    pub open spec fn mirrored(self, a: usize, b: usize) -> bool {
        !self.directed && a != b
    }

    /// An edge from `a` to `b` is what leads from `x` to `y`: the pair is the
    /// edge itself or, in an undirected graph, the edge read the other way.
    pub open spec fn joins(self, a: usize, b: usize, x: usize, y: usize) -> bool {
        (x == a && y == b) || (!self.directed && x == b && y == a)
    }

    /// The graph after the absent edge from `a` to `b` was appended, at `a`
    /// and, where the edge is mirrored, at `b`.
    pub open spec fn with_edge(self, a: usize, b: usize, w: i32) -> GraphModel {
        let half = self.with_list(a, self.neighbors(a).push((b, w)));
        if self.mirrored(a, b) {
            half.with_list(b, self.neighbors(b).push((a, w)))
        } else {
            half
        }
    }

    /// The graph after the weight of the edge from `a` to `b` was
    /// overwritten in place, at both ends where the edge is mirrored.
    pub open spec fn with_weight(self, a: usize, b: usize, w: i32) -> GraphModel {
        let half = self.with_list(a, reweighted(self.neighbors(a), b, w));
        if self.mirrored(a, b) {
            half.with_list(b, reweighted(self.neighbors(b), a, w))
        } else {
            half
        }
    }

    /// The graph after the edge from `a` to `b` was taken out, at both ends
    /// where the edge is mirrored.
    pub open spec fn without_edge(self, a: usize, b: usize) -> GraphModel {
        let at_a = self.neighbors(a);
        let half = self.with_list(a, swap_removed(at_a, position(at_a, b)));
        if self.mirrored(a, b) {
            let at_b = self.neighbors(b);
            half.with_list(b, swap_removed(at_b, position(at_b, a)))
        } else {
            half
        }
    }

    /// What inserting the vertex `v` returns, and the graph it leaves.
    pub open spec fn insert_vertex(self, v: usize) -> (Result<(), GraphError>, GraphModel) {
        if self.has_vertex(v) {
            (Err(GraphError::VertexDuplication), self)
        } else {
            (Ok(()), self.with_vertex(v))
        }
    }

    /// What removing the vertex `v` returns, and the graph it leaves.
    pub open spec fn remove_vertex(self, v: usize) -> (Result<(), GraphError>, GraphModel) {
        if !self.has_vertex(v) {
            (Err(GraphError::VertexNotExist), self)
        } else {
            (Ok(()), self.without_vertex(v))
        }
    }

    /// What inserting the edge from `a` to `b` returns, and the graph it
    /// leaves.
    pub open spec fn insert_edge(self, a: usize, b: usize, w: i32) -> (
        Result<(), GraphError>,
        GraphModel,
    ) {
        if !self.has_vertex(a) || !self.has_vertex(b) {
            (Err(GraphError::VertexNotExist), self)
        } else if self.has_edge(a, b) {
            (Err(GraphError::EdgeDuplication), self)
        } else {
            (Ok(()), self.with_edge(a, b, w))
        }
    }

    /// What updating the edge from `a` to `b` returns, and the graph it
    /// leaves.
    pub open spec fn update_edge(self, a: usize, b: usize, w: i32) -> (
        Result<(), GraphError>,
        GraphModel,
    ) {
        if !self.has_vertex(a) || !self.has_vertex(b) {
            (Err(GraphError::VertexNotExist), self)
        } else if !self.has_edge(a, b) {
            (Err(GraphError::EdgeNotExist), self)
        } else {
            (Ok(()), self.with_weight(a, b, w))
        }
    }

    /// What removing the edge from `a` to `b` returns, and the graph it
    /// leaves.
    pub open spec fn remove_edge(self, a: usize, b: usize) -> (Result<(), GraphError>, GraphModel) {
        if !self.has_vertex(a) || !self.has_vertex(b) {
            (Err(GraphError::VertexNotExist), self)
        } else if !self.has_edge(a, b) {
            (Err(GraphError::EdgeNotExist), self)
        } else {
            (Ok(()), self.without_edge(a, b))
        }
    }

    /// In a well-formed graph an edge exists exactly where its origin
    /// records a weight for its destination.
    pub proof fn lemma_has_edge(self, a: usize, b: usize)
        requires
            self.wf(),
        ensures
            self.has_edge(a, b) == (self.weight(a, b) is Some),
            self.has_edge(a, b) ==> self.has_vertex(a) && self.has_vertex(b),
            self.has_vertex(a) ==> (self.has_edge(a, b) == mentions(self.neighbors(a), b)),
    {
        assert(self.weight(a, b) is Some ==> self.has_vertex(b));
        if !self.directed {
            assert(self.weight(a, b) == self.weight(b, a));
        }
        if self.has_vertex(a) {
            lemma_weight_in(self.neighbors(a));
        }
    }

    /// A new vertex has no edges and changes no other vertex.
    pub proof fn lemma_with_vertex(self, v: usize)
        requires
            self.wf(),
            !self.has_vertex(v),
        ensures
            self.with_vertex(v).wf(),
            self.with_vertex(v).directed == self.directed,
            self.with_vertex(v).slots.len() >= self.slots.len(),
            forall|x: usize| #[trigger]
                self.with_vertex(v).has_vertex(x) == (x == v || self.has_vertex(x)),
            forall|x: usize, y: usize| #[trigger]
                self.with_vertex(v).weight(x, y) == self.weight(x, y),
    {
        let next = self.with_vertex(v);
        lemma_weight_in(Seq::<Edge>::empty());
        assert forall|x: usize, y: usize| #[trigger] next.weight(x, y) == self.weight(x, y) by {}
        assert forall|a: usize| #[trigger] next.has_vertex(a) implies distinct(
            next.neighbors(a),
        ) by {
            if a != v {
                assert(self.has_vertex(a));
            }
        }
        assert forall|a: usize, b: usize| (#[trigger] next.weight(a, b)) is Some implies next.has_vertex(
            b,
        ) by {
            assert(self.weight(a, b) is Some);
        }
        if !self.directed {
            assert forall|a: usize, b: usize| #[trigger] next.weight(a, b) == next.weight(b, a) by {
                assert(self.weight(a, b) == self.weight(b, a));
            }
        }
    }

    /// A new edge sets the weight between its ends, in both directions where
    /// the graph is undirected, and changes nothing else.
    pub proof fn lemma_with_edge(self, a: usize, b: usize, w: i32)
        requires
            self.wf(),
            self.has_vertex(a),
            self.has_vertex(b),
            !self.has_edge(a, b),
        ensures
            self.with_edge(a, b, w).wf(),
            self.with_edge(a, b, w).directed == self.directed,
            self.with_edge(a, b, w).slots.len() == self.slots.len(),
            forall|x: usize| #[trigger]
                self.with_edge(a, b, w).has_vertex(x) == self.has_vertex(x),
            forall|x: usize, y: usize| #[trigger]
                self.with_edge(a, b, w).weight(x, y) == if self.joins(a, b, x, y) {
                    Some(w)
                } else {
                    self.weight(x, y)
                },
    {
        let next = self.with_edge(a, b, w);
        self.lemma_has_edge(a, b);
        self.lemma_has_edge(b, a);
        assert(self.weight(a, b) == self.weight(b, a) || self.directed);
        lemma_weight_in(self.neighbors(a));
        lemma_weight_in(self.neighbors(b));
        lemma_push(self.neighbors(a), (b, w));
        if self.mirrored(a, b) {
            lemma_push(self.neighbors(b), (a, w));
        }
        assert forall|x: usize, y: usize| #[trigger]
            next.weight(x, y) == if self.joins(a, b, x, y) {
                Some(w)
            } else {
                self.weight(x, y)
            } by {}
        assert forall|x: usize| #[trigger] next.has_vertex(x) implies distinct(
            next.neighbors(x),
        ) by {
            assert(self.has_vertex(x));
        }
        self.lemma_wf_from_weights(next);
    }

    /// Overwriting an edge's weight sets the weight between its ends, in
    /// both directions where the graph is undirected, and changes nothing
    /// else.
    pub proof fn lemma_with_weight(self, a: usize, b: usize, w: i32)
        requires
            self.wf(),
            self.has_edge(a, b),
        ensures
            self.with_weight(a, b, w).wf(),
            self.with_weight(a, b, w).directed == self.directed,
            self.with_weight(a, b, w).slots.len() == self.slots.len(),
            forall|x: usize| #[trigger]
                self.with_weight(a, b, w).has_vertex(x) == self.has_vertex(x),
            forall|x: usize| #[trigger]
                self.has_vertex(x) ==> self.with_weight(a, b, w).neighbors(x).len()
                    == self.neighbors(x).len(),
            forall|x: usize, y: usize| #[trigger]
                self.with_weight(a, b, w).weight(x, y) == if self.joins(a, b, x, y) {
                    Some(w)
                } else {
                    self.weight(x, y)
                },
    {
        let next = self.with_weight(a, b, w);
        self.lemma_has_edge(a, b);
        self.lemma_has_edge(b, a);
        assert(self.weight(a, b) == self.weight(b, a) || self.directed);
        lemma_weight_in(self.neighbors(a));
        lemma_weight_in(self.neighbors(b));
        lemma_reweighted(self.neighbors(a), b, w);
        if self.mirrored(a, b) {
            lemma_reweighted(self.neighbors(b), a, w);
        }
        assert forall|x: usize, y: usize| #[trigger]
            next.weight(x, y) == if self.joins(a, b, x, y) {
                Some(w)
            } else {
                self.weight(x, y)
            } by {}
        assert forall|x: usize| #[trigger] next.has_vertex(x) implies distinct(
            next.neighbors(x),
        ) by {
            assert(self.has_vertex(x));
        }
        self.lemma_wf_from_weights(next);
    }

    /// Taking an edge out forgets the weight between its ends, in both
    /// directions where the graph is undirected, and changes nothing else.
    pub proof fn lemma_without_edge(self, a: usize, b: usize)
        requires
            self.wf(),
            self.has_edge(a, b),
        ensures
            self.without_edge(a, b).wf(),
            self.without_edge(a, b).directed == self.directed,
            self.without_edge(a, b).slots.len() == self.slots.len(),
            forall|x: usize| #[trigger]
                self.without_edge(a, b).has_vertex(x) == self.has_vertex(x),
            forall|x: usize, y: usize| #[trigger]
                self.without_edge(a, b).weight(x, y) == if self.joins(a, b, x, y) {
                    None
                } else {
                    self.weight(x, y)
                },
    {
        let next = self.without_edge(a, b);
        self.lemma_has_edge(a, b);
        self.lemma_has_edge(b, a);
        assert(self.weight(a, b) == self.weight(b, a) || self.directed);
        let at_a = self.neighbors(a);
        let at_b = self.neighbors(b);
        lemma_weight_in(at_a);
        lemma_weight_in(at_b);
        lemma_swap_removed(at_a, position(at_a, b));
        if self.mirrored(a, b) {
            lemma_swap_removed(at_b, position(at_b, a));
        }
        assert forall|x: usize, y: usize| #[trigger]
            next.weight(x, y) == if self.joins(a, b, x, y) {
                None
            } else {
                self.weight(x, y)
            } by {}
        assert forall|x: usize| #[trigger] next.has_vertex(x) implies distinct(
            next.neighbors(x),
        ) by {
            assert(self.has_vertex(x));
        }
        self.lemma_wf_from_weights(next);
    }

    /// Removing a vertex forgets every weight from it and to it, and changes
    /// nothing else.
    pub proof fn lemma_without_vertex(self, v: usize)
        requires
            self.wf(),
            self.has_vertex(v),
        ensures
            self.without_vertex(v).wf(),
            self.without_vertex(v).directed == self.directed,
            self.without_vertex(v).slots.len() == self.slots.len(),
            forall|x: usize| #[trigger]
                self.without_vertex(v).has_vertex(x) == (x != v && self.has_vertex(x)),
            forall|x: usize, y: usize| #[trigger]
                self.without_vertex(v).weight(x, y) == if x == v || y == v {
                    None
                } else {
                    self.weight(x, y)
                },
    {
        let next = self.without_vertex(v);
        assert forall|x: usize, y: usize| #[trigger]
            next.weight(x, y) == if x == v || y == v {
                None
            } else {
                self.weight(x, y)
            } by {
            if x != v && self.has_vertex(x) {
                lemma_pruned(self.neighbors(x), v);
            }
        }
        assert forall|x: usize| #[trigger] next.has_vertex(x) implies distinct(
            next.neighbors(x),
        ) by {
            assert(self.has_vertex(x));
            lemma_pruned(self.neighbors(x), v);
        }
        assert forall|x: usize, y: usize| (#[trigger] next.weight(x, y)) is Some implies next.has_vertex(
            y,
        ) by {
            assert(self.weight(x, y) is Some);
        }
        if !self.directed {
            assert forall|x: usize, y: usize| #[trigger] next.weight(x, y) == next.weight(y, x) by {
                assert(self.weight(x, y) == self.weight(y, x));
            }
        }
    }

    /// `next` is well formed when it has the vertices of this well-formed
    /// graph, distinct lists, and weights that differ from this graph's only
    /// between existing vertices and, where undirected, symmetrically.
    proof fn lemma_wf_from_weights(self, next: GraphModel)
        requires
            self.wf(),
            next.directed == self.directed,
            forall|x: usize| #[trigger] next.has_vertex(x) == self.has_vertex(x),
            forall|x: usize| #[trigger] next.has_vertex(x) ==> distinct(next.neighbors(x)),
            forall|x: usize, y: usize|
                (#[trigger] next.weight(x, y)) is Some ==> self.weight(x, y) is Some || (
                self.has_vertex(x) && self.has_vertex(y)),
            !self.directed ==> forall|x: usize, y: usize|
                #[trigger] next.weight(x, y) == self.weight(x, y) || next.weight(x, y)
                    == next.weight(y, x),
        ensures
            next.wf(),
    {
        assert forall|x: usize, y: usize| (#[trigger] next.weight(x, y)) is Some implies next.has_vertex(
            y,
        ) by {
            if self.weight(x, y) is Some {
                assert(self.has_vertex(y));
            }
            assert(next.has_vertex(y) == self.has_vertex(y));
        }
        if !self.directed {
            assert forall|x: usize, y: usize| #[trigger] next.weight(x, y) == next.weight(y, x) by {
                assert(self.weight(x, y) == self.weight(y, x));
                if next.weight(x, y) != next.weight(y, x) {
                    assert(next.weight(x, y) == self.weight(x, y));
                    assert(next.weight(y, x) == self.weight(y, x) || next.weight(y, x)
                        == next.weight(x, y));
                }
            }
        }
    }
}

} // verus!
