//! The graph itself: an adjacency list per vertex, indexed by vertex id.

use crate::error::GraphError;
use crate::adjacency::{
    distinct, lemma_pruned_push, mentions, position, pruned, reweighted, swap_removed, Edge,
};
use crate::model::GraphModel;
use crate::text::{lines_text, push_line};
use vstd::prelude::*;

verus! {

/// A graph over vertices named by `usize` ids, with `i32` edge weights.
///
/// The slot of an id holds the vertex's adjacency list, or nothing where the
/// vertex does not exist. Slots are never given up: removing a vertex empties
/// its slot and keeps every other id where it is.
pub struct Graph {
    adjacency_list: Vec<Option<Vec<Edge>>>,
    is_directed: bool,
}

/// What a slot holds, as a sequence.
spec fn slot_view(slot: Option<Vec<Edge>>) -> Option<Seq<Edge>> {
    match slot {
        Some(list) => Some(list@),
        None => None,
    }
}

impl View for Graph {
    type V = GraphModel;

    closed spec fn view(&self) -> GraphModel {
        GraphModel {
            directed: self.is_directed,
            slots: Seq::new(
                self.adjacency_list@.len(),
                |i: int| slot_view(self.adjacency_list@[i]),
            ),
        }
    }
}

/// The position in `list` of the first entry that names `target`, if there
/// is one.
fn find_entry(list: &Vec<Edge>, target: usize) -> (found: Option<usize>)
    ensures
        found is Some <==> mentions(list@, target),
        found matches Some(i) ==> i < list@.len() && list@[i as int].0 == target && forall|k: int|
            0 <= k < i ==> (#[trigger] list@[k]).0 != target,
{
    let mut i: usize = 0;
    while i < list.len()
        invariant
            i <= list@.len(),
            forall|k: int| 0 <= k < i ==> (#[trigger] list@[k]).0 != target,
        decreases list@.len() - i,
    {
        if list[i].0 == target {
            return Some(i);
        }
        i += 1;
    }
    None
}

/// Overwrites the weight that `list` records for `target`.
fn set_weight(list: &mut Vec<Edge>, target: usize, weight: i32)
    requires
        distinct(old(list)@),
        mentions(old(list)@, target),
    ensures
        final(list)@ == reweighted(old(list)@, target, weight),
{
    let found = find_entry(list, target);
    let i: usize = found.unwrap();
    list[i] = (target, weight);
    assert(list@ =~= reweighted(old(list)@, target, weight)) by {
        assert forall|k: int| 0 <= k < list@.len() && k != i implies (#[trigger] old(list)@[k]).0
            != target by {
            if k < i {
                assert(old(list)@[k].0 != old(list)@[i as int].0);
            } else {
                assert(old(list)@[i as int].0 != old(list)@[k].0);
            }
        }
    }
}

/// Takes the entry that names `target` out of `list`. The last entry moves
/// into its place.
fn remove_entry(list: &mut Vec<Edge>, target: usize)
    requires
        distinct(old(list)@),
        mentions(old(list)@, target),
    ensures
        final(list)@ == swap_removed(old(list)@, position(old(list)@, target)),
{
    let found = find_entry(list, target);
    let i: usize = found.unwrap();
    proof {
        let p = position(list@, target);
        if p < i {
            assert(list@[p].0 != list@[i as int].0);
        } else if i < p {
            assert(list@[i as int].0 != list@[p].0);
        }
    }
    list.swap_remove(i);
}

/// Drops from `list` every entry that names `vertex`, keeping the order of
/// the others.
fn prune(list: &mut Vec<Edge>, vertex: usize)
    ensures
        final(list)@ == pruned(old(list)@, vertex),
{
    let mut kept: Vec<Edge> = Vec::new();
    let mut i: usize = 0;
    proof {
        lemma_pruned_push(Seq::<Edge>::empty(), (0, 0), vertex);
        assert(list@.take(0) =~= Seq::<Edge>::empty());
    }
    while i < list.len()
        invariant
            i <= list@.len(),
            list@ == old(list)@,
            kept@ == pruned(list@.take(i as int), vertex),
        decreases list@.len() - i,
    {
        let entry = list[i];
        proof {
            lemma_pruned_push(list@.take(i as int), entry, vertex);
            assert(list@.take(i + 1) =~= list@.take(i as int).push(entry));
        }
        if entry.0 != vertex {
            kept.push(entry);
        }
        i += 1;
    }
    assert(list@.take(i as int) =~= list@);
    *list = kept;
}

impl Graph {
    /// Every graph that the public operations can build satisfies this.
    pub open spec fn wf(&self) -> bool {
        self@.wf()
    }

    /// An empty graph of the given mode.
    pub fn new(is_directed: bool) -> (g: Graph)
        ensures
            g.wf(),
            g@.directed == is_directed,
            g@.slots == Seq::<Option<Seq<Edge>>>::empty(),
    {
        let g = Graph { adjacency_list: Vec::new(), is_directed };
        assert(g@.slots =~= Seq::<Option<Seq<Edge>>>::empty());
        g
    }

    /// Adds a vertex with no edges. An id that exists already is rejected
    /// with `VertexDuplication`, and the graph stays as it was. Ids below
    /// `vertex` that were not addressable become so, and stay absent.
    pub fn insert_vertex(&mut self, vertex: usize) -> (r: Result<(), GraphError>)
        requires
            old(self).wf(),
        ensures
            final(self).wf(),
            (r, final(self)@) == old(self)@.insert_vertex(vertex),
            forall|x: usize| #[trigger]
                final(self)@.has_vertex(x) == (x == vertex || old(self)@.has_vertex(x)),
            forall|x: usize, y: usize| #[trigger]
                final(self)@.weight(x, y) == old(self)@.weight(x, y),
    {
        if self.vertex_exists(vertex) {
            Err(GraphError::VertexDuplication)
        } else {
            self.add_vertex(vertex);
            Ok(())
        }
    }

    /// Adds an edge between two existing vertices that have none yet. In an
    /// undirected graph the edge then leads both ways.
    ///
    /// Rejected with `VertexNotExist` where an end is absent, else with
    /// `EdgeDuplication` where the edge exists; the graph then stays as it
    /// was.
    pub fn insert_edge(&mut self, origin: usize, destiny: usize, weight: i32) -> (r: Result<
        (),
        GraphError,
    >)
        requires
            old(self).wf(),
        ensures
            final(self).wf(),
            (r, final(self)@) == old(self)@.insert_edge(origin, destiny, weight),
            r is Ok ==> forall|x: usize| #[trigger]
                final(self)@.has_vertex(x) == old(self)@.has_vertex(x),
            r is Ok ==> forall|x: usize, y: usize| #[trigger]
                final(self)@.weight(x, y) == if old(self)@.joins(origin, destiny, x, y) {
                    Some(weight)
                } else {
                    old(self)@.weight(x, y)
                },
    {
        if !self.vertex_exists(origin) || !self.vertex_exists(destiny) {
            Err(GraphError::VertexNotExist)
        } else if self.edge_exists(origin, destiny) {
            Err(GraphError::EdgeDuplication)
        } else {
            self.add_edge(origin, destiny, weight);
            Ok(())
        }
    }

    /// Overwrites the weight of an existing edge, in both directions where
    /// the graph is undirected.
    ///
    /// Rejected with `VertexNotExist` where an end is absent, else with
    /// `EdgeNotExist` where there is no such edge; the graph then stays as
    /// it was.
    pub fn update_edge(&mut self, origin: usize, destiny: usize, weight: i32) -> (r: Result<
        (),
        GraphError,
    >)
        requires
            old(self).wf(),
        ensures
            final(self).wf(),
            (r, final(self)@) == old(self)@.update_edge(origin, destiny, weight),
            r is Ok ==> forall|x: usize| #[trigger]
                final(self)@.has_vertex(x) == old(self)@.has_vertex(x),
            r is Ok ==> forall|x: usize, y: usize| #[trigger]
                final(self)@.weight(x, y) == if old(self)@.joins(origin, destiny, x, y) {
                    Some(weight)
                } else {
                    old(self)@.weight(x, y)
                },
    {
        if !self.vertex_exists(origin) || !self.vertex_exists(destiny) {
            Err(GraphError::VertexNotExist)
        } else if !self.edge_exists(origin, destiny) {
            Err(GraphError::EdgeNotExist)
        } else {
            self.modify_edge(origin, destiny, weight);
            Ok(())
        }
    }

    /// Removes a vertex together with every edge from it and to it. An
    /// absent vertex is rejected with `VertexNotExist`.
    pub fn remove_vertex(&mut self, vertex: usize) -> (r: Result<(), GraphError>)
        requires
            old(self).wf(),
        ensures
            final(self).wf(),
            (r, final(self)@) == old(self)@.remove_vertex(vertex),
            forall|x: usize| #[trigger]
                final(self)@.has_vertex(x) == (x != vertex && old(self)@.has_vertex(x)),
            r is Ok ==> forall|x: usize, y: usize| #[trigger]
                final(self)@.weight(x, y) == if x == vertex || y == vertex {
                    None
                } else {
                    old(self)@.weight(x, y)
                },
    {
        if !self.vertex_exists(vertex) {
            Err(GraphError::VertexNotExist)
        } else {
            self.clean_vertex(vertex);
            Ok(())
        }
    }

    /// Removes an existing edge, in both directions where the graph is
    /// undirected. The lists of its ends may come out in another order.
    ///
    /// Rejected with `VertexNotExist` where an end is absent, else with
    /// `EdgeNotExist` where there is no such edge; the graph then stays as
    /// it was.
    pub fn remove_edge(&mut self, origin: usize, destiny: usize) -> (r: Result<(), GraphError>)
        requires
            old(self).wf(),
        ensures
            final(self).wf(),
            (r, final(self)@) == old(self)@.remove_edge(origin, destiny),
            r is Ok ==> forall|x: usize| #[trigger]
                final(self)@.has_vertex(x) == old(self)@.has_vertex(x),
            r is Ok ==> forall|x: usize, y: usize| #[trigger]
                final(self)@.weight(x, y) == if old(self)@.joins(origin, destiny, x, y) {
                    None
                } else {
                    old(self)@.weight(x, y)
                },
    {
        if !self.vertex_exists(origin) || !self.vertex_exists(destiny) {
            Err(GraphError::VertexNotExist)
        } else if !self.edge_exists(origin, destiny) {
            Err(GraphError::EdgeNotExist)
        } else {
            self.clean_edge(origin, destiny);
            Ok(())
        }
    }

    /// Whether the vertex exists.
    pub fn vertex_exists(&self, vertex: usize) -> (r: bool)
        ensures
            r == self@.has_vertex(vertex),
    {
        if self.adjacency_list.len() <= vertex {
            false
        } else {
            self.adjacency_list[vertex].is_some()
        }
    }

    /// Whether there is an edge from `origin` to `destiny`. Both vertices
    /// must exist.
    pub fn edge_exists(&self, origin: usize, destiny: usize) -> (r: bool)
        requires
            self.wf(),
            self@.has_vertex(origin),
            self@.has_vertex(destiny),
        ensures
            r == self@.has_edge(origin, destiny),
            r == (self@.weight(origin, destiny) is Some),
    {
        let origin_to_destiny = find_entry(
            self.adjacency_list[origin].as_ref().unwrap(),
            destiny,
        ).is_some();
        let destiny_to_origin = find_entry(
            self.adjacency_list[destiny].as_ref().unwrap(),
            origin,
        ).is_some();
        proof {
            self@.lemma_has_edge(origin, destiny);
            self@.lemma_has_edge(destiny, origin);
        }
        if self.is_directed {
            origin_to_destiny
        } else {
            origin_to_destiny && destiny_to_origin
        }
    }

    /// The graph as text: the line of each existing vertex, by ascending id.
    pub fn render(&self) -> (text: String)
        ensures
            text@ == lines_text(self@.slots),
    {
        let mut out = String::new();
        let mut i: usize = 0;
        assert(self@.slots.take(0) =~= Seq::<Option<Seq<Edge>>>::empty());
        while i < self.adjacency_list.len()
            invariant
                i <= self.adjacency_list@.len(),
                out@ == lines_text(self@.slots.take(i as int)),
            decreases self.adjacency_list@.len() - i,
        {
            proof {
                let shown = self@.slots.take(i + 1);
                assert(shown.drop_last() =~= self@.slots.take(i as int));
                assert(shown.last() == self@.slots[i as int]);
            }
            match &self.adjacency_list[i] {
                Some(list) => {
                    push_line(&mut out, i, list);
                },
                None => {},
            }
            i += 1;
        }
        assert(self@.slots.take(i as int) =~= self@.slots);
        out
    }

    /// Makes `vertex` exist, with no edges.
    fn add_vertex(&mut self, vertex: usize)
        requires
            old(self).wf(),
            !old(self)@.has_vertex(vertex),
        ensures
            final(self).wf(),
            final(self)@ == old(self)@.with_vertex(vertex),
            forall|x: usize| #[trigger]
                final(self)@.has_vertex(x) == (x == vertex || old(self)@.has_vertex(x)),
            forall|x: usize, y: usize| #[trigger]
                final(self)@.weight(x, y) == old(self)@.weight(x, y),
    {
        while self.adjacency_list.len() <= vertex
            invariant
                self.is_directed == old(self).is_directed,
                self.adjacency_list@.len() >= old(self).adjacency_list@.len(),
                forall|k: int|
                    0 <= k < old(self).adjacency_list@.len() ==> #[trigger] self.adjacency_list@[k]
                        == old(self).adjacency_list@[k],
                forall|k: int|
                    old(self).adjacency_list@.len() <= k < self.adjacency_list@.len()
                        ==> (#[trigger] self.adjacency_list@[k]) is None,
                self.adjacency_list@.len() > old(self).adjacency_list@.len()
                    ==> self.adjacency_list@.len() <= vertex + 1,
            decreases vertex + 1 - self.adjacency_list@.len(),
        {
            self.adjacency_list.push(None);
        }
        self.adjacency_list[vertex] = Some(Vec::new());
        proof {
            assert(self@.slots =~= old(self)@.with_vertex(vertex).slots);
            old(self)@.lemma_with_vertex(vertex);
        }
    }

    /// Appends the edge to the list of its origin and, where it is mirrored,
    /// to that of its destination.
    fn add_edge(&mut self, origin: usize, destiny: usize, weight: i32)
        requires
            old(self).wf(),
            old(self)@.has_vertex(origin),
            old(self)@.has_vertex(destiny),
            !old(self)@.has_edge(origin, destiny),
        ensures
            final(self).wf(),
            final(self)@ == old(self)@.with_edge(origin, destiny, weight),
            forall|x: usize| #[trigger] final(self)@.has_vertex(x) == old(self)@.has_vertex(x),
            forall|x: usize, y: usize| #[trigger]
                final(self)@.weight(x, y) == if old(self)@.joins(origin, destiny, x, y) {
                    Some(weight)
                } else {
                    old(self)@.weight(x, y)
                },
    {
        self.adjacency_list[origin].as_mut().unwrap().push((destiny, weight));
        if !self.is_directed && origin != destiny {
            self.adjacency_list[destiny].as_mut().unwrap().push((origin, weight));
        }
        proof {
            assert(self@.slots =~= old(self)@.with_edge(origin, destiny, weight).slots);
            old(self)@.lemma_with_edge(origin, destiny, weight);
        }
    }

    /// Overwrites the weight of the edge where its origin records it and,
    /// where it is mirrored, where its destination does.
    fn modify_edge(&mut self, origin: usize, destiny: usize, weight: i32)
        requires
            old(self).wf(),
            old(self)@.has_edge(origin, destiny),
        ensures
            final(self).wf(),
            final(self)@ == old(self)@.with_weight(origin, destiny, weight),
            forall|x: usize| #[trigger] final(self)@.has_vertex(x) == old(self)@.has_vertex(x),
            forall|x: usize, y: usize| #[trigger]
                final(self)@.weight(x, y) == if old(self)@.joins(origin, destiny, x, y) {
                    Some(weight)
                } else {
                    old(self)@.weight(x, y)
                },
    {
        proof {
            self@.lemma_has_edge(origin, destiny);
            self@.lemma_has_edge(destiny, origin);
        }
        set_weight(self.adjacency_list[origin].as_mut().unwrap(), destiny, weight);
        if !self.is_directed && origin != destiny {
            set_weight(self.adjacency_list[destiny].as_mut().unwrap(), origin, weight);
        }
        proof {
            assert(self@.slots =~= old(self)@.with_weight(origin, destiny, weight).slots);
            old(self)@.lemma_with_weight(origin, destiny, weight);
        }
    }

    /// Empties the slot of `vertex` and prunes it from every list.
    pub fn clean_vertex(&mut self, vertex: usize)
        requires
            old(self).wf(),
            old(self)@.has_vertex(vertex),
        ensures
            final(self).wf(),
            final(self)@ == old(self)@.without_vertex(vertex),
            forall|x: usize| #[trigger]
                final(self)@.has_vertex(x) == (x != vertex && old(self)@.has_vertex(x)),
            forall|x: usize, y: usize| #[trigger]
                final(self)@.weight(x, y) == if x == vertex || y == vertex {
                    None
                } else {
                    old(self)@.weight(x, y)
                },
    {
        self.adjacency_list[vertex] = None;
        let mut i: usize = 0;
        while i < self.adjacency_list.len()
            invariant
                i <= self.adjacency_list@.len(),
                self.is_directed == old(self).is_directed,
                self.adjacency_list@.len() == old(self).adjacency_list@.len(),
                vertex < self.adjacency_list@.len(),
                self.adjacency_list@[vertex as int] is None,
                forall|k: int|
                    0 <= k < i ==> slot_view(#[trigger] self.adjacency_list@[k]) == old(
                        self,
                    )@.without_vertex(vertex).slots[k],
                forall|k: int|
                    i <= k < self.adjacency_list@.len() && k != vertex
                        ==> #[trigger] self.adjacency_list@[k] == old(self).adjacency_list@[k],
            decreases self.adjacency_list@.len() - i,
        {
            if self.adjacency_list[i].is_some() {
                prune(self.adjacency_list[i].as_mut().unwrap(), vertex);
            }
            i += 1;
        }
        proof {
            assert(self@.slots =~= old(self)@.without_vertex(vertex).slots);
            old(self)@.lemma_without_vertex(vertex);
        }
    }

    /// Takes the edge out of the list of its origin and, where it is
    /// mirrored, out of that of its destination.
    fn clean_edge(&mut self, origin: usize, destiny: usize)
        requires
            old(self).wf(),
            old(self)@.has_edge(origin, destiny),
        ensures
            final(self).wf(),
            final(self)@ == old(self)@.without_edge(origin, destiny),
            forall|x: usize| #[trigger] final(self)@.has_vertex(x) == old(self)@.has_vertex(x),
            forall|x: usize, y: usize| #[trigger]
                final(self)@.weight(x, y) == if old(self)@.joins(origin, destiny, x, y) {
                    None
                } else {
                    old(self)@.weight(x, y)
                },
    {
        proof {
            self@.lemma_has_edge(origin, destiny);
            self@.lemma_has_edge(destiny, origin);
        }
        remove_entry(self.adjacency_list[origin].as_mut().unwrap(), destiny);
        if !self.is_directed && origin != destiny {
            remove_entry(self.adjacency_list[destiny].as_mut().unwrap(), origin);
        }
        proof {
            assert(self@.slots =~= old(self)@.without_edge(origin, destiny).slots);
            old(self)@.lemma_without_edge(origin, destiny);
        }
    }
}

impl Default for Graph {
    /// An empty undirected graph.
    fn default() -> (g: Graph)
        ensures
            g.wf(),
            !g@.directed,
            g@.slots == Seq::<Option<Seq<Edge>>>::empty(),
    {
        Graph::new(false)
    }
}

} // verus!
