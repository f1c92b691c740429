//! The relationship mapper: symbols as graph nodes, every stated
//! relationship recorded, graph edges only between symbols it has seen.
//!
//! The directed graph itself lives in an outside graph structure and is
//! described through two names: the sequence of node weights in insertion
//! order (a node's index is its position) and the multiset of edges, each
//! a pair of endpoint indices with a weight.

use vstd::prelude::*;
use vstd::multiset::Multiset;
use crate::assoc::{lemma_stored_absent, lemma_stored_at, lemma_stored_push_other,
    lemma_stored_update_other, spec_stored};
use crate::text::str_eq;

verus! {

#[verifier::external_type_specification]
#[verifier::external_body]
#[verifier::reject_recursive_types(N)]
#[verifier::reject_recursive_types(E)]
#[verifier::reject_recursive_types(Ty)]
#[verifier::reject_recursive_types(Ix)]
pub struct ExGraph<N, E, Ty, Ix>(petgraph::graph::Graph<N, E, Ty, Ix>);

#[verifier::external_type_specification]
#[verifier::external_body]
pub struct ExDirected(petgraph::Directed);

/// The weights of a graph's nodes, in insertion order; a node's index is
/// its position here.
pub uninterp spec fn graph_node_seq(g: petgraph::graph::Graph<String, String>) -> Seq<Seq<char>>;

/// The edges of a graph: source index, target index, and edge weight.
pub uninterp spec fn graph_edge_multiset(g: petgraph::graph::Graph<String, String>) -> Multiset<
    (int, int, Seq<char>),
>;

/// Relies on `petgraph::graph::Graph::new`: an empty directed graph.
#[verifier::external_body]
fn graph_new() -> (r: petgraph::graph::Graph<String, String>)
    ensures
        graph_node_seq(r) == Seq::<Seq<char>>::empty(),
        graph_edge_multiset(r) == Multiset::<(int, int, Seq<char>)>::empty(),
{
    petgraph::graph::Graph::new()
}

/// Relies on `petgraph::graph::Graph::add_node`: appends one node and
/// returns its index, which without removals is the node count before the
/// call; panics only when the index type is exhausted.
#[verifier::external_body]
fn graph_add_node(g: &mut petgraph::graph::Graph<String, String>, weight: String) -> (r: usize)
    requires
        graph_node_seq(*old(g)).len() < 0xffff_fffe,
    ensures
        graph_node_seq(*final(g)) == graph_node_seq(*old(g)).push(weight@),
        graph_edge_multiset(*final(g)) == graph_edge_multiset(*old(g)),
        r == graph_node_seq(*old(g)).len(),
{
    g.add_node(weight).index()
}

/// Relies on `petgraph::graph::Graph::add_edge`: adds one directed edge;
/// panics when an endpoint does not exist or the index type is exhausted.
#[verifier::external_body]
fn graph_add_edge(g: &mut petgraph::graph::Graph<String, String>, a: usize, b: usize, weight: String)
    requires
        a < graph_node_seq(*old(g)).len(),
        b < graph_node_seq(*old(g)).len(),
        graph_edge_multiset(*old(g)).len() < 0xffff_fffe,
    ensures
        graph_edge_multiset(*final(g)) == graph_edge_multiset(*old(g)).insert(
            (a as int, b as int, weight@),
        ),
        graph_node_seq(*final(g)) == graph_node_seq(*old(g)),
{
    g.add_edge(
        petgraph::graph::NodeIndex::new(a),
        petgraph::graph::NodeIndex::new(b),
        weight,
    );
}

/// A directed, typed edge between two symbol ids, as the mapper records
/// it.  `strength` is a confidence in hundredths.
#[derive(Debug)]
pub struct Relationship {
    pub from: String,
    pub to: String,
    pub kind: String,
    pub strength: u32,
}

/// Maps symbol ids to graph nodes.  Every stated relationship is
/// recorded — an unresolved target is legal — and a graph edge is added
/// when both endpoints are symbols it has seen.
pub struct RelationshipMapper {
    graph: petgraph::graph::Graph<String, String>,
    relationships: Vec<Relationship>,
    node_indices: Vec<(String, usize)>,
}

impl RelationshipMapper {
    /// The symbol-to-index bindings, in insertion order.
    pub closed spec fn sym_entries(&self) -> Seq<(Seq<char>, int)> {
        self.node_indices@.map_values(|p: (String, usize)| (p.0@, p.1 as int))
    }

    /// The graph index bound to a symbol, if the symbol was added.
    pub open spec fn spec_index_of(&self, symbol: Seq<char>) -> Option<int> {
        spec_stored(self.sym_entries(), symbol)
    }

    /// The node weights of the underlying graph, in insertion order.
    pub closed spec fn spec_graph_nodes(&self) -> Seq<Seq<char>> {
        graph_node_seq(self.graph)
    }

    /// The edges of the underlying graph.
    pub closed spec fn spec_graph_edges(&self) -> Multiset<(int, int, Seq<char>)> {
        graph_edge_multiset(self.graph)
    }

    /// The recorded relationships: from, to, kind and strength.
    pub closed spec fn spec_relationships(&self) -> Seq<(Seq<char>, Seq<char>, Seq<char>, int)> {
        self.relationships@.map_values(
            |r: Relationship| (r.from@, r.to@, r.kind@, r.strength as int),
        )
    }

    /// Every recorded symbol binding points at the graph node that holds
    /// that symbol.
    pub open spec fn wf(&self) -> bool {
        forall|j: int|
            0 <= j < self.sym_entries().len() ==> 0 <= (#[trigger] self.sym_entries()[j]).1
                < self.spec_graph_nodes().len() && self.spec_graph_nodes()[self.sym_entries()[j].1]
                == self.sym_entries()[j].0
    }

    pub fn new() -> (r: Self)
        ensures
            r.wf(),
            r.sym_entries() == Seq::<(Seq<char>, int)>::empty(),
            r.spec_graph_nodes() == Seq::<Seq<char>>::empty(),
            r.spec_graph_edges() == Multiset::<(int, int, Seq<char>)>::empty(),
            r.spec_relationships() == Seq::<(Seq<char>, Seq<char>, Seq<char>, int)>::empty(),
    {
        let r = RelationshipMapper {
            graph: graph_new(),
            relationships: Vec::new(),
            node_indices: Vec::new(),
        };
        proof {
            assert(r.sym_entries() =~= Seq::<(Seq<char>, int)>::empty());
            assert(r.spec_relationships() =~= Seq::<(Seq<char>, Seq<char>, Seq<char>, int)>::empty());
        }
        r
    }

    /// Add one symbol: a new graph node holding it, and a binding from the
    /// symbol to that node, overwriting any earlier binding of the same
    /// symbol.
    pub fn add_symbol(&mut self, symbol: String)
        requires
            old(self).wf(),
            old(self).spec_graph_nodes().len() < 0xffff_fffe,
        ensures
            final(self).wf(),
            final(self).spec_graph_nodes() == old(self).spec_graph_nodes().push(symbol@),
            final(self).spec_index_of(symbol@) == Some(old(self).spec_graph_nodes().len() as int),
            forall|k2: Seq<char>|
                k2 != symbol@ ==> #[trigger] final(self).spec_index_of(k2)
                    == old(self).spec_index_of(k2),
            final(self).spec_graph_edges() == old(self).spec_graph_edges(),
            final(self).spec_relationships() == old(self).spec_relationships(),
    {
        let idx = graph_add_node(&mut self.graph, symbol.clone());
        let ghost prev = self.sym_entries();
        let ghost p = (symbol@, idx as int);
        match find_sym(&self.node_indices, symbol.as_str()) {
            Some(i) => {
                self.node_indices.remove(i);
                self.node_indices.insert(i, (symbol, idx));
                proof {
                    assert(self.sym_entries() =~= prev.update(i as int, p));
                    assert forall|j: int| 0 <= j < i implies (#[trigger] self.sym_entries()[j]).0
                        != p.0 by {
                        assert(prev[j].0 != p.0);
                    }
                    lemma_stored_at(self.sym_entries(), p.0, i as int);
                    assert forall|k2: Seq<char>| k2 != p.0 implies #[trigger] spec_stored(
                        self.sym_entries(),
                        k2,
                    ) == spec_stored(prev, k2) by {
                        lemma_stored_update_other(prev, i as int, p, k2);
                    }
                }
            },
            None => {
                self.node_indices.push((symbol, idx));
                proof {
                    assert(self.sym_entries() =~= prev.push(p));
                    assert forall|j: int| 0 <= j < prev.len() implies (#[trigger] self
                        .sym_entries()[j]).0 != p.0 by {
                        assert(prev[j].0 != p.0);
                    }
                    assert(self.sym_entries()[prev.len() as int] == p);
                    lemma_stored_at(self.sym_entries(), p.0, prev.len() as int);
                    assert forall|k2: Seq<char>| k2 != p.0 implies #[trigger] spec_stored(
                        self.sym_entries(),
                        k2,
                    ) == spec_stored(prev, k2) by {
                        lemma_stored_push_other(prev, p, k2);
                    }
                }
            },
        }
        proof {
            assert(self.spec_relationships() =~= old(self).spec_relationships());
        }
    }

    /// Record an edge: always one relationship entry — a `to` that names
    /// a symbol never added is a legal, unresolved reference and is kept —
    /// and, when both endpoints were added as symbols, one graph edge
    /// between their nodes.
    pub fn add_relationship(&mut self, from: String, to: String, kind: String, strength: u32)
        requires
            old(self).wf(),
            old(self).spec_graph_edges().len() < 0xffff_fffe,
        ensures
            final(self).wf(),
            final(self).spec_relationships() == old(self).spec_relationships().push(
                ((from@, to@, kind@, strength as int)),
            ),
            match (old(self).spec_index_of(from@), old(self).spec_index_of(to@)) {
                (Some(a), Some(b)) => final(self).spec_graph_edges() == old(
                    self,
                ).spec_graph_edges().insert(((a, b, kind@))),
                _ => final(self).spec_graph_edges() == old(self).spec_graph_edges(),
            },
            final(self).spec_graph_nodes() == old(self).spec_graph_nodes(),
            final(self).sym_entries() == old(self).sym_entries(),
    {
        let from_idx = match find_sym(&self.node_indices, from.as_str()) {
            Some(i) => {
                proof {
                    lemma_stored_at(self.sym_entries(), from@, i as int);
                }
                Some(self.node_indices[i].1)
            },
            None => {
                proof {
                    lemma_stored_absent(self.sym_entries(), from@);
                }
                None
            },
        };
        let to_idx = match find_sym(&self.node_indices, to.as_str()) {
            Some(i) => {
                proof {
                    lemma_stored_at(self.sym_entries(), to@, i as int);
                }
                Some(self.node_indices[i].1)
            },
            None => {
                proof {
                    lemma_stored_absent(self.sym_entries(), to@);
                }
                None
            },
        };
        match (from_idx, to_idx) {
            (Some(a), Some(b)) => {
                graph_add_edge(&mut self.graph, a, b, kind.clone());
            },
            _ => {},
        }
        self.relationships.push(Relationship { from, to, kind, strength });
        proof {
            assert(self.spec_relationships() =~= old(self).spec_relationships().push(
                (self.relationships@.last().from@, self.relationships@.last().to@,
                self.relationships@.last().kind@, self.relationships@.last().strength as int),
            ));
        }
    }

    /// The recorded relationships.
    pub fn get_relationships(&self) -> (r: &Vec<Relationship>)
        ensures
            r@.map_values(|x: Relationship| (x.from@, x.to@, x.kind@, x.strength as int))
                == self.spec_relationships(),
    {
        &self.relationships
    }
}

/// The index of the first binding of `key`, if any.
fn find_sym(v: &Vec<(String, usize)>, key: &str) -> (r: Option<usize>)
    ensures
        match r {
            Some(i) => i < v@.len() && v@[i as int].0@ == key@ && forall|j: int|
                0 <= j < i ==> (#[trigger] v@[j]).0@ != key@,
            None => forall|j: int| 0 <= j < v@.len() ==> (#[trigger] v@[j]).0@ != key@,
        },
{
    let n = v.len();
    for i in 0..n
        invariant
            n == v@.len(),
            forall|j: int| 0 <= j < i ==> (#[trigger] v@[j]).0@ != key@,
    {
        if str_eq(v[i].0.as_str(), key) {
            return Some(i);
        }
    }
    None
}

} // verus!
