//! The knowledge graph: extracted symbols plus the typed, weighted edges
//! between symbol ids, and the second walk that finds those edges.
//!
//! Call edges resolve their source endpoint by walking ancestor indices
//! upward to the nearest enclosing function or class definition; the target
//! id is built the same way a declaration's id would be, so an edge may
//! legally point at a symbol that is not in the current graph (an external,
//! unresolved reference).  Self-loops are legal: a recursive call yields an
//! edge from a symbol to itself.

use vstd::prelude::*;
use crate::ast::{Ast, AstNode, node_wf_at};
use crate::symbols::{make_id, name_or_unknown, spec_id};
use vstd::string::StringExecFns;
use crate::text::{spec_starts_with, str_eq, str_starts_with};

verus! {

/// A directed, typed edge between two symbol ids.  `strength` is a
/// confidence in hundredths; structural edges always carry 100.
#[derive(Debug)]
pub struct Relationship {
    pub from: String,
    pub to: String,
    pub kind: String,
    pub strength: u32,
}

/// The mathematical shadow of a `Relationship`.
pub ghost struct RelationshipModel {
    pub from: Seq<char>,
    pub to: Seq<char>,
    pub kind: Seq<char>,
    pub strength: int,
}

impl View for Relationship {
    type V = RelationshipModel;

    open spec fn view(&self) -> RelationshipModel {
        RelationshipModel {
            from: self.from@,
            to: self.to@,
            kind: self.kind@,
            strength: self.strength as int,
        }
    }
}

/// The models of a list of relationships.
pub open spec fn view_rels(s: Seq<Relationship>) -> Seq<RelationshipModel> {
    s.map_values(|r: Relationship| r@)
}

/// A grammar kind that can enclose a call: a function or class definition.
pub open spec fn is_definition_kind(k: Seq<char>) -> bool {
    k == "function_definition"@ || k == "class_definition"@
}

/// The nearest ancestor of node `i` that is a function or class
/// definition, found by walking parent indices upward.
pub open spec fn spec_enclosing(nodes: Seq<AstNode>, i: int) -> Option<int>
    decreases i,
{
    if 0 <= i < nodes.len() {
        match nodes[i].parent {
            Some(p) => if p < i {
                if is_definition_kind(nodes[p as int].kind@) {
                    Some(p as int)
                } else {
                    spec_enclosing(nodes, p as int)
                }
            } else {
                None
            },
            None => None,
        }
    } else {
        None
    }
}

/// The edges node `i` contributes: one `calls` edge when it is a call
/// expression with a callee child and an enclosing definition, or one
/// `inherits` edge when it is a class definition with a superclass.
pub open spec fn spec_edges_of(nodes: Seq<AstNode>, path: Seq<char>, i: int) -> Seq<
    RelationshipModel,
> {
    if nodes[i].kind@ == "call"@ {
        if nodes[i].children@.len() > 0 {
            match spec_enclosing(nodes, i) {
                Some(j) => seq![
                    (RelationshipModel {
                        from: spec_id(path, name_or_unknown(nodes[j])),
                        to: spec_id(path, nodes[nodes[i].children@[0] as int].text@),
                        kind: "calls"@,
                        strength: 100,
                    }),
                ],
                None => Seq::empty(),
            }
        } else {
            Seq::empty()
        }
    } else if nodes[i].kind@ == "class_definition"@ {
        match nodes[i].superclass {
            Some(s) => seq![
                (RelationshipModel {
                    from: spec_id(path, name_or_unknown(nodes[i])),
                    to: spec_id(path, s@),
                    kind: "inherits"@,
                    strength: 100,
                }),
            ],
            None => Seq::empty(),
        }
    } else {
        Seq::empty()
    }
}

/// The edges of the first `n` nodes, in arena order.
pub open spec fn spec_rels_upto(nodes: Seq<AstNode>, path: Seq<char>, n: int) -> Seq<
    RelationshipModel,
>
    decreases n,
{
    if n <= 0 {
        Seq::empty()
    } else {
        spec_rels_upto(nodes, path, n - 1) + spec_edges_of(nodes, path, n - 1)
    }
}

/// The full edge set of one parsed file.
pub open spec fn spec_relationships(nodes: Seq<AstNode>, path: Seq<char>) -> Seq<
    RelationshipModel,
> {
    spec_rels_upto(nodes, path, nodes.len() as int)
}

/// An edge recorded for the file at `path`: its source id starts with the
/// path followed by `::`, as every id built for that file does.
pub open spec fn edge_of_file(r: RelationshipModel, path: Seq<char>) -> bool {
    spec_starts_with(r.from, path + "::"@)
}

/// The edges that survive replacing `path`'s edge set: those of other
/// files, in their original order.
pub open spec fn spec_drop_file_edges(rels: Seq<RelationshipModel>, path: Seq<char>) -> Seq<
    RelationshipModel,
>
    decreases rels.len(),
{
    if rels.len() == 0 {
        Seq::empty()
    } else {
        spec_drop_file_edges(rels.drop_last(), path) + (if edge_of_file(rels.last(), path) {
            Seq::empty()
        } else {
            seq![rels.last()]
        })
    }
}

/// Every id built for a file starts with the file's path and `::`.
pub proof fn lemma_id_has_file_prefix(path: Seq<char>, name: Seq<char>)
    ensures
        spec_starts_with(spec_id(path, name), path + "::"@),
{
    let p = path + "::"@;
    assert((p + name).subrange(0, p.len() as int) =~= p);
}

proof fn lemma_drop_single(r: RelationshipModel, path: Seq<char>)
    ensures
        spec_drop_file_edges(seq![r], path) == if edge_of_file(r, path) {
            Seq::<RelationshipModel>::empty()
        } else {
            seq![r]
        },
{
    let t = seq![r];
    assert(t.last() == r);
    assert(t.drop_last() =~= Seq::<RelationshipModel>::empty());
    assert(spec_drop_file_edges(Seq::<RelationshipModel>::empty(), path) =~= Seq::<
        RelationshipModel,
    >::empty());
    if edge_of_file(r, path) {
        assert(spec_drop_file_edges(t, path) =~= Seq::<RelationshipModel>::empty());
    } else {
        assert(spec_drop_file_edges(t, path) =~= t);
    }
}

proof fn lemma_drop_concat(a: Seq<RelationshipModel>, b: Seq<RelationshipModel>, path: Seq<char>)
    ensures
        spec_drop_file_edges(a + b, path) == spec_drop_file_edges(a, path)
            + spec_drop_file_edges(b, path),
    decreases b.len(),
{
    if b.len() == 0 {
        assert(a + b =~= a);
        assert(spec_drop_file_edges(a, path) + spec_drop_file_edges(b, path)
            =~= spec_drop_file_edges(a, path));
    } else {
        assert((a + b).drop_last() =~= a + b.drop_last());
        assert((a + b).last() == b.last());
        lemma_drop_concat(a, b.drop_last(), path);
        assert(spec_drop_file_edges(a + b, path) =~= spec_drop_file_edges(a, path)
            + spec_drop_file_edges(b, path));
    }
}

proof fn lemma_drop_idempotent(rels: Seq<RelationshipModel>, path: Seq<char>)
    ensures
        spec_drop_file_edges(spec_drop_file_edges(rels, path), path) == spec_drop_file_edges(
            rels,
            path,
        ),
    decreases rels.len(),
{
    if rels.len() > 0 {
        let dl = rels.drop_last();
        lemma_drop_idempotent(dl, path);
        if edge_of_file(rels.last(), path) {
            assert(spec_drop_file_edges(dl, path) + Seq::<RelationshipModel>::empty()
                =~= spec_drop_file_edges(dl, path));
            assert(spec_drop_file_edges(rels, path) == spec_drop_file_edges(dl, path));
        } else {
            let t = seq![rels.last()];
            lemma_drop_single(rels.last(), path);
            lemma_drop_concat(spec_drop_file_edges(dl, path), t, path);
            assert(spec_drop_file_edges(spec_drop_file_edges(rels, path), path)
                =~= spec_drop_file_edges(rels, path));
        }
    }
}

proof fn lemma_file_edges_all_dropped(nodes: Seq<AstNode>, path: Seq<char>, n: int)
    ensures
        spec_drop_file_edges(spec_rels_upto(nodes, path, n), path) == Seq::<
            RelationshipModel,
        >::empty(),
    decreases n,
{
    if n > 0 {
        lemma_file_edges_all_dropped(nodes, path, n - 1);
        let e = spec_edges_of(nodes, path, n - 1);
        lemma_drop_concat(spec_rels_upto(nodes, path, n - 1), e, path);
        if e.len() > 0 {
            assert(e.len() == 1);
            match spec_enclosing(nodes, n - 1) {
                Some(j) => {
                    lemma_id_has_file_prefix(path, name_or_unknown(nodes[j]));
                },
                None => {},
            }
            lemma_id_has_file_prefix(path, name_or_unknown(nodes[n - 1]));
            assert(edge_of_file(e[0], path));
            assert(e =~= seq![e[0]]);
            lemma_drop_single(e[0], path);
        }
        assert(spec_drop_file_edges(spec_rels_upto(nodes, path, n), path) =~= Seq::<
            RelationshipModel,
        >::empty());
    }
}

/// Re-mapping a file over the identical arena replaces its edge set with
/// the same set: a second pass over an unmodified file leaves the graph's
/// edges exactly as the first pass did, so edges are never duplicated.
pub proof fn lemma_remap_idempotent(
    rels: Seq<RelationshipModel>,
    nodes: Seq<AstNode>,
    path: Seq<char>,
)
    ensures
        spec_drop_file_edges(
            spec_drop_file_edges(rels, path) + spec_relationships(nodes, path),
            path,
        ) + spec_relationships(nodes, path) == spec_drop_file_edges(rels, path)
            + spec_relationships(nodes, path),
{
    lemma_drop_concat(spec_drop_file_edges(rels, path), spec_relationships(nodes, path), path);
    lemma_drop_idempotent(rels, path);
    lemma_file_edges_all_dropped(nodes, path, nodes.len() as int);
    assert(spec_drop_file_edges(
        spec_drop_file_edges(rels, path) + spec_relationships(nodes, path),
        path,
    ) + spec_relationships(nodes, path) =~= spec_drop_file_edges(rels, path)
        + spec_relationships(nodes, path));
}

/// The aggregate of one build: the ordered symbols and the edge list,
/// owned by the pipeline and handed to persistence as a read-only snapshot.
pub struct KnowledgeGraph {
    nodes: Vec<SymbolNode>,
    relationships: Vec<Relationship>,
}

/// A symbol as the graph stores it: the same fields a Symbol carries.
#[derive(Debug)]
pub struct SymbolNode {
    pub id: String,
    pub name: String,
    pub kind: String,
    pub file_path: String,
    pub start_line: usize,
    pub end_line: usize,
    pub scope: String,
    pub documentation: Option<String>,
    pub signature: Option<String>,
}

impl View for SymbolNode {
    type V = crate::symbols::SymbolModel;

    open spec fn view(&self) -> crate::symbols::SymbolModel {
        crate::symbols::SymbolModel {
            id: self.id@,
            name: self.name@,
            kind: self.kind@,
            file_path: self.file_path@,
            start_line: self.start_line as int,
            end_line: self.end_line as int,
            scope: self.scope@,
            documentation: match self.documentation {
                Some(d) => Some(d@),
                None => None,
            },
            signature: match self.signature {
                Some(s) => Some(s@),
                None => None,
            },
        }
    }
}

/// The models of a list of stored symbols.
pub open spec fn view_sym_nodes(s: Seq<SymbolNode>) -> Seq<crate::symbols::SymbolModel> {
    s.map_values(|x: SymbolNode| x@)
}

/// Graph metrics, in hundredths.  No metric is computed yet: every value
/// is reported as zero.
#[derive(Debug)]
pub struct Metrics {
    pub coupling: u32,
    pub complexity: u32,
    pub centrality: u32,
}

impl Default for Metrics {
    fn default() -> (r: Self)
        ensures
            r.coupling == 0 && r.complexity == 0 && r.centrality == 0,
    {
        Metrics { coupling: 0, complexity: 0, centrality: 0 }
    }
}

impl KnowledgeGraph {
    /// The symbols the graph holds, in insertion order.
    pub closed spec fn spec_nodes(&self) -> Seq<SymbolNode> {
        self.nodes@
    }

    /// The edges the graph holds, in insertion order.
    pub closed spec fn spec_relationships(&self) -> Seq<RelationshipModel> {
        view_rels(self.relationships@)
    }

    pub fn new() -> (r: Self)
        ensures
            r.spec_nodes() == Seq::<SymbolNode>::empty(),
            r.spec_relationships() == Seq::<RelationshipModel>::empty(),
    {
        let r = KnowledgeGraph { nodes: Vec::new(), relationships: Vec::new() };
        proof {
            assert(r.spec_relationships() =~= Seq::<RelationshipModel>::empty());
        }
        r
    }

    pub fn add_node(&mut self, node: SymbolNode)
        ensures
            final(self).spec_nodes() == old(self).spec_nodes().push(node),
            final(self).spec_relationships() == old(self).spec_relationships(),
    {
        self.nodes.push(node);
    }

    pub fn add_relationship(&mut self, from: String, to: String, kind: String, strength: u32)
        ensures
            final(self).spec_relationships() == old(self).spec_relationships().push(
                (RelationshipModel {
                    from: from@,
                    to: to@,
                    kind: kind@,
                    strength: strength as int,
                }),
            ),
            final(self).spec_nodes() == old(self).spec_nodes(),
    {
        let ghost prev = self.relationships@;
        self.relationships.push(Relationship { from, to, kind, strength });
        proof {
            assert(view_rels(self.relationships@) =~= view_rels(prev).push(
                self.relationships@.last()@,
            ));
        }
    }

    /// The stored relationships, as the persistence collaborator reads
    /// them.
    pub fn get_relationships(&self) -> (r: &Vec<Relationship>)
        ensures
            view_rels(r@) == self.spec_relationships(),
    {
        &self.relationships
    }

    /// The stored symbols.
    pub fn get_nodes(&self) -> (r: &Vec<SymbolNode>)
        ensures
            r@ == self.spec_nodes(),
    {
        &self.nodes
    }

    /// Walk every node of a parsed file and record its call and
    /// inheritance edges, in arena order, replacing the file's previous
    /// edge set whole: every edge recorded for this file earlier is
    /// dropped first, so re-processing a file never duplicates or
    /// leaves stale edges.
    pub fn extract_relationships_from_ast(&mut self, ast: &Ast, file_path: &str)
        requires
            ast.wf(),
        ensures
            final(self).spec_relationships() == spec_drop_file_edges(
                old(self).spec_relationships(),
                file_path@,
            ) + spec_relationships(ast.nodes@, file_path@),
            final(self).spec_nodes() == old(self).spec_nodes(),
    {
        let mut prefix: String = file_path.to_owned();
        prefix.append("::");
        let mut kept: Vec<Relationship> = Vec::new();
        let m = self.relationships.len();
        let ghost olds = view_rels(self.relationships@);
        for i in 0..m
            invariant
                m == self.relationships@.len(),
                olds == view_rels(self.relationships@),
                prefix@ == file_path@ + "::"@,
                view_rels(kept@) == spec_drop_file_edges(olds.take(i as int), file_path@),
        {
            proof {
                assert(olds.take(i + 1).drop_last() =~= olds.take(i as int));
                assert(olds.take(i + 1).last() == olds[i as int]);
            }
            let r = &self.relationships[i];
            if !str_starts_with(r.from.as_str(), prefix.as_str()) {
                let ghost prev = kept@;
                kept.push(
                    Relationship {
                        from: r.from.clone(),
                        to: r.to.clone(),
                        kind: r.kind.clone(),
                        strength: r.strength,
                    },
                );
                proof {
                    assert(view_rels(kept@) =~= view_rels(prev).push(olds[i as int]));
                }
            } else {
                proof {
                    assert(spec_drop_file_edges(olds.take(i + 1), file_path@)
                        =~= spec_drop_file_edges(olds.take(i as int), file_path@));
                }
            }
        }
        proof {
            assert(olds.take(m as int) =~= olds);
        }
        self.relationships = kept;
        let ghost base = spec_drop_file_edges(old(self).spec_relationships(), file_path@);
        let n = ast.nodes.len();
        for i in 0..n
            invariant
                n == ast.nodes@.len(),
                ast.wf(),
                self.spec_nodes() == old(self).spec_nodes(),
                self.spec_relationships() == base + spec_rels_upto(
                    ast.nodes@,
                    file_path@,
                    i as int,
                ),
                base == spec_drop_file_edges(old(self).spec_relationships(), file_path@),
        {
            let node = &ast.nodes[i];
            if str_eq(node.kind.as_str(), "call") {
                if node.children.len() > 0 {
                    let c = node.children[0];
                    proof {
                        assert(node_wf_at(ast.nodes@, i as int));
                    }
                    let callee: String = ast.nodes[c].text.clone();
                    match find_enclosing(ast, i) {
                        Some(j) => {
                            let parent_name: String = match &ast.nodes[j].name {
                                Some(s) => s.clone(),
                                None => "<unknown>".to_owned(),
                            };
                            let from = make_id(file_path, parent_name.as_str());
                            let to = make_id(file_path, callee.as_str());
                            self.add_relationship(from, to, "calls".to_owned(), 100);
                            proof {
                                assert(self.spec_relationships() =~= base + spec_rels_upto(
                                    ast.nodes@,
                                    file_path@,
                                    i + 1,
                                ));
                            }
                        },
                        None => {
                            proof {
                                assert(self.spec_relationships() =~= base + spec_rels_upto(
                                    ast.nodes@,
                                    file_path@,
                                    i + 1,
                                ));
                            }
                        },
                    }
                } else {
                    proof {
                        assert(self.spec_relationships() =~= base + spec_rels_upto(
                            ast.nodes@,
                            file_path@,
                            i + 1,
                        ));
                    }
                }
            } else if str_eq(node.kind.as_str(), "class_definition") {
                match &node.superclass {
                    Some(sup) => {
                        let class_name: String = match &node.name {
                            Some(s) => s.clone(),
                            None => "<unknown>".to_owned(),
                        };
                        let from = make_id(file_path, class_name.as_str());
                        let to = make_id(file_path, sup.as_str());
                        self.add_relationship(from, to, "inherits".to_owned(), 100);
                        proof {
                            assert(self.spec_relationships() =~= base + spec_rels_upto(
                                ast.nodes@,
                                file_path@,
                                i + 1,
                            ));
                        }
                    },
                    None => {
                        proof {
                            assert(self.spec_relationships() =~= base + spec_rels_upto(
                                ast.nodes@,
                                file_path@,
                                i + 1,
                            ));
                        }
                    },
                }
            } else {
                proof {
                    assert(self.spec_relationships() =~= base + spec_rels_upto(
                        ast.nodes@,
                        file_path@,
                        i + 1,
                    ));
                }
            }
        }
    }

    /// Graph metrics; every metric is currently reported as zero.
    pub fn calculate_metrics(&self) -> (r: Metrics)
        ensures
            r.coupling == 0 && r.complexity == 0 && r.centrality == 0,
    {
        Metrics::default()
    }
}

/// The nearest enclosing function or class definition of node `i`, by
/// walking parent indices upward.
fn find_enclosing(ast: &Ast, i: usize) -> (r: Option<usize>)
    requires
        ast.wf(),
        i < ast.nodes@.len(),
    ensures
        match r {
            Some(j) => spec_enclosing(ast.nodes@, i as int) == Some(j as int) && j
                < ast.nodes@.len(),
            None => spec_enclosing(ast.nodes@, i as int) is None,
        },
{
    let mut cur: usize = i;
    loop
        invariant
            ast.wf(),
            cur < ast.nodes@.len(),
            spec_enclosing(ast.nodes@, i as int) == spec_enclosing(ast.nodes@, cur as int),
        decreases cur,
    {
        proof {
            assert(node_wf_at(ast.nodes@, cur as int));
        }
        match ast.nodes[cur].parent {
            Some(p) => {
                if str_eq(ast.nodes[p].kind.as_str(), "function_definition") || str_eq(
                    ast.nodes[p].kind.as_str(),
                    "class_definition",
                ) {
                    return Some(p);
                }
                cur = p;
            },
            None => {
                return None;
            },
        }
    }
}

/// A self-referential call: when the callee's text equals the enclosing
/// definition's name, the emitted `calls` edge runs from a symbol id to
/// itself.
pub proof fn lemma_recursive_call_self_loop(nodes: Seq<AstNode>, path: Seq<char>, i: int)
    requires
        0 <= i < nodes.len(),
        nodes[i].kind@ == "call"@,
        nodes[i].children@.len() > 0,
        spec_enclosing(nodes, i) is Some,
        name_or_unknown(nodes[spec_enclosing(nodes, i)->Some_0]) == nodes[nodes[i].children@[0] as int].text@,
    ensures
        spec_edges_of(nodes, path, i).len() == 1,
        spec_edges_of(nodes, path, i)[0].kind == "calls"@,
        spec_edges_of(nodes, path, i)[0].from == spec_edges_of(nodes, path, i)[0].to,
{
}

} // verus!
