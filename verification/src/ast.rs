//! The uniform syntax-tree model that extraction and mapping walk.
//!
//! A parsed file is held as an arena: a vector of nodes in which every
//! parent stands before its children.  Each node carries, as plain values,
//! exactly what the walks read: its grammar kind, its source text, the text
//! of its `name` and `superclass` field children when present, its 1-based
//! line span, its parent's index and its children's indices.
//!
//! The arena order gives the walks a bound the grammars cannot: an ancestor
//! chain always moves to strictly smaller indices, so the
//! nearest-enclosing-definition walk terminates however deep the tree is,
//! and a full visit is a single pass over the vector.

use vstd::prelude::*;

verus! {

/// One node of a parsed syntax tree, reduced to the plain values the
/// analysis reads.
pub struct AstNode {
    /// The grammar's kind string for the node (`"function_definition"`, ...).
    pub kind: String,
    /// The node's own source text.
    pub text: String,
    /// The source text of the child under the grammar's `name` field.
    pub name: Option<String>,
    /// The source text of the child under the grammar's `superclass` field.
    pub superclass: Option<String>,
    /// First source line of the node, 1-based, inclusive.
    pub start_line: usize,
    /// Last source line of the node, 1-based, inclusive.
    pub end_line: usize,
    /// Arena index of the parent; `None` for the root.
    pub parent: Option<usize>,
    /// Arena indices of the children, in source order.
    pub children: Vec<usize>,
}

/// A parsed file: every node reachable from the root, parents before
/// children.
pub struct Ast {
    pub nodes: Vec<AstNode>,
}

impl Ast {
    /// Arena well-formedness: a parent index always precedes its node, and
    /// every child index stays inside the arena and after its parent.
    pub open spec fn wf(&self) -> bool {
        forall|i: int|
            0 <= i < self.nodes@.len() ==> #[trigger] node_wf_at(self.nodes@, i)
    }

    /// An empty arena, standing for a file with no syntax tree yet.
    pub fn new() -> (r: Self)
        ensures
            r.nodes@.len() == 0,
            r.wf(),
    {
        Ast { nodes: Vec::new() }
    }
}

/// Well-formedness of the node at index `i` of `nodes`: a parent index
/// precedes its node, children stay inside the arena after their parent,
/// and the 1-based line span is ordered.
pub open spec fn node_wf_at(nodes: Seq<AstNode>, i: int) -> bool {
    &&& (match nodes[i].parent {
        Some(p) => p < i,
        None => true,
    })
    &&& forall|j: int|
        0 <= j < nodes[i].children@.len() ==> i < #[trigger] nodes[i].children@[j] < nodes.len()
    &&& 1 <= nodes[i].start_line <= nodes[i].end_line
}

} // verus!
