//! Language dispatch and parsing.
//!
//! A file's extension selects exactly one of four grammars; an extension
//! that maps to none fails with an `Unsupported file type` transport error
//! that is local to the file and never aborts a build.  The parser is
//! created and configured inside one trusted call, so the parse outcome is
//! a function of the grammar and the source text alone.
//!
//! The syntax trees themselves are opaque to verification: every access to
//! them goes through a trusted wrapper, and the verified conversion below
//! turns a tree into the crate's own arena model, whose well-formedness is
//! proved and carries the later walks.

use vstd::prelude::*;
use vstd::string::StrSliceExecFns;
use crate::ast::{Ast, AstNode, node_wf_at};
use crate::error::{McpError, McpResult};
use crate::text::str_eq;

verus! {

#[verifier::external_type_specification]
#[verifier::external_body]
pub struct ExLanguage(tree_sitter::Language);

#[verifier::external_type_specification]
#[verifier::external_body]
pub struct ExParser(tree_sitter::Parser);

#[verifier::external_type_specification]
#[verifier::external_body]
pub struct ExTree(tree_sitter::Tree);

#[verifier::external_type_specification]
#[verifier::external_body]
pub struct ExNode<'a>(tree_sitter::Node<'a>);

/// Relies on `tree_sitter::Tree::root_node`.
#[verifier::external_body]
fn tree_root<'t>(t: &'t tree_sitter::Tree) -> tree_sitter::Node<'t> {
    t.root_node()
}

/// Relies on `tree_sitter::Node::kind`: the grammar's kind string.
#[verifier::external_body]
fn node_kind(n: &tree_sitter::Node) -> String {
    n.kind().to_string()
}

/// Relies on `tree_sitter::Node::child_count`.
#[verifier::external_body]
fn node_child_count(n: &tree_sitter::Node) -> usize {
    n.child_count() as usize
}

/// Relies on `tree_sitter::Node::child`.
#[verifier::external_body]
fn node_child<'t>(n: &tree_sitter::Node<'t>, i: usize) -> Option<tree_sitter::Node<'t>> {
    n.child(i as u32)
}

/// Relies on `tree_sitter::Node::named_child`.
#[verifier::external_body]
fn node_named_child<'t>(n: &tree_sitter::Node<'t>, i: usize) -> Option<tree_sitter::Node<'t>> {
    n.named_child(i as u32)
}

/// Relies on `tree_sitter::Node::child_by_field_name`.
#[verifier::external_body]
fn node_child_by_field_name<'t>(n: &tree_sitter::Node<'t>, field: &str) -> Option<
    tree_sitter::Node<'t>,
> {
    n.child_by_field_name(field)
}

/// Relies on `tree_sitter::Node::start_position`: the 0-based first row.
#[verifier::external_body]
fn node_start_row(n: &tree_sitter::Node) -> usize {
    n.start_position().row
}

/// Relies on `tree_sitter::Node::end_position`: the 0-based last row.
#[verifier::external_body]
fn node_end_row(n: &tree_sitter::Node) -> usize {
    n.end_position().row
}

/// Relies on `tree_sitter::Node::utf8_text`, guarded to be total: a span
/// that does not fit the given source, or that is not valid UTF-8, yields
/// the empty string.
#[verifier::external_body]
fn node_text(n: &tree_sitter::Node, source: &str) -> String {
    let bytes = source.as_bytes();
    if n.start_byte() <= n.end_byte() && n.end_byte() <= bytes.len() {
        n.utf8_text(bytes).unwrap_or("").to_string()
    } else {
        String::new()
    }
}

/// Whether the grammar of language `l` accepts `source`: the outcome of a
/// parse under a freshly configured parser, which depends on the grammar
/// and the source alone.
pub uninterp spec fn parse_ok(l: Lang, source: Seq<char>) -> bool;

/// Relies on `tree_sitter::Parser::new`, `Parser::set_language` and
/// `Parser::parse`, with the grammar crates' `LANGUAGE` constants: the
/// parser is created, configured for `l` and run in this one body, with no
/// old tree, timeout or cancellation, so the outcome is a function of the
/// grammar and the source alone.
#[verifier::external_body]
fn parse_with_language(l: Lang, source: &str) -> (r: Option<tree_sitter::Tree>)
    ensures
        r is Some <==> parse_ok(l, source@),
{
    let language = match l {
        Lang::TypeScript => tree_sitter::Language::new(tree_sitter_typescript::LANGUAGE_TYPESCRIPT),
        Lang::JavaScript => tree_sitter::Language::new(tree_sitter_javascript::LANGUAGE),
        Lang::Python => tree_sitter::Language::new(tree_sitter_python::LANGUAGE),
        Lang::Rust => tree_sitter::Language::new(tree_sitter_rust::LANGUAGE),
    };
    let mut parser = tree_sitter::Parser::new();
    if parser.set_language(&language).is_err() {
        return None;
    }
    parser.parse(source, None)
}

/// The four grammars the pipeline can dispatch to.
#[derive(Copy, Clone, Debug, PartialEq, Eq, Structural)]
pub enum Lang {
    TypeScript,
    JavaScript,
    Python,
    Rust,
}

/// The largest index `j <= i` with `s[j] == c`, or `-1` when none exists.
pub open spec fn spec_rfind(s: Seq<char>, c: char, i: int) -> int
    decreases i + 1,
{
    if i < 0 || i >= s.len() {
        -1
    } else if s[i] == c {
        i
    } else {
        spec_rfind(s, c, i - 1)
    }
}

/// The extension of a path: what follows the last `.` of the final
/// `/`-separated segment, unless that dot starts the segment.
pub open spec fn spec_extension(s: Seq<char>) -> Option<Seq<char>> {
    let sl = spec_rfind(s, '/', s.len() - 1);
    let d = spec_rfind(s, '.', s.len() - 1);
    if d > sl + 1 {
        Some(s.subrange(d + 1, s.len() as int))
    } else {
        None
    }
}

/// The grammar an extension maps to, if any.
pub open spec fn spec_lang_of_ext(e: Seq<char>) -> Option<Lang> {
    if e == "ts"@ {
        Some(Lang::TypeScript)
    } else if e == "js"@ {
        Some(Lang::JavaScript)
    } else if e == "py"@ {
        Some(Lang::Python)
    } else if e == "rs"@ {
        Some(Lang::Rust)
    } else {
        None
    }
}

/// The grammar a path's extension maps to, if any.
pub open spec fn spec_lang_of_path(p: Seq<char>) -> Option<Lang> {
    match spec_extension(p) {
        Some(e) => spec_lang_of_ext(e),
        None => None,
    }
}

proof fn lemma_rfind_bounds(s: Seq<char>, c: char, i: int)
    ensures
        -1 <= spec_rfind(s, c, i) < s.len(),
        spec_rfind(s, c, i) == -1 || spec_rfind(s, c, i) <= i,
    decreases i + 1,
{
    if !(i < 0 || i >= s.len()) && s[i] != c {
        lemma_rfind_bounds(s, c, i - 1);
    }
}

/// The largest index of `c` in `s`, if any.
fn rfind_char(s: &str, c: char) -> (r: Option<usize>)
    ensures
        match r {
            Some(i) => i < s@.len() && spec_rfind(s@, c, s@.len() - 1) == i,
            None => spec_rfind(s@, c, s@.len() - 1) == -1,
        },
{
    let n = s.unicode_len();
    let mut i: usize = n;
    while i > 0
        invariant
            n == s@.len(),
            i <= n,
            spec_rfind(s@, c, n - 1) == spec_rfind(s@, c, i - 1),
        decreases i,
    {
        let j = i - 1;
        if s.get_char(j) == c {
            return Some(j);
        }
        i = j;
    }
    None
}

/// The extension of a path, as `spec_extension` defines it.
pub fn extension_of(path: &str) -> (r: Option<String>)
    ensures
        match spec_extension(path@) {
            Some(e) => r matches Some(s) && s@ == e,
            None => r is None,
        },
{
    let n = path.unicode_len();
    proof {
        lemma_rfind_bounds(path@, '.', path@.len() - 1);
        lemma_rfind_bounds(path@, '/', path@.len() - 1);
    }
    let d = match rfind_char(path, '.') {
        Some(d) => d,
        None => {
            return None;
        },
    };
    let after_slash = match rfind_char(path, '/') {
        Some(sl) => d > sl + 1,
        None => d > 0,
    };
    if after_slash {
        let seg = path.substring_char(d + 1, n);
        Some(seg.to_owned())
    } else {
        None
    }
}

/// The grammar an extension maps to, if any.
pub fn lang_of_ext(e: &str) -> (r: Option<Lang>)
    ensures
        r == spec_lang_of_ext(e@),
{
    if str_eq(e, "ts") {
        Some(Lang::TypeScript)
    } else if str_eq(e, "js") {
        Some(Lang::JavaScript)
    } else if str_eq(e, "py") {
        Some(Lang::Python)
    } else if str_eq(e, "rs") {
        Some(Lang::Rust)
    } else {
        None
    }
}

/// Dispatches a file to the grammar its extension selects and parses it.
pub struct CodeParser {}

impl CodeParser {
    pub fn new() -> Self {
        CodeParser {  }
    }

    /// Parse one file's source under the grammar its extension selects.
    ///
    /// An extension that maps to no grammar fails with a file-local
    /// transport error; a grammar that does not accept the source reports
    /// a dispatch error, likewise local to this file.  For a supported
    /// extension the call succeeds exactly when the grammar accepts the
    /// source.
    pub fn parse_file(&mut self, path: &str, source: &str) -> (r: McpResult<tree_sitter::Tree>)
        ensures
            spec_lang_of_path(path@) is None ==> (r matches Err(e) && e matches
                McpError::Transport(m) && m@ == "Unsupported file type"@),
            spec_lang_of_path(path@) matches Some(l) ==> {
                &&& (r is Ok <==> parse_ok(l, source@))
                &&& (r is Err ==> (r matches Err(e) && e matches McpError::Dispatch(m) && m@
                    == "Failed to parse file"@))
            },
    {
        let ext = match extension_of(path) {
            Some(e) => e,
            None => {
                return Err(McpError::Transport("Unsupported file type".to_owned()));
            },
        };
        let lang_kind = match lang_of_ext(ext.as_str()) {
            Some(l) => l,
            None => {
                return Err(McpError::Transport("Unsupported file type".to_owned()));
            },
        };
        match parse_with_language(lang_kind, source) {
            Some(tree) => Ok(tree),
            None => Err(McpError::Dispatch("Failed to parse file".to_owned())),
        }
    }
}

/// `line` bumped from a 0-based row to a 1-based line, saturating at the
/// machine limit.
fn to_line(row: usize) -> (r: usize)
    ensures
        r == if row < usize::MAX { row + 1 } else { row as int },
        1 <= r,
{
    if row < usize::MAX {
        row + 1
    } else {
        row
    }
}

/// Convert a parsed tree into the crate's arena model: an explicit
/// work-list walk that visits every node reachable from the root, parents
/// before children and children in source order, bounding its own work
/// instead of recursing to the tree's depth.
///
/// The walk converts at most `usize::MAX` nodes; a tree that large cannot
/// exist in one address space, so on real input the arena is complete.
pub fn tree_to_ast(tree: &tree_sitter::Tree, source: &str) -> (r: Ast)
    ensures
        r.wf(),
{
    let mut nodes: Vec<AstNode> = Vec::new();
    let mut stack: Vec<(tree_sitter::Node, Option<usize>)> = Vec::new();
    stack.push((tree_root(tree), None));
    let mut budget: usize = usize::MAX;
    while stack.len() > 0 && budget > 0
        invariant
            forall|e: int|
                0 <= e < stack@.len() ==> (match (#[trigger] stack@[e]).1 {
                    Some(p) => p < nodes@.len(),
                    None => true,
                }),
            forall|i: int| 0 <= i < nodes@.len() ==> #[trigger] node_wf_at(nodes@, i),
        decreases budget,
    {
        budget = budget - 1;
        let ghost st0 = stack@;
        let (ts, parent) = stack.pop().unwrap();
        proof {
            assert(st0[st0.len() - 1].1 == parent);
            assert(match parent {
                Some(p) => p < nodes@.len(),
                None => true,
            });
        }
        let name = match node_child_by_field_name(&ts, "name") {
            Some(c) => Some(node_text(&c, source)),
            None => None,
        };
        let superclass = match node_child_by_field_name(&ts, "superclass") {
            Some(c) => Some(node_text(&c, source)),
            None => match node_child_by_field_name(&ts, "superclasses") {
                Some(list) => match node_named_child(&list, 0) {
                    Some(first) => Some(node_text(&first, source)),
                    None => None,
                },
                None => None,
            },
        };
        let idx = nodes.len();
        let ghost pre = nodes@;
        let start_line = to_line(node_start_row(&ts));
        let end_row_line = to_line(node_end_row(&ts));
        let end_line = if end_row_line < start_line {
            start_line
        } else {
            end_row_line
        };
        nodes.push(
            AstNode {
                kind: node_kind(&ts),
                text: node_text(&ts, source),
                name,
                superclass,
                start_line,
                end_line,
                parent,
                children: Vec::new(),
            },
        );
        proof {
            assert forall|i: int| 0 <= i < nodes@.len() implies #[trigger] node_wf_at(
                nodes@,
                i,
            ) by {
                if i < idx {
                    assert(node_wf_at(pre, i));
                    assert(nodes@[i] == pre[i]);
                } else {
                    assert(nodes@[i].children@.len() == 0);
                }
            }
        }
        match parent {
            Some(p) => {
                let ghost before = nodes@;
                nodes[p].children.push(idx);
                proof {
                    assert forall|i: int| 0 <= i < nodes@.len() implies #[trigger] node_wf_at(
                        nodes@,
                        i,
                    ) by {
                        assert(node_wf_at(before, i));
                        if i == p {
                            assert(nodes@[i].children@.last() == idx);
                            assert(forall|j: int|
                                0 <= j < nodes@[i].children@.len() - 1
                                    ==> nodes@[i].children@[j] == before[i].children@[j]);
                        } else {
                            assert(nodes@[i] == before[i]);
                        }
                    }
                }
            },
            None => {},
        }
        let count = node_child_count(&ts);
        let mut k = count;
        while k > 0
            invariant
                idx < nodes@.len(),
                forall|e: int|
                    0 <= e < stack@.len() ==> (match (#[trigger] stack@[e]).1 {
                        Some(p) => p < nodes@.len(),
                        None => true,
                    }),
            decreases k,
        {
            k = k - 1;
            match node_child(&ts, k) {
                Some(child) => {
                    stack.push((child, Some(idx)));
                },
                None => {},
            }
        }
    }
    Ast { nodes }
}

} // verus!
