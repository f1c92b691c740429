//! Symbol extraction: one full pass over a parsed file's nodes.
//!
//! Every node whose grammar kind matches one of the recognized declaration
//! shapes yields one Symbol.  Extraction never fails: a declaration without
//! a name is emitted under a literal placeholder name.

use vstd::prelude::*;
use vstd::string::{StrSliceExecFns, StringExecFns};
use crate::ast::{Ast, AstNode};
use crate::text::str_eq;

verus! {

/// A named, located code entity extracted from one file.
///
/// The `id` is derived from the file path and the name alone, so it is
/// stable across rebuilds of an unchanged file; symbols with duplicate
/// names in one file legally share an id.
#[derive(Debug)]
pub struct Symbol {
    pub id: String,
    pub name: String,
    pub kind: String,
    pub file_path: String,
    /// First line of the declaration, 1-based, inclusive.
    pub start_line: usize,
    /// Last line of the declaration, 1-based, inclusive.
    pub end_line: usize,
    /// A coarse grouping label read off the file path, not a resolved
    /// module identity: the second `/`-separated path segment.
    pub scope: String,
    pub documentation: Option<String>,
    pub signature: Option<String>,
}

/// The mathematical shadow of a `Symbol`.
pub ghost struct SymbolModel {
    pub id: Seq<char>,
    pub name: Seq<char>,
    pub kind: Seq<char>,
    pub file_path: Seq<char>,
    pub start_line: int,
    pub end_line: int,
    pub scope: Seq<char>,
    pub documentation: Option<Seq<char>>,
    pub signature: Option<Seq<char>>,
}

impl View for Symbol {
    type V = SymbolModel;

    open spec fn view(&self) -> SymbolModel {
        SymbolModel {
            id: self.id@,
            name: self.name@,
            kind: self.kind@,
            file_path: self.file_path@,
            start_line: self.start_line as int,
            end_line: self.end_line as int,
            scope: self.scope@,
            documentation: match self.documentation {
                Some(d) => Some(d@),
                None => None,
            },
            signature: match self.signature {
                Some(s) => Some(s@),
                None => None,
            },
        }
    }
}

/// A symbol's id: the file path and the name, joined by `::`.
pub open spec fn spec_id(path: Seq<char>, name: Seq<char>) -> Seq<char> {
    path + "::"@ + name
}

/// A node's declared name, or the literal placeholder when it has none.
pub open spec fn name_or_unknown(n: AstNode) -> Seq<char> {
    match n.name {
        Some(s) => s@,
        None => "<unknown>"@,
    }
}

/// The symbol kind a grammar kind maps to, if it is a recognized
/// declaration shape.  Import, export and package statements keep the
/// grammar kind as their symbol kind.
pub open spec fn spec_symbol_kind(kind: Seq<char>) -> Option<Seq<char>> {
    if kind == "function_definition"@ || kind == "function_declaration"@
        || kind == "method_definition"@ || kind == "arrow_function"@
        || kind == "function_expression"@ {
        Some("function"@)
    } else if kind == "class_definition"@ || kind == "class_declaration"@ {
        Some("class"@)
    } else if kind == "variable_declaration"@ || kind == "const_declaration"@
        || kind == "let_declaration"@ {
        Some("variable"@)
    } else if kind == "interface_declaration"@ || kind == "type_alias_declaration"@ {
        Some("interface"@)
    } else if kind == "method_declaration"@ {
        Some("method"@)
    } else if kind == "field_declaration"@ {
        Some("field"@)
    } else if kind == "package_declaration"@ {
        Some("package"@)
    } else if kind == "import_declaration"@ || kind == "import_statement"@
        || kind == "export_statement"@ {
        Some(kind)
    } else {
        None
    }
}

/// The index of the first `/` at or after position `i`, or the length of
/// `s` when there is none.
pub open spec fn spec_slash_from(s: Seq<char>, i: int) -> int
    decreases s.len() - i,
{
    if !(0 <= i < s.len()) {
        s.len() as int
    } else if s[i] == '/' {
        i
    } else {
        spec_slash_from(s, i + 1)
    }
}

/// The scope label of a file path: its second `/`-separated segment, or
/// empty when the path has fewer than two segments.
pub open spec fn spec_scope(path: Seq<char>) -> Seq<char> {
    let a = spec_slash_from(path, 0);
    if a >= path.len() {
        Seq::empty()
    } else {
        path.subrange(a + 1, spec_slash_from(path, a + 1))
    }
}

/// The symbol a single node contributes, if any.
pub open spec fn spec_symbols_of(n: AstNode, path: Seq<char>) -> Seq<SymbolModel> {
    match spec_symbol_kind(n.kind@) {
        Some(k) => seq![
            (SymbolModel {
                id: spec_id(path, name_or_unknown(n)),
                name: name_or_unknown(n),
                kind: k,
                file_path: path,
                start_line: n.start_line as int,
                end_line: n.end_line as int,
                scope: spec_scope(path),
                documentation: None,
                signature: None,
            }),
        ],
        None => Seq::empty(),
    }
}

/// The symbols of a file: each node's contribution, in arena order.
pub open spec fn spec_extract(nodes: Seq<AstNode>, path: Seq<char>) -> Seq<SymbolModel>
    decreases nodes.len(),
{
    if nodes.len() == 0 {
        Seq::empty()
    } else {
        spec_extract(nodes.drop_last(), path) + spec_symbols_of(nodes.last(), path)
    }
}

/// The models of a list of symbols.
pub open spec fn view_symbols(s: Seq<Symbol>) -> Seq<SymbolModel> {
    s.map_values(|x: Symbol| x@)
}

/// Walks every node of a parsed file and emits one Symbol per recognized
/// declaration shape.
pub struct SymbolExtractor {}

impl SymbolExtractor {
    pub fn new() -> (r: Self) {
        SymbolExtractor {  }
    }

    /// Extract the symbols of one parsed file, in arena order.  Over a
    /// well-formed arena, every symbol's 1-based line span is ordered.
    pub fn extract_symbols(&self, ast: &Ast, file_path: &str) -> (r: Vec<Symbol>)
        ensures
            view_symbols(r@) == spec_extract(ast.nodes@, file_path@),
            ast.wf() ==> forall|k: int|
                0 <= k < view_symbols(r@).len() ==> 1 <= (#[trigger] view_symbols(
                    r@,
                )[k]).start_line <= view_symbols(r@)[k].end_line,
    {
        proof {
            if ast.wf() {
                assert forall|i: int| 0 <= i < ast.nodes@.len() implies 1 <= (#[trigger] ast.nodes@[i]).start_line
                    <= ast.nodes@[i].end_line by {
                    assert(crate::ast::node_wf_at(ast.nodes@, i));
                }
                lemma_extract_spans_ordered(ast.nodes@, file_path@);
            }
        }
        let scope = scope_of(file_path);
        let mut out: Vec<Symbol> = Vec::new();
        let n = ast.nodes.len();
        for i in 0..n
            invariant
                n == ast.nodes@.len(),
                scope@ == spec_scope(file_path@),
                view_symbols(out@) == spec_extract(ast.nodes@.take(i as int), file_path@),
        {
            proof {
                assert(ast.nodes@.take(i + 1).drop_last() =~= ast.nodes@.take(i as int));
                assert(ast.nodes@.take(i + 1).last() == ast.nodes@[i as int]);
            }
            let node = &ast.nodes[i];
            match symbol_kind_exec(node.kind.as_str()) {
                Some(kind) => {
                    let name: String = match &node.name {
                        Some(s) => s.clone(),
                        None => "<unknown>".to_owned(),
                    };
                    let id: String = make_id(file_path, name.as_str());
                    let ghost prev = out@;
                    out.push(
                        Symbol {
                            id,
                            name,
                            kind,
                            file_path: file_path.to_owned(),
                            start_line: node.start_line,
                            end_line: node.end_line,
                            scope: scope.clone(),
                            documentation: None,
                            signature: None,
                        },
                    );
                    proof {
                        assert(view_symbols(out@) =~= view_symbols(prev) + spec_symbols_of(
                            ast.nodes@[i as int],
                            file_path@,
                        ));
                    }
                },
                None => {
                    proof {
                        assert(view_symbols(out@) =~= view_symbols(out@) + spec_symbols_of(
                            ast.nodes@[i as int],
                            file_path@,
                        ));
                    }
                },
            }
        }
        proof {
            assert(ast.nodes@.take(n as int) =~= ast.nodes@);
        }
        out
    }
}

/// Every node whose grammar kind is a function shape yields a Symbol of
/// kind `function` whose line span is exactly the node's source span.
pub proof fn lemma_function_symbol_extracted(nodes: Seq<AstNode>, path: Seq<char>, i: int)
    requires
        0 <= i < nodes.len(),
        spec_symbol_kind(nodes[i].kind@) == Some("function"@),
    ensures
        exists|k: int|
            {
                &&& 0 <= k < spec_extract(nodes, path).len()
                &&& (#[trigger] spec_extract(nodes, path)[k]).kind == "function"@
                &&& spec_extract(nodes, path)[k].name == name_or_unknown(nodes[i])
                &&& spec_extract(nodes, path)[k].start_line == nodes[i].start_line as int
                &&& spec_extract(nodes, path)[k].end_line == nodes[i].end_line as int
            },
    decreases nodes.len(),
{
    let r = spec_extract(nodes, path);
    if i == nodes.len() - 1 {
        let k = r.len() - 1;
        assert(r[k] == spec_symbols_of(nodes.last(), path)[0]);
    } else {
        lemma_function_symbol_extracted(nodes.drop_last(), path, i);
        let prefix = spec_extract(nodes.drop_last(), path);
        let k = choose|k: int|
            {
                &&& 0 <= k < prefix.len()
                &&& (#[trigger] prefix[k]).kind == "function"@
                &&& prefix[k].name == name_or_unknown(nodes.drop_last()[i])
                &&& prefix[k].start_line == nodes.drop_last()[i].start_line as int
                &&& prefix[k].end_line == nodes.drop_last()[i].end_line as int
            };
        assert(r[k] == prefix[k]);
    }
}

/// Over a well-formed arena, every extracted symbol carries an ordered,
/// 1-based line span.
pub proof fn lemma_extract_spans_ordered(nodes: Seq<AstNode>, path: Seq<char>)
    requires
        forall|i: int|
            0 <= i < nodes.len() ==> 1 <= (#[trigger] nodes[i]).start_line <= nodes[i].end_line,
    ensures
        forall|k: int|
            0 <= k < spec_extract(nodes, path).len() ==> 1 <= (#[trigger] spec_extract(
                nodes,
                path,
            )[k]).start_line <= spec_extract(nodes, path)[k].end_line,
    decreases nodes.len(),
{
    if nodes.len() > 0 {
        let prefix = nodes.drop_last();
        assert forall|i: int| 0 <= i < prefix.len() implies 1 <= (#[trigger] prefix[i]).start_line
            <= prefix[i].end_line by {
            assert(prefix[i] == nodes[i]);
        }
        lemma_extract_spans_ordered(prefix, path);
        let r = spec_extract(nodes, path);
        let rp = spec_extract(prefix, path);
        assert forall|k: int| 0 <= k < r.len() implies 1 <= (#[trigger] r[k]).start_line
            <= r[k].end_line by {
            if k < rp.len() {
                assert(r[k] == rp[k]);
            } else {
                assert(r[k] == spec_symbols_of(nodes.last(), path)[k - rp.len()]);
            }
        }
    }
}

/// Build a symbol id from a file path and a declared name.
pub fn make_id(path: &str, name: &str) -> (r: String)
    ensures
        r@ == spec_id(path@, name@),
{
    let mut id: String = path.to_owned();
    id.append("::");
    id.append(name);
    id
}

/// The executable mirror of `spec_symbol_kind`.
fn symbol_kind_exec(kind: &str) -> (r: Option<String>)
    ensures
        match spec_symbol_kind(kind@) {
            Some(k) => r matches Some(s) && s@ == k,
            None => r is None,
        },
{
    if str_eq(kind, "function_definition") || str_eq(kind, "function_declaration")
        || str_eq(kind, "method_definition") || str_eq(kind, "arrow_function") || str_eq(
        kind,
        "function_expression",
    ) {
        Some("function".to_owned())
    } else if str_eq(kind, "class_definition") || str_eq(kind, "class_declaration") {
        Some("class".to_owned())
    } else if str_eq(kind, "variable_declaration") || str_eq(kind, "const_declaration") || str_eq(
        kind,
        "let_declaration",
    ) {
        Some("variable".to_owned())
    } else if str_eq(kind, "interface_declaration") || str_eq(kind, "type_alias_declaration") {
        Some("interface".to_owned())
    } else if str_eq(kind, "method_declaration") {
        Some("method".to_owned())
    } else if str_eq(kind, "field_declaration") {
        Some("field".to_owned())
    } else if str_eq(kind, "package_declaration") {
        Some("package".to_owned())
    } else if str_eq(kind, "import_declaration") || str_eq(kind, "import_statement") || str_eq(
        kind,
        "export_statement",
    ) {
        Some(kind.to_owned())
    } else {
        None
    }
}

/// The scope label of a file path: its second `/`-separated segment.
pub fn scope_of(path: &str) -> (r: String)
    ensures
        r@ == spec_scope(path@),
{
    let n = path.unicode_len();
    let mut a: usize = 0;
    while a < n && path.get_char(a) != '/'
        invariant
            n == path@.len(),
            a <= n,
            spec_slash_from(path@, 0) == spec_slash_from(path@, a as int),
        decreases n - a,
    {
        a = a + 1;
    }
    if a == n {
        assert(spec_slash_from(path@, 0) == n);
        return String::new();
    }
    assert(spec_slash_from(path@, 0) == a);
    let mut b: usize = a + 1;
    while b < n && path.get_char(b) != '/'
        invariant
            n == path@.len(),
            a + 1 <= b <= n,
            spec_slash_from(path@, a + 1) == spec_slash_from(path@, b as int),
        decreases n - b,
    {
        b = b + 1;
    }
    assert(spec_slash_from(path@, a + 1) == b);
    let seg = path.substring_char(a + 1, b);
    seg.to_owned()
}

} // verus!
