//! One build step of the orchestrator: the full parse → extract → detect →
//! map sequence for a single discovered file, gated by the incremental
//! cache.
//!
//! A file whose content hash is unchanged is skipped whole, and a file
//! that is processed again has its edge set replaced, not extended, so
//! re-processing never duplicates an edge or leaves a stale one.  A
//! file-local failure (unsupported extension, grammar failure) leaves
//! every accumulator untouched and is reported to the caller, who records
//! it and goes on with the other files.

use vstd::prelude::*;
use vstd::string::StringSliceAdditionalSpecFns;
use crate::ast::AstNode;
use crate::error::{McpError, McpResult};
use crate::graph::{KnowledgeGraph, SymbolNode, spec_drop_file_edges, spec_relationships, view_sym_nodes};
use crate::incremental::{IncrementalBuilder, sha256_hex_of, spec_changed};
use crate::parser::{CodeParser, extension_of, parse_ok, spec_extension, spec_lang_of_path, tree_to_ast};
use crate::patterns::{PatternDetector, spec_detect_list};
use crate::symbols::{SymbolExtractor, scope_of, spec_extract, spec_scope, view_symbols};

verus! {

/// One confidence-scored pattern match: the pattern's name, the file it
/// matched in, the file's extension and scope label, and the confidence in
/// hundredths.
#[derive(Debug)]
pub struct PatternMatch {
    pub name: String,
    pub ext: String,
    pub scope: String,
    pub confidence: u32,
    pub file_path: String,
}

/// The mathematical shadow of a list of pattern matches.
pub open spec fn view_matches(s: Seq<PatternMatch>) -> Seq<
    (Seq<char>, Seq<char>, Seq<char>, int, Seq<char>),
> {
    s.map_values(
        |m: PatternMatch| (m.name@, m.ext@, m.scope@, m.confidence as int, m.file_path@),
    )
}

/// The pattern-match records that a detection result contributes for one
/// file.
pub open spec fn spec_matches_of(
    pairs: Seq<(Seq<char>, u32)>,
    ext: Seq<char>,
    scope: Seq<char>,
    path: Seq<char>,
) -> Seq<(Seq<char>, Seq<char>, Seq<char>, int, Seq<char>)> {
    pairs.map_values(|p: (Seq<char>, u32)| (p.0, ext, scope, p.1 as int, path))
}

/// Clone an optional string.
fn clone_opt(o: &Option<String>) -> (r: Option<String>)
    ensures
        r == *o,
{
    match o {
        Some(s) => Some(s.clone()),
        None => None,
    }
}

/// Process one discovered file: skip it whole when its content hash is
/// unchanged; otherwise parse it, append its symbols and pattern matches,
/// replace the file's edge set in the graph with the freshly mapped one,
/// and record its hash.  On a changed, supported file the call succeeds
/// exactly when the grammar accepts the source.  Returns whether the file
/// was processed; a parse failure is file-local and leaves every
/// accumulator and the cache untouched.
pub fn process_file(
    parser: &mut CodeParser,
    extractor: &SymbolExtractor,
    detector: &PatternDetector,
    cache: &mut IncrementalBuilder,
    graph: &mut KnowledgeGraph,
    patterns: &mut Vec<PatternMatch>,
    file_path: &str,
    source: &str,
) -> (r: McpResult<bool>)
    ensures
        ({
            let h = sha256_hex_of(source.spec_bytes());
            let was_changed = spec_changed(old(cache).entries(), file_path@, h);
            &&& (!was_changed ==> {
                &&& (r matches Ok(b) && b == false)
                &&& final(graph).spec_nodes() == old(graph).spec_nodes()
                &&& final(graph).spec_relationships() == old(graph).spec_relationships()
                &&& final(patterns)@ == old(patterns)@
                &&& final(cache).entries() == old(cache).entries()
            })
            &&& (was_changed && spec_lang_of_path(file_path@) is None ==> {
                &&& (r matches Err(e) && e matches McpError::Transport(m) && m@
                    == "Unsupported file type"@)
            })
            &&& (was_changed ==> (spec_lang_of_path(file_path@) matches Some(l) ==> (r is Ok
                <==> parse_ok(l, source@))))
            &&& (was_changed && r is Err ==> {
                &&& final(graph).spec_nodes() == old(graph).spec_nodes()
                &&& final(graph).spec_relationships() == old(graph).spec_relationships()
                &&& final(patterns)@ == old(patterns)@
                &&& final(cache).entries() == old(cache).entries()
            })
            &&& (was_changed && r is Ok ==> {
                &&& (r matches Ok(b) && b == true)
                &&& spec_lang_of_path(file_path@) is Some
                &&& crate::assoc::spec_stored(final(cache).entries(), file_path@) == Some(h)
                &&& (forall|k2: Seq<char>|
                    k2 != file_path@ ==> #[trigger] crate::assoc::spec_stored(
                        final(cache).entries(),
                        k2,
                    ) == crate::assoc::spec_stored(old(cache).entries(), k2))
                &&& (exists|nodes: Seq<AstNode>|
                    {
                        &&& (forall|i: int|
                            0 <= i < nodes.len() ==> #[trigger] crate::ast::node_wf_at(nodes, i))
                        &&& view_sym_nodes(final(graph).spec_nodes()) == view_sym_nodes(
                            old(graph).spec_nodes(),
                        ) + spec_extract(nodes, file_path@)
                        &&& final(graph).spec_relationships() == spec_drop_file_edges(
                            old(graph).spec_relationships(),
                            file_path@,
                        ) + #[trigger] spec_relationships(nodes, file_path@)
                    })
                &&& view_matches(final(patterns)@) == view_matches(old(patterns)@)
                    + spec_matches_of(
                    spec_detect_list(
                        detector.names(),
                        source.spec_bytes(),
                        spec_extension(file_path@)->Some_0,
                    ),
                    spec_extension(file_path@)->Some_0,
                    spec_scope(file_path@),
                    file_path@,
                )
            })
        }),
{
    let content: &[u8] = source.as_bytes();
    let changed = match cache.detect_changes(file_path, content) {
        Ok(b) => b,
        Err(e) => {
            return Err(e);
        },
    };
    if !changed {
        return Ok(false);
    }
    let tree = match parser.parse_file(file_path, source) {
        Ok(t) => t,
        Err(e) => {
            return Err(e);
        },
    };
    let ast = tree_to_ast(&tree, source);
    let ghost witness = ast.nodes@;

    // Symbols: extract, then append to the graph in extraction order.
    let symbols = extractor.extract_symbols(&ast, file_path);
    let n = symbols.len();
    for i in 0..n
        invariant
            n == symbols@.len(),
            view_symbols(symbols@) == spec_extract(witness, file_path@),
            view_sym_nodes(graph.spec_nodes()) == view_sym_nodes(old(graph).spec_nodes())
                + view_symbols(symbols@).take(i as int),
            graph.spec_relationships() == old(graph).spec_relationships(),
    {
        let s = &symbols[i];
        let ghost prev = graph.spec_nodes();
        graph.add_node(
            SymbolNode {
                id: s.id.clone(),
                name: s.name.clone(),
                kind: s.kind.clone(),
                file_path: s.file_path.clone(),
                start_line: s.start_line,
                end_line: s.end_line,
                scope: s.scope.clone(),
                documentation: clone_opt(&s.documentation),
                signature: clone_opt(&s.signature),
            },
        );
        proof {
            assert(view_sym_nodes(graph.spec_nodes()) =~= view_sym_nodes(prev).push(
                symbols@[i as int]@,
            ));
            assert(view_symbols(symbols@).take(i + 1) =~= view_symbols(symbols@).take(
                i as int,
            ).push(symbols@[i as int]@));
        }
    }
    proof {
        assert(view_symbols(symbols@).take(n as int) =~= view_symbols(symbols@));
    }

    // Patterns: the extension is present, or parsing would have failed.
    let ext = match extension_of(file_path) {
        Some(e) => e,
        None => {
            proof {
                assert(false);
            }
            return Err(McpError::Unknown("unreachable".to_owned()));
        },
    };
    let scope = scope_of(file_path);
    let detected = detector.detect_patterns(source, ext.as_str());
    let m = detected.len();
    let ghost detected_view = crate::patterns::view_pairs(detected@);
    for i in 0..m
        invariant
            m == detected@.len(),
            detected_view == crate::patterns::view_pairs(detected@),
            ext@ == spec_extension(file_path@)->Some_0,
            scope@ == spec_scope(file_path@),
            view_matches(patterns@) == view_matches(old(patterns)@) + spec_matches_of(
                detected_view.take(i as int),
                ext@,
                scope@,
                file_path@,
            ),
    {
        let ghost prevp = patterns@;
        patterns.push(
            PatternMatch {
                name: detected[i].0.clone(),
                ext: ext.clone(),
                scope: scope.clone(),
                confidence: detected[i].1,
                file_path: file_path.to_owned(),
            },
        );
        proof {
            assert(view_matches(patterns@) =~= view_matches(prevp).push(
                (detected_view[i as int].0, ext@, scope@, detected_view[i as int].1 as int,
                file_path@),
            ));
            assert(spec_matches_of(detected_view.take(i + 1), ext@, scope@, file_path@)
                =~= spec_matches_of(detected_view.take(i as int), ext@, scope@, file_path@).push(
                (detected_view[i as int].0, ext@, scope@, detected_view[i as int].1 as int,
                file_path@),
            ));
        }
    }
    proof {
        assert(detected_view.take(m as int) =~= detected_view);
    }

    // Relationships: the second walk over the same arena.
    graph.extract_relationships_from_ast(&ast, file_path);

    // Record the hash last, so a failure above keeps the file "changed".
    match cache.cache_file_hash(file_path, content) {
        Ok(()) => (),
        Err(e) => {
            return Err(e);
        },
    }
    Ok(true)
}

/// Once a file's hash is recorded, the file no longer counts as changed,
/// so a second pass over the unmodified file is skipped whole and its
/// edges are never duplicated.
pub proof fn lemma_reprocess_unchanged(
    entries: Seq<(Seq<char>, Seq<char>)>,
    path: Seq<char>,
    content: Seq<u8>,
)
    requires
        crate::assoc::spec_stored(entries, path) == Some(sha256_hex_of(content)),
    ensures
        !spec_changed(entries, path, sha256_hex_of(content)),
{
}

} // verus!
