use mcp_forge::error::McpError;
use mcp_forge::graph::KnowledgeGraph;
use mcp_forge::incremental::IncrementalBuilder;
use mcp_forge::parser::{CodeParser, tree_to_ast};
use mcp_forge::patterns::PatternDetector;
use mcp_forge::pipeline::{PatternMatch, process_file};
use mcp_forge::relationships::RelationshipMapper;
use mcp_forge::symbols::{SymbolExtractor, make_id, scope_of};
use mcp_forge::text::{contains_bytes, str_eq};

fn parse_to_ast(path: &str, source: &str) -> mcp_forge::ast::Ast {
    let mut parser = CodeParser::new();
    let tree = parser.parse_file(path, source).expect("parse");
    tree_to_ast(&tree, source)
}

#[test]
fn test_two_function_call_scenario() {
    // A two-function file: `a` calls `b`.
    let path = "src/app/main.py";
    let source = "def a():\n    b()\n\ndef b():\n    pass\n";
    let ast = parse_to_ast(path, source);
    let symbols = SymbolExtractor::new().extract_symbols(&ast, path);
    assert_eq!(symbols.len(), 2);
    assert_eq!(symbols[0].name, "a");
    assert_eq!(symbols[0].kind, "function");
    assert_eq!(symbols[0].id, "src/app/main.py::a");
    assert_eq!(symbols[0].scope, "app");
    assert_eq!(symbols[1].name, "b");
    assert_eq!(symbols[1].kind, "function");

    let mut graph = KnowledgeGraph::new();
    graph.extract_relationships_from_ast(&ast, path);
    let rels = graph.get_relationships();
    assert_eq!(rels.len(), 1);
    assert_eq!(rels[0].from, "src/app/main.py::a");
    assert_eq!(rels[0].to, "src/app/main.py::b");
    assert_eq!(rels[0].kind, "calls");
    assert_eq!(rels[0].strength, 100);
}

#[test]
fn test_function_symbol_span() {
    // A file with one top-level function yields a function symbol whose
    // line span covers the function's source lines.
    let path = "src/app/one.py";
    let source = "def solo():\n    x = 1\n    return x\n";
    let ast = parse_to_ast(path, source);
    let symbols = SymbolExtractor::new().extract_symbols(&ast, path);
    let funcs: Vec<_> = symbols.iter().filter(|s| s.kind == "function").collect();
    assert_eq!(funcs.len(), 1);
    assert_eq!(funcs[0].name, "solo");
    assert_eq!(funcs[0].start_line, 1);
    assert!(funcs[0].end_line >= 3);
}

#[test]
fn test_inheritance_scenario() {
    // A class `Dog` with superclass `Animal`.
    let path = "zoo/pets/dog.py";
    let source = "class Animal:\n    pass\n\nclass Dog(Animal):\n    def bark(self):\n        pass\n";
    let ast = parse_to_ast(path, source);
    let symbols = SymbolExtractor::new().extract_symbols(&ast, path);
    let dogs: Vec<_> = symbols.iter().filter(|s| s.name == "Dog").collect();
    assert_eq!(dogs.len(), 1);
    assert_eq!(dogs[0].kind, "class");

    let mut graph = KnowledgeGraph::new();
    graph.extract_relationships_from_ast(&ast, path);
    let inherits: Vec<_> = graph.get_relationships().iter().filter(|r| r.kind == "inherits").collect();
    assert_eq!(inherits.len(), 1);
    assert_eq!(inherits[0].from, "zoo/pets/dog.py::Dog");
    assert_eq!(inherits[0].to, "zoo/pets/dog.py::Animal");
    assert_eq!(inherits[0].strength, 100);
}

#[test]
fn test_recursive_call_self_loop() {
    // A self-referential recursive call yields an edge with from == to.
    let path = "src/m/rec.py";
    let source = "def f():\n    return f()\n";
    let ast = parse_to_ast(path, source);
    let mut graph = KnowledgeGraph::new();
    graph.extract_relationships_from_ast(&ast, path);
    let calls: Vec<_> = graph.get_relationships().iter().filter(|r| r.kind == "calls").collect();
    assert!(!calls.is_empty());
    assert_eq!(calls[0].from, "src/m/rec.py::f");
    assert_eq!(calls[0].to, "src/m/rec.py::f");
}

#[test]
fn test_builder_pattern_python() {
    let detector = PatternDetector::new();
    let code = "class B:\n    def build(self):\n        return self\n";
    let found = detector.detect_patterns(code, "py");
    assert_eq!(found.len(), 1);
    assert_eq!(found[0].0, "Builder");
    assert_eq!(found[0].1, 70);

    let plain = detector.detect_patterns("x = 1\n", "py");
    assert!(plain.iter().all(|p| p.0 != "Builder"));
}

#[test]
fn test_detect_unsupported_extension_empty() {
    let detector = PatternDetector::new();
    let code = "return self def build getInstance( subscribe( notify(";
    assert!(detector.detect_patterns(code, "txt").is_empty());
    assert!(detector.detect_patterns(code, "").is_empty());
}

#[test]
fn test_singleton_and_observer_js() {
    let detector = PatternDetector::new();
    let code = "let instance = null;\nfunction getInstance() {}\nbus.subscribe(x);\nbus.notify(y);\n";
    let found = detector.detect_patterns(code, "js");
    let get = |name: &str| found.iter().find(|p| p.0 == name).map(|p| p.1);
    assert_eq!(get("Singleton"), Some(80));
    assert_eq!(get("Observer"), Some(80));
    assert_eq!(get("Builder"), None);
}

#[test]
fn test_cache_record_then_detect() {
    let mut cache = IncrementalBuilder::new(String::from(".cache"));
    let path = "src/app/main.py";
    // Never seen: conservatively changed.
    assert_eq!(cache.detect_changes(path, b"hello").unwrap(), true);
    cache.cache_file_hash(path, b"hello").unwrap();
    // Unmodified content: no change.
    assert_eq!(cache.detect_changes(path, b"hello").unwrap(), false);
    // One appended byte: changed.
    assert_eq!(cache.detect_changes(path, b"hello!").unwrap(), true);
    // The change keeps being reported until recorded again.
    assert_eq!(cache.detect_changes(path, b"hello!").unwrap(), true);
    cache.cache_file_hash(path, b"hello!").unwrap();
    assert_eq!(cache.detect_changes(path, b"hello!").unwrap(), false);
}

#[test]
fn test_cache_stores_sha256_hex() {
    let mut cache = IncrementalBuilder::new(String::from(".cache"));
    cache.cache_file_hash("f", b"hello").unwrap();
    assert_eq!(
        cache.stored_hash("f").as_deref(),
        Some("2cf24dba5fb0a30e26e83b2ac5b9e29e1b161e5c1fa7425e73043362938b9824"),
    );
    assert_eq!(cache.stored_hash("other"), None);
}

#[test]
fn test_process_file_idempotent_for_unchanged_file() {
    let mut parser = CodeParser::new();
    let extractor = SymbolExtractor::new();
    let detector = PatternDetector::new();
    let mut cache = IncrementalBuilder::new(String::from(".cache"));
    let mut graph = KnowledgeGraph::new();
    let mut patterns: Vec<PatternMatch> = Vec::new();
    let path = "src/app/main.py";
    let source = "def a():\n    b()\n\ndef b():\n    pass\n";

    let first = process_file(
        &mut parser, &extractor, &detector, &mut cache, &mut graph, &mut patterns, path, source,
    );
    assert_eq!(first.unwrap(), true);
    let nodes_after_first = graph.get_nodes().len();
    let rels_after_first = graph.get_relationships().len();
    assert_eq!(nodes_after_first, 2);
    assert_eq!(rels_after_first, 1);

    let second = process_file(
        &mut parser, &extractor, &detector, &mut cache, &mut graph, &mut patterns, path, source,
    );
    assert_eq!(second.unwrap(), false);
    assert_eq!(graph.get_nodes().len(), nodes_after_first);
    assert_eq!(graph.get_relationships().len(), rels_after_first);
}

#[test]
fn test_process_file_unsupported_is_file_local() {
    let mut parser = CodeParser::new();
    let extractor = SymbolExtractor::new();
    let detector = PatternDetector::new();
    let mut cache = IncrementalBuilder::new(String::from(".cache"));
    let mut graph = KnowledgeGraph::new();
    let mut patterns: Vec<PatternMatch> = Vec::new();

    let r = process_file(
        &mut parser, &extractor, &detector, &mut cache, &mut graph, &mut patterns,
        "README.md", "# hello\n",
    );
    match r {
        Err(e) => assert_eq!(e.message(), "Unsupported file type"),
        Ok(_) => panic!("an unsupported extension must fail"),
    }
    assert_eq!(graph.get_nodes().len(), 0);
    assert_eq!(graph.get_relationships().len(), 0);
    assert!(patterns.is_empty());
}

#[test]
fn test_relationship_mapper_keeps_unresolved_targets() {
    let mut mapper = RelationshipMapper::new();
    mapper.add_symbol(String::from("m::a"));
    mapper.add_symbol(String::from("m::b"));
    mapper.add_relationship(
        String::from("m::a"),
        String::from("m::b"),
        String::from("calls"),
        100,
    );
    // A target that was never added is a legal, unresolved reference: the
    // relationship is recorded all the same.
    mapper.add_relationship(
        String::from("m::a"),
        String::from("m::missing"),
        String::from("calls"),
        100,
    );
    let rels = mapper.get_relationships();
    assert_eq!(rels.len(), 2);
    assert_eq!(rels[0].from, "m::a");
    assert_eq!(rels[0].to, "m::b");
    assert_eq!(rels[0].kind, "calls");
    assert_eq!(rels[0].strength, 100);
    assert_eq!(rels[1].to, "m::missing");
}

#[test]
fn test_remapping_replaces_a_file_edge_set() {
    // Mapping the identical tree twice leaves the edge set as one pass
    // did; mapping a changed tree replaces the stale edges whole.
    let path = "src/app/main.py";
    let ast = parse_to_ast(path, "def a():\n    b()\n\ndef b():\n    pass\n");
    let mut graph = KnowledgeGraph::new();
    graph.extract_relationships_from_ast(&ast, path);
    assert_eq!(graph.get_relationships().len(), 1);
    graph.extract_relationships_from_ast(&ast, path);
    assert_eq!(graph.get_relationships().len(), 1);
    assert_eq!(graph.get_relationships()[0].to, "src/app/main.py::b");

    let changed = parse_to_ast(path, "def a():\n    c()\n");
    graph.extract_relationships_from_ast(&changed, path);
    assert_eq!(graph.get_relationships().len(), 1);
    assert_eq!(graph.get_relationships()[0].to, "src/app/main.py::c");
}

#[test]
fn test_remapping_keeps_other_files_edges() {
    let mut graph = KnowledgeGraph::new();
    let other = parse_to_ast("lib/util/x.py", "def f():\n    g()\n");
    graph.extract_relationships_from_ast(&other, "lib/util/x.py");
    let ast = parse_to_ast("src/app/main.py", "def a():\n    b()\n");
    graph.extract_relationships_from_ast(&ast, "src/app/main.py");
    graph.extract_relationships_from_ast(&ast, "src/app/main.py");
    let rels = graph.get_relationships();
    assert_eq!(rels.len(), 2);
    assert_eq!(rels[0].from, "lib/util/x.py::f");
    assert_eq!(rels[1].from, "src/app/main.py::a");
}

#[test]
fn test_filter_files_respects_ignore_rules() {
    let mut builder = ignore::gitignore::GitignoreBuilder::new(".");
    builder.add_line(None, "*.log").unwrap();
    builder.add_line(None, "target/").unwrap();
    let gitignore = builder.build().unwrap();
    let paths = vec![
        String::from("src/a.rs"),
        String::from("debug.log"),
        String::from("src/b.py"),
    ];
    let kept = mcp_forge::discovery::filter_files(&gitignore, &paths);
    assert_eq!(kept, vec![String::from("src/a.rs"), String::from("src/b.py")]);
}

#[test]
fn test_text_utilities() {
    assert!(contains_bytes(b"hello world", b"lo wo"));
    assert!(!contains_bytes(b"hello", b"xyz"));
    assert!(contains_bytes(b"abc", b""));
    assert!(!contains_bytes(b"ab", b"abc"));
    assert!(str_eq("same", "same"));
    assert!(!str_eq("same", "other"));
    assert_eq!(make_id("a/b.py", "f"), "a/b.py::f");
    assert_eq!(scope_of("src/analyzer/mod.rs"), "analyzer");
    assert_eq!(scope_of("flat.rs"), "");
    assert_eq!(scope_of("a/b"), "b");
    assert_eq!(scope_of("a/"), "");
}

#[test]
fn test_error_messages() {
    assert_eq!(McpError::Transport(String::from("t")).message(), "t");
    assert_eq!(McpError::Dispatch(String::from("d")).message(), "d");
    assert_eq!(McpError::Database(String::from("db")).message(), "db");
    assert_eq!(McpError::Unknown(String::from("u")).message(), "u");
}

#[test]
fn test_metrics_default_zero() {
    let graph = KnowledgeGraph::new();
    let metrics = graph.calculate_metrics();
    assert_eq!(metrics.coupling, 0);
    assert_eq!(metrics.complexity, 0);
    assert_eq!(metrics.centrality, 0);
}

#[test]
fn test_embedding_generator_config() {
    let generator = mcp_forge::embeddings::EmbeddingGenerator::new(
        String::from("templates/mcp-server"),
        String::from("all-MiniLM-L6-v2"),
    );
    assert_eq!(generator.python_env(), "templates/mcp-server");
    assert_eq!(generator.model_name(), "all-MiniLM-L6-v2");
}

#[test]
fn test_graph_add_node_and_relationship() {
    let mut graph = KnowledgeGraph::new();
    graph.add_node(mcp_forge::graph::SymbolNode {
        id: String::from("p::x"),
        name: String::from("x"),
        kind: String::from("function"),
        file_path: String::from("p"),
        start_line: 1,
        end_line: 2,
        scope: String::from(""),
        documentation: None,
        signature: None,
    });
    graph.add_relationship(
        String::from("p::x"),
        String::from("p::y"),
        String::from("calls"),
        100,
    );
    assert_eq!(graph.get_nodes().len(), 1);
    assert_eq!(graph.get_relationships().len(), 1);
    // An edge may point at a symbol that is not in the graph.
    assert_eq!(graph.get_relationships()[0].to, "p::y");
}
