use mcp_forge::parser::CodeParser;

#[test]
fn test_parse_python_file() {
    let mut parser = CodeParser::new();
    let source = "import json\nimport sys\n\ndef main():\n    print(json.dumps([]))\n";
    let tree = parser.parse_file("templates/mcp-server/generate_embeddings.py", source);
    assert!(tree.is_ok(), "Should parse Python file successfully");
}

#[test]
fn test_parse_unsupported_extension() {
    let mut parser = CodeParser::new();
    let r = parser.parse_file("notes.txt", "hello");
    match r {
        Err(e) => assert_eq!(e.message(), "Unsupported file type"),
        Ok(_) => panic!("a .txt file must not parse"),
    }
}

#[test]
fn test_parse_path_without_extension() {
    let mut parser = CodeParser::new();
    let r = parser.parse_file("Makefile", "all:\n");
    match r {
        Err(e) => assert_eq!(e.message(), "Unsupported file type"),
        Ok(_) => panic!("a path without an extension must not parse"),
    }
}

#[test]
fn test_parse_javascript_and_rust() {
    let mut parser = CodeParser::new();
    assert!(parser.parse_file("web/app.js", "function f() { return 1; }\n").is_ok());
    assert!(parser.parse_file("src/lib.rs", "fn main() {}\n").is_ok());
    assert!(parser.parse_file("web/app.ts", "function f(): number { return 1; }\n").is_ok());
}

#[test]
fn test_extension_of() {
    assert_eq!(mcp_forge::parser::extension_of("src/analyzer/mod.rs").as_deref(), Some("rs"));
    assert_eq!(mcp_forge::parser::extension_of("a.tar.gz").as_deref(), Some("gz"));
    assert_eq!(mcp_forge::parser::extension_of(".gitignore"), None);
    assert_eq!(mcp_forge::parser::extension_of("noext"), None);
    assert_eq!(mcp_forge::parser::extension_of("dir.d/noext"), None);
}
