use code_context_graph::driver::{
    resolve_run_store, resolve_run_workspace, resolve_workspace_dir, statements_for_bytes,
    statements_for_source,
};
use code_context_graph::fallback::basic_queries_from_source;
use code_context_graph::graph::{augment_statements, statements_for_file, GraphBuilder};
use code_context_graph::registry::ParserRegistry;
use code_context_graph::statements::escape;
use code_context_graph::test_utils::TestUtils;
use code_context_graph::types::Language;

#[test]
fn scanner_finds_functions_and_imports() {
    let q = basic_queries_from_source(
        "import os\n\ndef foo(x):\n    return os.getcwd()\n",
        "src\\app.py",
    );
    assert_eq!(
        q,
        vec![
            "MERGE (f:File { path: 'src/app.py' })",
            "MERGE (fn:Function { name: 'foo' })",
            "MERGE (f)-[:CONTAINS]->(fn)",
            "MERGE (m:Module { name: 'os' })",
            "MERGE (f)-[:IMPORTS]->(m)",
        ]
    );
}

#[test]
fn scanner_on_empty_source_emits_the_file_statement_alone() {
    assert_eq!(basic_queries_from_source("", "a.py"), vec!["MERGE (f:File { path: 'a.py' })"]);
}

#[test]
fn function_names_end_at_bracket_space_or_colon() {
    let q = basic_queries_from_source("def a(x): pass\ndef b :\ndef c:\ndef (\ndef d", "f");
    let names: Vec<&String> = q.iter().filter(|s| s.contains("(fn:Function")).collect();
    assert_eq!(
        names,
        vec![
            "MERGE (fn:Function { name: 'a' })",
            "MERGE (fn:Function { name: 'b' })",
            "MERGE (fn:Function { name: 'c' })",
            "MERGE (fn:Function { name: 'd' })",
        ]
    );
    // The search goes on right behind each keyword.
    let q = basic_queries_from_source("def def x(", "f");
    let names: Vec<&String> = q.iter().filter(|s| s.contains("(fn:Function")).collect();
    assert_eq!(
        names,
        vec!["MERGE (fn:Function { name: 'def' })", "MERGE (fn:Function { name: 'x' })"]
    );
}

#[test]
fn import_lines_name_their_first_module() {
    let src = "import a, b\r\n  import c.d as e  \nfrom  pkg.mod   import x\nimport\nimport  spaced\nfrom\nimportant = 1\n\timport tabbed\u{a0}";
    let q = basic_queries_from_source(src, "f");
    let modules: Vec<&String> = q.iter().filter(|s| s.contains("(m:Module")).collect();
    assert_eq!(
        modules,
        vec![
            "MERGE (m:Module { name: 'a' })",
            "MERGE (m:Module { name: 'c.d' })",
            "MERGE (m:Module { name: 'pkg.mod' })",
            "MERGE (m:Module { name: 'tabbed' })",
        ]
    );
    assert_eq!(q.iter().filter(|s| s.as_str() == "MERGE (f)-[:IMPORTS]->(m)").count(), 4);
}

#[test]
fn quotes_in_names_are_escaped() {
    assert_eq!(escape("it's"), "it\\'s");
    assert_eq!(escape("''"), "\\'\\'");
    assert_eq!(escape("plain"), "plain");
    let q = basic_queries_from_source("def o'k(\nimport m'd", "it's.py");
    assert_eq!(q[0], "MERGE (f:File { path: 'it's.py' })");
    assert_eq!(q[1], "MERGE (fn:Function { name: 'o\\'k' })");
    assert_eq!(q[3], "MERGE (m:Module { name: 'm\\'d' })");
}

#[test]
fn grammar_aware_statements_for_python() {
    let src = "import os\n\ndef foo(x):\n    return os.getcwd()\n";
    let ast = TestUtils::parse_source(src, Language::Python).unwrap();
    let builder = GraphBuilder::new("g");
    let q = statements_for_file(&builder, Some(&ast), src, "app.py");
    assert_eq!(q[0], "MERGE (f:File { path: 'app.py' })");
    assert!(q.contains(&"MERGE (fn:Function { name: 'foo' })".to_string()));
    assert!(q.contains(&"MERGE (m:Module { name: 'os' })".to_string()));
    // The tree named both, so the scanner added nothing.
    assert_eq!(q, builder.build_queries(&ast, "app.py"));
    assert_eq!(builder.graph_name(), "g");
}

#[test]
fn scanner_augments_a_tree_that_names_no_module() {
    let src = "def foo():\n    pass\n";
    let ast = TestUtils::parse_source(src, Language::Python).unwrap();
    let builder = GraphBuilder::new("g");
    let walked = builder.build_queries(&ast, "a.py");
    let q = statements_for_file(&builder, Some(&ast), src, "a.py");
    let mut expected = walked.clone();
    expected.extend(basic_queries_from_source(src, "a.py"));
    assert_eq!(q, expected);
    assert_eq!(q[0], "MERGE (f:File { path: 'a.py' })");
    assert_eq!(q[walked.len()], "MERGE (f:File { path: 'a.py' })");
}

#[test]
fn augmenting_leaves_complete_statements_alone() {
    let complete = vec![
        "MERGE (f:File { path: 'a' })".to_string(),
        "MERGE (fn:Function { name: 'f' })".to_string(),
        "MERGE (m:Module { name: 'm' })".to_string(),
    ];
    assert_eq!(augment_statements(complete.clone(), "def g(", "a"), complete);
    let no_module = vec![complete[0].clone(), complete[1].clone()];
    let q = augment_statements(no_module.clone(), "def g(", "a");
    assert_eq!(q.len(), 2 + 3);
    assert_eq!(q[4], "MERGE (f)-[:CONTAINS]->(fn)");
}

#[test]
fn unsupported_language_and_unparsed_files_use_the_scanner() {
    let registry = ParserRegistry::new();
    let builder = GraphBuilder::new("g");
    let src = "import os\ndef foo():\n    pass\n";
    let q = statements_for_source(&registry, &builder, Language::Unknown, src, "x.txt");
    assert_eq!(q, basic_queries_from_source(src, "x.txt"));
    let q = statements_for_source(&registry, &builder, Language::TypeScript, src, "x.ts");
    assert_eq!(q, basic_queries_from_source(src, "x.ts"));
}

#[test]
fn every_supported_language_yields_function_and_module_statements() {
    let registry = ParserRegistry::new();
    let builder = GraphBuilder::new("g");
    let cases = [
        (Language::Python, "import os\n\ndef foo(x):\n    return x\n"),
        (Language::Java, "import java.util.List;\nclass A { void foo() {} }\n"),
        (Language::JavaScript, "import fs from 'fs';\nfunction foo() {}\n"),
        (Language::Kotlin, "import kotlin.collections.List\nfun foo() {}\n"),
    ];
    for (language, src) in cases {
        let q = statements_for_source(&registry, &builder, language, src, "f");
        assert_eq!(q[0], "MERGE (f:File { path: 'f' })", "{:?}", language);
        assert!(q.iter().any(|s| s.contains("(fn:Function")), "{:?}: {:?}", language, q);
        assert!(q.iter().any(|s| s.contains("(m:Module")), "{:?}: {:?}", language, q);
    }
}

#[test]
fn broken_source_still_yields_statements() {
    let registry = ParserRegistry::new();
    let builder = GraphBuilder::new("g");
    let q = statements_for_source(
        &registry,
        &builder,
        Language::Python,
        "def invalid_syntax(\n    # Missing closing parenthesis\n",
        "bad.py",
    );
    assert_eq!(q[0], "MERGE (f:File { path: 'bad.py' })");
    assert!(q.contains(&"MERGE (fn:Function { name: 'invalid_syntax' })".to_string()));
}

#[test]
fn bytes_that_are_not_text_yield_no_statements() {
    let registry = ParserRegistry::new();
    let builder = GraphBuilder::new("g");
    assert!(statements_for_bytes(&registry, &builder, Language::Python, &[0xff, 0xfe], "b").is_none());
    assert!(statements_for_bytes(&registry, &builder, Language::Python, &[0xc3], "b").is_none());
    let q = statements_for_bytes(
        &registry,
        &builder,
        Language::Unknown,
        "def caf\u{e9}(".as_bytes(),
        "b",
    )
    .unwrap();
    assert_eq!(q[1], "MERGE (fn:Function { name: 'caf\u{e9}' })");
}

#[test]
fn workspace_is_the_default_or_derived_from_the_store_path() {
    let ws = |exists, configured: &str, name: Option<&str>, parent: Option<&str>| {
        resolve_workspace_dir(
            "repo/.ccg".to_string(),
            exists,
            configured.to_string(),
            name,
            parent.map(|p| p.to_string()),
        )
    };
    assert_eq!(ws(true, "repo/store/cas", Some("cas"), Some("repo/store")), "repo/.ccg");
    assert_eq!(ws(false, "repo/store/cas", Some("cas"), Some("repo/store")), "repo/store");
    assert_eq!(ws(false, "cas", Some("cas"), None), "repo/.ccg");
    assert_eq!(ws(false, "repo/cas_store", Some("cas_store"), Some("repo")), "repo/cas_store");
    assert_eq!(ws(false, "/", None, None), "/");
}

#[test]
fn default_configuration_keeps_workspace_and_store_below_the_tree() {
    let ws = resolve_run_workspace(
        true,
        "repo/.ccg".to_string(),
        false,
        "elsewhere/cas".to_string(),
        Some("cas"),
        Some("elsewhere".to_string()),
    );
    assert_eq!(ws, "repo/.ccg");
    let store = resolve_run_store(true, "repo/.ccg/cas".to_string(), "elsewhere/cas".to_string());
    assert_eq!(store, "repo/.ccg/cas");
}

#[test]
fn other_configurations_keep_the_configured_store_and_derive_the_workspace() {
    let ws = resolve_run_workspace(
        false,
        "repo/.ccg".to_string(),
        false,
        "elsewhere/cas".to_string(),
        Some("cas"),
        Some("elsewhere".to_string()),
    );
    assert_eq!(ws, "elsewhere");
    let ws = resolve_run_workspace(
        false,
        "repo/.ccg".to_string(),
        false,
        "elsewhere/blobs".to_string(),
        Some("blobs"),
        Some("elsewhere".to_string()),
    );
    assert_eq!(ws, "elsewhere/blobs");
    let ws = resolve_run_workspace(
        false,
        "repo/.ccg".to_string(),
        true,
        "elsewhere/cas".to_string(),
        Some("cas"),
        Some("elsewhere".to_string()),
    );
    assert_eq!(ws, "repo/.ccg");
    let store = resolve_run_store(false, "repo/.ccg/cas".to_string(), "elsewhere/cas".to_string());
    assert_eq!(store, "elsewhere/cas");
}

#[test]
fn only_well_formed_utf8_is_text() {
    let registry = ParserRegistry::new();
    let builder = GraphBuilder::new("g");
    let is_text =
        |bytes: &[u8]| statements_for_bytes(&registry, &builder, Language::Unknown, bytes, "b").is_some();
    // Overlong forms, surrogates, values past the last scalar, stray and
    // missing continuation bytes.
    assert!(!is_text(&[0xc0, 0x80]));
    assert!(!is_text(&[0xc1, 0xbf]));
    assert!(!is_text(&[0xe0, 0x80, 0x80]));
    assert!(!is_text(&[0xe0, 0x9f, 0xbf]));
    assert!(!is_text(&[0xed, 0xa0, 0x80]));
    assert!(!is_text(&[0xed, 0xbf, 0xbf]));
    assert!(!is_text(&[0xf0, 0x80, 0x80, 0x80]));
    assert!(!is_text(&[0xf0, 0x8f, 0xbf, 0xbf]));
    assert!(!is_text(&[0xf4, 0x90, 0x80, 0x80]));
    assert!(!is_text(&[0xf5, 0x80, 0x80, 0x80]));
    assert!(!is_text(&[0x80]));
    assert!(!is_text(&[0xe2, 0x82]));
    assert!(!is_text(&[b'a', 0xe2, 0x82, b'a']));
    // The ends of each width.
    assert!(is_text(&[]));
    assert!(is_text(&[0x00]));
    assert!(is_text(&[0x7f]));
    assert!(is_text(&[0xc2, 0x80]));
    assert!(is_text(&[0xdf, 0xbf]));
    assert!(is_text(&[0xe0, 0xa0, 0x80]));
    assert!(is_text(&[0xed, 0x9f, 0xbf]));
    assert!(is_text(&[0xee, 0x80, 0x80]));
    assert!(is_text(&[0xef, 0xbf, 0xbf]));
    assert!(is_text(&[0xf0, 0x90, 0x80, 0x80]));
    assert!(is_text(&[0xf4, 0x8f, 0xbf, 0xbf]));
}
