use code_context_graph::api::{LlmContextRequest, LlmFocus, QueryRequest, DEFAULT_TOKEN_BUDGET};
use code_context_graph::ast::{ASTNode, MetaValue, NodeLocation};
use code_context_graph::config::{
    ApiConfig, EngineConfig, FalkorDBConfig, FileWatcherConfig, LoggingConfig, ParserConfig,
    PartialApi, PartialEngine, PartialParser, PartialVersioning, QualityMetricsConfig,
    VersioningConfig,
};
use code_context_graph::detector::LanguageDetector;
use code_context_graph::error::CodeGraphError;
use code_context_graph::hash;
use code_context_graph::model::{relation_name, CodeNode, Relation};
use code_context_graph::node_type::ASTNodeType;
use code_context_graph::registry::{ParserRegistry, PythonParser};
use code_context_graph::test_utils::{assert_valid_location, same_value, TestUtils};
use code_context_graph::text::{
    byte_span, chars_of, contains_text, decimal_of, find, less_than,
    replace, string_of, trim,
};
use code_context_graph::types::{ConnascenceType, Language, NodeType, RelationType};

fn chars(s: &str) -> Vec<char> {
    s.chars().collect()
}

fn text(v: Vec<char>) -> String {
    v.into_iter().collect()
}

#[test]
fn text_conversions_round_trip() {
    assert_eq!(chars_of("a\u{e9}\u{1f600}"), vec!['a', '\u{e9}', '\u{1f600}']);
    assert_eq!(string_of(&['a', '\u{e9}', '\u{1f600}']), "a\u{e9}\u{1f600}");
    assert_eq!(string_of(&[]), "");
}

#[test]
fn find_returns_the_first_occurrence_at_or_after_the_start() {
    let hay = chars("abcabc");
    assert_eq!(find(&hay, &chars("bc"), 0), Some(1));
    assert_eq!(find(&hay, &chars("bc"), 2), Some(4));
    assert_eq!(find(&hay, &chars("bc"), 5), None);
    assert_eq!(find(&hay, &chars(""), 6), Some(6));
    assert_eq!(find(&hay, &chars(""), 7), None);
    assert_eq!(find(&hay, &chars("abcabcd"), 0), None);
    assert!(contains_text(&hay, &chars("cab")));
    assert!(!contains_text(&hay, &chars("cb")));
}

#[test]
fn replace_trim_and_decimal() {
    assert_eq!(text(replace(&chars("a\\b\\"), '\\', &chars("/"))), "a/b/");
    assert_eq!(text(replace(&chars("aXa"), 'a', &chars(""))), "X");
    assert_eq!(text(trim(&chars(" \t\n x y \u{a0}\u{3000}"))), "x y");
    assert_eq!(text(trim(&chars("   "))), "");
    assert_eq!(text(decimal_of(0)), "0");
    assert_eq!(text(decimal_of(9)), "9");
    assert_eq!(text(decimal_of(10)), "10");
    assert_eq!(text(decimal_of(1024)), "1024");
    assert_eq!(text(decimal_of(u64::MAX)), "18446744073709551615");
}

#[test]
fn texts_are_ordered_by_their_characters() {
    assert!(less_than(&chars("a"), &chars("b")));
    assert!(less_than(&chars("a"), &chars("aa")));
    assert!(less_than(&chars(""), &chars("a")));
    assert!(less_than(&chars("Z"), &chars("a")));
    assert!(less_than(&chars("a/b"), &chars("a0")));
    assert!(!less_than(&chars("a"), &chars("a")));
    assert!(!less_than(&chars("b"), &chars("a")));
    assert!(!less_than(&chars(""), &chars("")));
}

#[test]
fn byte_span_of_the_whole_and_of_nothing() {
    assert_eq!(byte_span("abc", 0, 3), Some("abc"));
    assert_eq!(byte_span("abc", 3, 3), Some(""));
    assert_eq!(byte_span("abc", 0, 4), None);
    assert_eq!(byte_span("", 0, 0), Some(""));
}

#[test]
fn detector_knows_further_extensions_and_ignores_case() {
    assert_eq!(LanguageDetector::detect_from_path("build.gradle.kts"), Language::Kotlin);
    assert_eq!(LanguageDetector::detect_from_path("mod.mjs"), Language::JavaScript);
    assert_eq!(LanguageDetector::detect_from_path("dir.py/Main.JAVA"), Language::Java);
    assert_eq!(LanguageDetector::detect_from_path("A.Py"), Language::Python);
    assert_eq!(LanguageDetector::detect_from_path(".py"), Language::Unknown);
    assert_eq!(LanguageDetector::detect_from_path("a.txt"), Language::Unknown);
    assert_eq!(LanguageDetector::detect_from_extension(Some("KTS")), Language::Kotlin);
    assert_eq!(LanguageDetector::detect_from_extension(Some("pyw")), Language::Unknown);
    assert_eq!(LanguageDetector::detect_from_extension(None), Language::Unknown);
    assert_eq!(Language::from_extension("py"), Language::Python);
    assert_eq!(Language::from_extension("PY"), Language::Unknown);
    assert_eq!(Language::from_extension("kts"), Language::Unknown);
    assert_eq!(Language::from_extension("ts"), Language::TypeScript);
}

#[test]
fn detector_reads_content_keywords() {
    assert_eq!(
        LanguageDetector::detect_from_content("FUNCTION f(a: number) {}"),
        Language::TypeScript
    );
    assert_eq!(LanguageDetector::detect_from_content("package x"), Language::Java);
    assert_eq!(LanguageDetector::detect_from_content("import x {"), Language::Java);
    assert_eq!(LanguageDetector::detect_from_content("print(1)"), Language::Python);
    assert_eq!(LanguageDetector::detect_from_content("nothing here"), Language::Unknown);
    assert_eq!(LanguageDetector::detect_from_content(""), Language::Unknown);
    assert!(LanguageDetector::is_supported(&Language::TypeScript));
    assert_eq!(LanguageDetector::get_file_patterns(&Language::Kotlin), vec!["*.kt", "*.kts"]);
    assert!(LanguageDetector::get_file_patterns(&Language::Unknown).is_empty());
}

#[test]
fn errors_describe_themselves() {
    let cases = [
        (CodeGraphError::Io { message: "m".into() }, "IO error: m"),
        (CodeGraphError::Serialization { message: "m".into() }, "Serialization error: m"),
        (CodeGraphError::Parser { message: "m".into() }, "Parser error: m"),
        (CodeGraphError::Storage { message: "m".into() }, "Storage error: m"),
        (CodeGraphError::Graph { message: "m".into() }, "Graph error: m"),
        (CodeGraphError::Hash { message: "m".into() }, "Hash error: m"),
        (CodeGraphError::Config { message: "m".into() }, "Configuration error: m"),
        (CodeGraphError::Connascence { message: "m".into() }, "Connascence analysis error: m"),
    ];
    for (e, expected) in cases {
        assert_eq!(e.describe(), expected);
    }
}

#[test]
fn parse_errors_name_the_language() {
    let registry = ParserRegistry::new();
    match registry.parse("x", Language::TypeScript) {
        Err(CodeGraphError::Parser { message }) => {
            assert_eq!(message, "No parser registered for language: TypeScript")
        },
        other => panic!("{:?}", other.map(|a| a.language)),
    }
    assert_eq!(
        registry.supported_languages(),
        vec![Language::Python, Language::Java, Language::JavaScript, Language::Kotlin]
    );
    assert_eq!(PythonParser::supported_extensions(), vec!["py", "pyw"]);
    let mut parser = PythonParser::new().unwrap();
    let first = parser.parse("x = 1\n").unwrap();
    let again = parser.parse_with_old_tree("x = 1\n", None).unwrap();
    assert_eq!(first.root, again.root);
}

#[test]
fn configuration_defaults() {
    let engine = EngineConfig::default();
    assert_eq!(engine.name, "code-context-graph");
    assert_eq!(engine.languages, vec!["python", "javascript", "java", "kotlin"]);
    let parser = ParserConfig::default();
    assert_eq!(parser.max_file_size_kb, 1024);
    assert_eq!(parser.ignore_patterns, vec!["*_test.py", "*.min.js"]);
    let falkor = FalkorDBConfig::default();
    assert_eq!(falkor.url, "redis://localhost:6379");
    assert_eq!(falkor.graph_name, "code_graph");
    let watcher = FileWatcherConfig::default();
    assert!(watcher.enabled && watcher.recursive);
    assert_eq!(watcher.debounce_ms, 100);
    assert_eq!(watcher.batch_threshold, 50);
    assert_eq!(watcher.ignore_patterns, vec![".git", "node_modules", "target"]);
    let versioning = VersioningConfig::default();
    assert_eq!(versioning.merkle_tree_fanout, 16);
    assert_eq!(versioning.max_versions, 1000);
    assert_eq!(versioning.auto_snapshot_interval, 3600);
    assert!(versioning.enabled);
    let quality = QualityMetricsConfig::default();
    assert_eq!(quality.maintainability_threshold, 65);
    assert_eq!(quality.complexity_warning, 10);
    let api = ApiConfig::default();
    assert_eq!(api.port, 8080);
    assert_eq!(api.max_context_size, 8192);
    let logging = LoggingConfig::default();
    assert_eq!(logging.level, "info");
    assert_eq!(logging.format, "json");
}

#[test]
fn a_partial_section_overrides_only_what_it_gives() {
    let parser = ParserConfig::default().overlay(PartialParser {
        max_file_size_kb: Some(1),
        ignore_patterns: None,
    });
    assert_eq!(parser.max_file_size_kb, 1);
    assert_eq!(parser.ignore_patterns, vec!["*_test.py", "*.min.js"]);
    let engine = EngineConfig::default().overlay(PartialEngine {
        name: None,
        languages: Some(vec!["python".to_string()]),
    });
    assert_eq!(engine.name, "code-context-graph");
    assert_eq!(engine.languages, vec!["python"]);
    let versioning = VersioningConfig::default().overlay(PartialVersioning {
        enabled: Some(false),
        max_versions: None,
        auto_snapshot_interval: None,
        merkle_tree_fanout: Some(4),
    });
    assert_eq!(
        versioning,
        VersioningConfig {
            enabled: false,
            max_versions: 1000,
            auto_snapshot_interval: 3600,
            merkle_tree_fanout: 4,
        }
    );
    let api = ApiConfig::default().overlay(PartialApi {
        port: Some(9000),
        max_context_size: None,
        enable_version_api: None,
        enable_quality_api: Some(false),
        enable_aase_api: None,
    });
    assert_eq!(api.port, 9000);
    assert!(api.enable_version_api && !api.enable_quality_api && api.enable_aase_api);
}

#[test]
fn requests_fall_back_to_latest_and_the_default_budget() {
    let q = QueryRequest {
        question: None,
        max_hops: None,
        include_code: None,
        include_quality_metrics: None,
        version: None,
    };
    assert_eq!(q.effective_version(), "latest");
    let c = LlmContextRequest {
        focus: LlmFocus { kind: "function".to_string(), id: "f".to_string() },
        version: Some("v7".to_string()),
        token_budget: None,
        max_hops: None,
        top_k: None,
    };
    assert_eq!(c.effective_version(), "v7");
    assert_eq!(c.effective_token_budget(), 12000);
    assert_eq!(DEFAULT_TOKEN_BUDGET, 12000);
    let c = LlmContextRequest { token_budget: Some(5), ..c };
    assert_eq!(c.effective_token_budget(), 5);
}

#[test]
fn graph_nodes_and_relations_are_identified_by_digest() {
    let n = CodeNode::new(
        NodeType::Function,
        "foo".to_string(),
        Language::Kotlin,
        "src/a.kt".to_string(),
        (3, 17),
    );
    assert_eq!(n.id, hash::Hash::from_string("src/a.kt:2:foo:3-17"));
    assert!(n.metadata.is_empty());
    let a = hash::Hash::new(b"a");
    let b = hash::Hash::new(b"b");
    let r = Relation::new(a.clone(), b.clone(), RelationType::Calls);
    assert_eq!(r.id, hash::Hash::from_string(&format!("{}->{}:Calls", a.as_str(), b.as_str())));
    assert_eq!(relation_name(RelationType::Contains), "Contains");
    assert_eq!(
        relation_name(RelationType::HasConnascence(ConnascenceType::Timing)),
        "HasConnascence(Timing)"
    );
    assert_eq!(a.to_hex_string(), a.as_str());
}

#[test]
fn node_helpers() {
    let loc = NodeLocation::new(1, 0, 1, 3, 1, 4);
    let mut node = ASTNode::new(ASTNodeType::CallExpression, Some("n".to_string()), loc);
    assert!(node.is_expression() && !node.is_declaration());
    assert_eq!(node.get_text_content("a\u{e9}bc"), "\u{e9}b");
    assert_eq!(node.get_text_content("a\u{e9}"), "");
    assert_eq!(node.get_text_content("a"), "");
    node.add_metadata("flag", MetaValue::Bool(true));
    node.add_metadata("flag", MetaValue::Bool(false));
    assert_eq!(node.get_bool("flag"), Some(false));
    assert_eq!(node.get_text("flag"), None);
    assert_eq!(node.get_list("none"), None);
    assert_eq!(node.metadata.len(), 1);
    let mut root = ASTNode::new(ASTNodeType::Program, None, loc);
    let mut inner = ASTNode::new(ASTNodeType::BlockStatement, None, loc);
    inner.add_child(node.clone());
    root.add_child(inner);
    root.add_child(ASTNode::new(ASTNodeType::Identifier, Some("n".to_string()), loc));
    assert_eq!(root.find_child_by_name("n").unwrap().node_type, ASTNodeType::CallExpression);
    assert!(root.find_child_by_name("absent").is_none());
    assert_eq!(root.clone(), root);
    assert!(ASTNode::new(ASTNodeType::ClassDeclaration, None, loc).is_declaration());
    assert!(loc.overlaps(&NodeLocation::new(0, 0, 0, 0, 3, 9)));
    assert!(!loc.overlaps(&NodeLocation::new(0, 0, 0, 0, 4, 9)));
    assert!(ASTNodeType::Other("a".into()).same(&ASTNodeType::Other("a".into())));
    assert!(!ASTNodeType::Other("a".into()).same(&ASTNodeType::Other("b".into())));
    assert_eq!(ASTNodeType::Other("a".into()).label(), "Other(\"a\")");
    assert_eq!(ASTNodeType::Lambda.duplicate(), ASTNodeType::Lambda);
    assert_eq!(
        ASTNodeType::from_tree_sitter_kind("class_declaration", Language::Python),
        ASTNodeType::Other("class_declaration".to_string())
    );
    assert_eq!(
        ASTNodeType::from_tree_sitter_kind("class_declaration", Language::Kotlin),
        ASTNodeType::ClassDeclaration
    );
    assert_eq!(
        ASTNodeType::from_tree_sitter_kind("float", Language::Unknown),
        ASTNodeType::Literal
    );
}

#[test]
fn location_checks_and_test_helpers() {
    let src = "ab\ncd\n";
    assert!(assert_valid_location(&NodeLocation::new(1, 0, 2, 2, 0, 6), src));
    assert!(!assert_valid_location(&NodeLocation::new(0, 0, 2, 2, 0, 6), src));
    assert!(!assert_valid_location(&NodeLocation::new(3, 0, 3, 0, 0, 6), src));
    assert!(!assert_valid_location(&NodeLocation::new(2, 0, 1, 0, 0, 6), src));
    assert!(!assert_valid_location(&NodeLocation::new(1, 0, 1, 0, 6, 6), src));
    assert!(!assert_valid_location(&NodeLocation::new(1, 0, 1, 0, 0, 7), src));
    assert!(TestUtils::assert_parsing_succeeds("class A {}", Language::Java));
    // A Java tree is rooted in a program, a Python tree in a module.
    assert!(TestUtils::assert_parsing_handles_errors("class Broken {", Language::Java));
    assert!(!TestUtils::assert_parsing_handles_errors("def broken(", Language::Python));
    assert!(TestUtils::assert_parsing_handles_errors("x", Language::Unknown));
    assert!(same_value(&MetaValue::List(vec!["a".into()]), &MetaValue::List(vec!["a".into()])));
    assert!(!same_value(&MetaValue::Text("1".into()), &MetaValue::Number(1)));
    let ast = TestUtils::parse_source("class A:\n    pass\n", Language::Python).unwrap();
    assert!(TestUtils::assert_contains_node_types(
        &ast,
        &vec![ASTNodeType::Module, ASTNodeType::ClassDeclaration]
    ));
    assert!(!TestUtils::assert_contains_node_types(&ast, &vec![ASTNodeType::Lambda]));
    assert!(TestUtils::assert_metadata(
        &ast.root,
        "language",
        &MetaValue::Text("Python".to_string())
    ));
}

#[test]
fn trimming_takes_off_exactly_the_white_space_characters() {
    let white = [
        '\u{9}', '\u{a}', '\u{b}', '\u{c}', '\u{d}', ' ', '\u{85}', '\u{a0}', '\u{1680}',
        '\u{2000}', '\u{2001}', '\u{2002}', '\u{2003}', '\u{2004}', '\u{2005}', '\u{2006}',
        '\u{2007}', '\u{2008}', '\u{2009}', '\u{200a}', '\u{2028}', '\u{2029}', '\u{202f}',
        '\u{205f}', '\u{3000}',
    ];
    for c in white {
        assert_eq!(trim(&[c, 'a', c]), vec!['a'], "{:?}", c);
    }
    let other = [
        '\u{8}', '\u{e}', '\u{1f}', '\u{84}', '\u{86}', '\u{9f}', '\u{a1}', '\u{180e}',
        '\u{1fff}', '\u{200b}', '\u{200d}', '\u{2027}', '\u{202a}', '\u{2060}', '\u{2fff}',
        '\u{3001}', '\u{feff}', '_', '0',
    ];
    for c in other {
        assert_eq!(trim(&[c, 'a', c]), vec![c, 'a', c], "{:?}", c);
    }
}

#[test]
fn no_other_character_is_trimmed() {
    let listed = |c: char| {
        ('\u{9}'..='\u{d}').contains(&c)
            || c == ' '
            || c == '\u{85}'
            || c == '\u{a0}'
            || c == '\u{1680}'
            || ('\u{2000}'..='\u{200a}').contains(&c)
            || c == '\u{2028}'
            || c == '\u{2029}'
            || c == '\u{202f}'
            || c == '\u{205f}'
            || c == '\u{3000}'
    };
    for c in '\u{0}'..=char::MAX {
        assert_eq!(trim(&[c]).is_empty(), listed(c), "{:?}", c);
    }
}
