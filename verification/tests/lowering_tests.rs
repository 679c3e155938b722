use code_context_graph::ast::{MetaValue, NodeLocation};
use code_context_graph::enrich::{
    extract_java_extends, extract_kotlin_modifiers, extract_kotlin_parents,
    extract_python_decorators, node_metadata,
};
use code_context_graph::extract::{extract_import_name, find_name_child, remove_all, strip, text_of};
use code_context_graph::hash;
use code_context_graph::lowering::{convert_node, location_of, should_include_node};
use code_context_graph::node_type::ASTNodeType;
use code_context_graph::simplified::SimplifiedAST;
use code_context_graph::syntax::SyntaxNode;
use code_context_graph::types::Language;

fn node(kind: &str, named: bool, start: usize, end: usize, children: Vec<SyntaxNode>) -> SyntaxNode {
    SyntaxNode {
        kind: kind.to_string(),
        is_named: named,
        start_row: 0,
        start_column: start,
        end_row: 0,
        end_column: end,
        start_byte: start,
        end_byte: end,
        children,
    }
}

fn leaf(kind: &str, named: bool, start: usize, end: usize) -> SyntaxNode {
    node(kind, named, start, end, Vec::new())
}

fn chars(s: &str) -> Vec<char> {
    s.chars().collect()
}

fn text(v: Vec<char>) -> String {
    v.into_iter().collect()
}

#[test]
fn node_text_is_cut_by_bytes_on_character_boundaries() {
    let src = "a\u{e9}b";
    assert_eq!(text_of(&leaf("x", true, 0, 4), src), Some("a\u{e9}b"));
    assert_eq!(text_of(&leaf("x", true, 1, 3), src), Some("\u{e9}"));
    assert_eq!(text_of(&leaf("x", true, 2, 2), src), Some(""));
    assert_eq!(text_of(&leaf("x", true, 1, 2), src), None);
    assert_eq!(text_of(&leaf("x", true, 2, 4), src), None);
    assert_eq!(text_of(&leaf("x", true, 3, 1), src), None);
    assert_eq!(text_of(&leaf("x", true, 0, 5), src), None);
}

#[test]
fn punctuation_comments_and_stray_tokens_are_dropped() {
    for kind in ["(", ")", "[", "]", "{", "}", ";", ",", ".", ":", "comment", "line_comment"] {
        assert!(!should_include_node(&leaf(kind, true, 0, 0), Language::Python), "{}", kind);
    }
    assert!(should_include_node(&leaf("anything", true, 0, 0), Language::Java));
    assert!(should_include_node(&leaf("def", false, 0, 0), Language::Python));
    assert!(!should_include_node(&leaf("def", false, 0, 0), Language::Java));
    assert!(should_include_node(&leaf("static", false, 0, 0), Language::Java));
    assert!(should_include_node(&leaf("const", false, 0, 0), Language::JavaScript));
    assert!(should_include_node(&leaf("sealed", false, 0, 0), Language::Kotlin));
    assert!(!should_include_node(&leaf("=", false, 0, 0), Language::Kotlin));
    // A language without a keyword list keeps every token that is not noise.
    assert!(should_include_node(&leaf("=", false, 0, 0), Language::TypeScript));
    assert!(!should_include_node(&leaf(";", false, 0, 0), Language::Unknown));
}

#[test]
fn locations_count_lines_from_one() {
    let n = SyntaxNode {
        kind: "x".to_string(),
        is_named: true,
        start_row: 0,
        start_column: 4,
        end_row: 2,
        end_column: 1,
        start_byte: 4,
        end_byte: 30,
        children: Vec::new(),
    };
    assert_eq!(location_of(&n), NodeLocation::new(1, 4, 3, 1, 4, 30));
    let huge = SyntaxNode {
        kind: "x".to_string(),
        is_named: true,
        start_row: usize::MAX,
        start_column: usize::MAX,
        end_row: u32::MAX as usize - 1,
        end_column: 0,
        start_byte: u32::MAX as usize,
        end_byte: usize::MAX,
        children: Vec::new(),
    };
    assert_eq!(
        location_of(&huge),
        NodeLocation::new(u32::MAX, u32::MAX, u32::MAX, 0, u32::MAX, u32::MAX)
    );
}

#[test]
fn declaration_name_is_the_first_name_depth_first() {
    let src = "class Foo(Bar): x";
    let tree = node(
        "class_definition",
        true,
        0,
        17,
        vec![
            leaf("class", false, 0, 5),
            node("wrapper", true, 6, 9, vec![leaf("identifier", true, 6, 9)]),
            leaf("identifier", true, 10, 13),
        ],
    );
    assert_eq!(find_name_child(&tree, src), Some("Foo".to_string()));
    assert_eq!(find_name_child(&leaf("x", true, 0, 1), src), None);
    // A name node whose text cannot be had is passed over.
    let odd = node(
        "f",
        true,
        0,
        17,
        vec![leaf("identifier", true, 0, 99), leaf("type_identifier", true, 10, 13)],
    );
    assert_eq!(find_name_child(&odd, src), Some("Bar".to_string()));
}

#[test]
fn import_name_is_unquoted_or_taken_from_a_scoped_identifier() {
    let src = "import \"'fs'\" a.b";
    let quoted = node("import_statement", true, 0, 17, vec![leaf("string_literal", true, 7, 13)]);
    assert_eq!(extract_import_name(&quoted, src), Some("fs".to_string()));
    let scoped = node(
        "import_declaration",
        true,
        0,
        17,
        vec![
            leaf("import", false, 0, 6),
            node("scoped_identifier", true, 14, 17, vec![leaf("identifier", true, 16, 17)]),
            leaf("dotted_name", true, 14, 17),
        ],
    );
    assert_eq!(extract_import_name(&scoped, src), Some("b".to_string()));
    assert_eq!(extract_import_name(&leaf("import_statement", true, 0, 6), src), None);
    assert_eq!(text(strip(&chars("\"\"a\"b\"\""), '"')), "a\"b");
    assert_eq!(text(strip(&chars("''''"), '\'')), "");
    assert_eq!(text(remove_all(&chars("extends extends A extends "), &chars("extends "))), "A ");
    assert_eq!(text(remove_all(&chars("aaa"), &chars("aa"))), "a");
    assert_eq!(text(remove_all(&chars("abc"), &chars(""))), "abc");
}

#[test]
fn python_decorators_come_from_the_node_or_its_decorated_definition() {
    let src = "@a @b def f";
    let function = node("function_definition", true, 6, 11, vec![leaf("def", false, 6, 9)]);
    let parent = node(
        "decorated_definition",
        true,
        0,
        11,
        vec![leaf("decorator", true, 0, 2), leaf("decorator", true, 3, 5)],
    );
    assert_eq!(extract_python_decorators(&function, Some(&parent), src), vec!["@a", "@b"]);
    assert!(extract_python_decorators(&function, None, src).is_empty());
    let other = node("block", true, 0, 11, vec![leaf("decorator", true, 0, 2)]);
    assert!(extract_python_decorators(&function, Some(&other), src).is_empty());
    let own = node("function_definition", true, 0, 11, vec![leaf("decorator", true, 3, 5)]);
    assert_eq!(extract_python_decorators(&own, Some(&parent), src), vec!["@b"]);
}

#[test]
fn java_extends_prefers_the_type_identifier() {
    let src = "class A extends  B  {}";
    let with_id = node(
        "class_declaration",
        true,
        0,
        22,
        vec![node("superclass", true, 8, 18, vec![leaf("type_identifier", true, 17, 18)])],
    );
    assert_eq!(extract_java_extends(&with_id, src), Some("B".to_string()));
    let without = node("class_declaration", true, 0, 22, vec![leaf("superclass", true, 8, 20)]);
    assert_eq!(extract_java_extends(&without, src), Some(" B".to_string()));
    // The keyword alone, once trimmed, no longer ends in a space and stays.
    let keyword = node("class_declaration", true, 0, 22, vec![leaf("superclass", true, 8, 16)]);
    assert_eq!(extract_java_extends(&keyword, src), Some("extends".to_string()));
    let blank = node("class_declaration", true, 0, 22, vec![leaf("superclass", true, 15, 17)]);
    assert_eq!(extract_java_extends(&blank, src), None);
}

#[test]
fn kotlin_modifiers_and_parents() {
    let src = "open data class A : B(1), C";
    let class = node(
        "class_declaration",
        true,
        0,
        27,
        vec![
            node(
                "modifiers",
                true,
                0,
                9,
                vec![leaf("inheritance_modifier", true, 0, 4), leaf("class_modifier", true, 5, 9)],
            ),
            leaf("data", false, 5, 9),
            leaf("class", false, 10, 15),
            node(
                "delegation_specifiers",
                true,
                20,
                27,
                vec![
                    node(
                        "constructor_invocation",
                        true,
                        20,
                        24,
                        vec![leaf("type_identifier", true, 20, 21)],
                    ),
                    leaf("user_type", true, 26, 27),
                    leaf(",", false, 24, 25),
                ],
            ),
        ],
    );
    assert_eq!(
        extract_kotlin_modifiers(&class, src),
        vec!["open data", "open", "data", "data"]
    );
    assert_eq!(extract_kotlin_parents(&class, src), Some(vec![
        "B".to_string(),
        "B".to_string(),
        "C".to_string(),
    ]));
    assert_eq!(extract_kotlin_parents(&leaf("class_declaration", true, 0, 27), src), None);
}

#[test]
fn every_node_gets_kind_named_language_and_short_text() {
    let src = "x".repeat(150);
    let short = node_metadata(&leaf("identifier", true, 0, 99), None, &src, Language::Unknown);
    assert_eq!(
        short,
        vec![
            ("kind".to_string(), MetaValue::Text("identifier".to_string())),
            ("is_named".to_string(), MetaValue::Bool(true)),
            ("language".to_string(), MetaValue::Text("Unknown".to_string())),
            ("text".to_string(), MetaValue::Text("x".repeat(99))),
        ]
    );
    let long = node_metadata(&leaf("+", false, 0, 100), None, &src, Language::Python);
    assert_eq!(
        long,
        vec![
            ("kind".to_string(), MetaValue::Text("+".to_string())),
            ("is_named".to_string(), MetaValue::Bool(false)),
            ("language".to_string(), MetaValue::Text("Python".to_string())),
        ]
    );
}

#[test]
fn javascript_functions_are_flagged_async_and_generator() {
    let src = "async function* f() {}";
    let f = node(
        "function_declaration",
        true,
        0,
        22,
        vec![leaf("async", false, 0, 5), leaf("function", false, 6, 14), leaf("*", false, 14, 15)],
    );
    let meta = node_metadata(&f, None, src, Language::JavaScript);
    assert_eq!(meta[4], ("async".to_string(), MetaValue::Bool(true)));
    assert_eq!(meta[5], ("generator".to_string(), MetaValue::Bool(true)));
    assert_eq!(meta.len(), 6);
    // The same node in another language gets no such flags.
    assert_eq!(node_metadata(&f, None, src, Language::Python).len(), 4);
}

#[test]
fn lowering_keeps_the_kept_children_in_order() {
    let src = "def foo(x): pass";
    let tree = node(
        "module",
        true,
        0,
        16,
        vec![node(
            "function_definition",
            true,
            0,
            16,
            vec![
                leaf("def", false, 0, 3),
                leaf("identifier", true, 4, 7),
                node(
                    "parameters",
                    true,
                    7,
                    10,
                    vec![leaf("(", false, 7, 8), leaf("identifier", true, 8, 9), leaf(")", false, 9, 10)],
                ),
                leaf(":", false, 10, 11),
                leaf("comment", true, 11, 11),
                leaf("pass_statement", true, 12, 16),
            ],
        )],
    );
    let root = convert_node(&tree, None, src, Language::Python);
    assert_eq!(root.node_type, ASTNodeType::Module);
    assert_eq!(root.name, None);
    assert_eq!(root.children.len(), 1);
    let f = &root.children[0];
    assert_eq!(f.node_type, ASTNodeType::FunctionDeclaration);
    assert_eq!(f.name, Some("foo".to_string()));
    assert_eq!(f.location, NodeLocation::new(1, 0, 1, 16, 0, 16));
    let kinds: Vec<ASTNodeType> = f.children.iter().map(|c| c.node_type.clone()).collect();
    assert_eq!(
        kinds,
        vec![
            ASTNodeType::Other("def".to_string()),
            ASTNodeType::Identifier,
            ASTNodeType::Other("parameters".to_string()),
            ASTNodeType::Other("pass_statement".to_string()),
        ]
    );
    assert_eq!(f.children[1].name, Some("foo".to_string()));
    assert_eq!(f.children[2].children.len(), 1);
    assert_eq!(f.children[2].children[0].name, Some("x".to_string()));
    assert_eq!(f.get_text("kind"), Some("function_definition".to_string()));
    assert_eq!(f.get_text("text"), Some(src.to_string()));
    assert_eq!(f.id, hash::Hash::from_string("FunctionDeclaration:foo:1:0"));
    assert_eq!(
        f.children[0].id,
        hash::Hash::from_string("Other(\"def\")::1:0")
    );

    let ast = SimplifiedAST::from_tree_sitter(&tree, src, Language::Python).unwrap();
    assert_eq!(ast.root, root);
    assert_eq!(ast.language, Language::Python);
    assert_eq!(ast.source_hash, hash::Hash::from_string(src));
    assert_eq!(ast.find_all_functions().len(), 1);
}
