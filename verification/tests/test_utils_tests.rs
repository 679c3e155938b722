use code_context_graph::node_type::ASTNodeType;
use code_context_graph::test_utils::{create_simple_test_ast, TestUtils};
use code_context_graph::types::Language;

#[test]
fn test_utils_test_parse_simple_java() {
    let source = "class Test { void method() {} }";
    assert!(TestUtils::assert_parsing_succeeds(source, Language::Java));
}

#[test]
fn test_node_counting() {
    let ast = create_simple_test_ast();
    assert!(TestUtils::assert_node_count(&ast, &ASTNodeType::ClassDeclaration, 1));
    assert!(TestUtils::assert_node_count(&ast, &ASTNodeType::MethodDeclaration, 1));
    assert!(TestUtils::assert_node_count(&ast, &ASTNodeType::FunctionDeclaration, 1));
}

#[test]
fn test_named_node_finding() {
    let ast = create_simple_test_ast();
    assert!(TestUtils::assert_contains_named_node(&ast, "TestClass", &ASTNodeType::ClassDeclaration));
    assert!(TestUtils::assert_contains_named_node(&ast, "testMethod", &ASTNodeType::MethodDeclaration));
    assert!(TestUtils::assert_contains_named_node(&ast, "testFunction", &ASTNodeType::FunctionDeclaration));
}

#[test]
fn measuring_a_parse_counts_every_node_of_the_tree() {
    let source = "class Test { void method() {} }";
    let ast = TestUtils::parse_source(source, Language::Java).unwrap();
    let metrics =
        code_context_graph::test_utils::measure_parsing_performance(source, Language::Java)
            .unwrap();
    fn nodes(node: &code_context_graph::ast::ASTNode) -> usize {
        1 + node.children.iter().map(nodes).sum::<usize>()
    }
    fn entries(node: &code_context_graph::ast::ASTNode) -> usize {
        node.metadata.len() + node.children.iter().map(entries).sum::<usize>()
    }
    assert_eq!(metrics.ast_node_count, nodes(&ast.root));
    assert!(metrics.ast_node_count > 3);
    assert_eq!(
        metrics.memory_used_kb,
        std::mem::size_of::<code_context_graph::simplified::SimplifiedAST>()
            + nodes(&ast.root) * std::mem::size_of::<code_context_graph::ast::ASTNode>()
            + entries(&ast.root) * std::mem::size_of::<String>()
    );
}

#[test]
fn measuring_fails_where_the_parse_fails() {
    let failed =
        code_context_graph::test_utils::measure_parsing_performance("x", Language::Unknown);
    assert!(failed.is_err());
}

#[test]
fn weighing_adds_up_nodes_and_entries_and_stops_at_the_greatest_number() {
    let ast = code_context_graph::test_utils::create_simple_test_ast();
    assert_eq!(code_context_graph::test_utils::weigh(&ast.root, 1, 0), 4);
    assert_eq!(code_context_graph::test_utils::weigh(&ast.root, 10, 0), 40);
    assert_eq!(code_context_graph::test_utils::weigh(&ast.root, 0, 0), 0);
    assert_eq!(code_context_graph::test_utils::weigh(&ast.root, usize::MAX, 0), usize::MAX);
    assert_eq!(code_context_graph::test_utils::weigh(&ast.root, usize::MAX / 2, 7), usize::MAX);
}
