use code_context_graph::ast::{ASTNode, NodeLocation};
use code_context_graph::node_type::ASTNodeType;
use code_context_graph::simplified::SimplifiedAST;
use code_context_graph::types::Language;

#[test]
fn test_simplified_ast_creation() {
    let location = NodeLocation::new(1, 0, 10, 0, 0, 100);
    let root = ASTNode::new(ASTNodeType::Program, None, location);
    let source = "test source";

    let ast = SimplifiedAST::new(root, Language::Python, source);

    assert_eq!(ast.language, Language::Python);
    assert_eq!(ast.source_hash, code_context_graph::hash::Hash::from_string(source));
}

#[test]
fn test_find_functions() {
    let location = NodeLocation::new(1, 0, 10, 0, 0, 100);
    let mut root = ASTNode::new(ASTNodeType::Program, None, location);

    let func1 = ASTNode::new(ASTNodeType::FunctionDeclaration, Some("func1".to_string()), location);
    let func2 = ASTNode::new(ASTNodeType::FunctionDeclaration, Some("func2".to_string()), location);

    root.add_child(func1);
    root.add_child(func2);

    let ast = SimplifiedAST::new(root, Language::Python, "test");
    let functions = ast.find_all_functions();

    assert_eq!(functions.len(), 2);
}
