use code_context_graph::ast::{ASTNode, MetaValue, NodeLocation};
use code_context_graph::node_type::ASTNodeType;

#[test]
fn test_ast_node_creation() {
    let location = NodeLocation::new(1, 0, 1, 10, 0, 10);
    let node = ASTNode::new(
        ASTNodeType::FunctionDeclaration,
        Some("test_func".to_string()),
        location,
    );

    assert_eq!(node.node_type, ASTNodeType::FunctionDeclaration);
    assert_eq!(node.name, Some("test_func".to_string()));
    assert!(node.children.is_empty());
    assert!(node.metadata.is_empty());
}

#[test]
fn test_node_metadata() {
    let location = NodeLocation::new(1, 0, 1, 10, 0, 10);
    let mut node = ASTNode::new(
        ASTNodeType::FunctionDeclaration,
        Some("test_func".to_string()),
        location,
    );

    node.add_metadata("visibility", MetaValue::Text("public".to_string()));
    node.add_metadata("parameters", MetaValue::List(vec!["a".to_string(), "b".to_string()]));

    assert_eq!(node.get_text("visibility"), Some("public".to_string()));
    assert_eq!(node.get_list("parameters"), Some(vec!["a".to_string(), "b".to_string()]));
}

#[test]
fn test_location_contains() {
    let outer = NodeLocation::new(1, 0, 10, 0, 0, 100);
    let inner = NodeLocation::new(2, 0, 5, 0, 10, 50);
    let outside = NodeLocation::new(11, 0, 15, 0, 101, 150);

    assert!(outer.contains(&inner));
    assert!(!outer.contains(&outside));
    assert!(!inner.contains(&outer));
}

#[test]
fn test_find_children_by_type() {
    let location = NodeLocation::new(1, 0, 10, 0, 0, 100);
    let mut root = ASTNode::new(ASTNodeType::Program, None, location);

    let func1 = ASTNode::new(ASTNodeType::FunctionDeclaration, Some("func1".to_string()), location);
    let func2 = ASTNode::new(ASTNodeType::FunctionDeclaration, Some("func2".to_string()), location);
    let class1 = ASTNode::new(ASTNodeType::ClassDeclaration, Some("Class1".to_string()), location);

    root.add_child(func1);
    root.add_child(func2);
    root.add_child(class1);

    let functions = root.find_children_by_type(&ASTNodeType::FunctionDeclaration);
    assert_eq!(functions.len(), 2);

    let classes = root.find_children_by_type(&ASTNodeType::ClassDeclaration);
    assert_eq!(classes.len(), 1);
}
