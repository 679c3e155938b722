use code_context_graph::ast::{ASTNode, MetaValue, NodeLocation};
use code_context_graph::mermaid::ClassDiagramExporter;
use code_context_graph::node_type::ASTNodeType;
use code_context_graph::simplified::SimplifiedAST;
use code_context_graph::types::Language;

fn loc() -> NodeLocation {
    NodeLocation::new(1, 0, 1, 1, 0, 1)
}

fn two_classes() -> SimplifiedAST {
    let mut root = ASTNode::new(ASTNodeType::Program, None, loc());
    let class_a = ASTNode::new(ASTNodeType::ClassDeclaration, Some("A".into()), loc());
    let mut class_b = ASTNode::new(ASTNodeType::ClassDeclaration, Some("B".into()), loc());
    class_b.add_metadata("extends", MetaValue::Text("A".to_string()));
    root.add_child(class_a);
    root.add_child(class_b);
    SimplifiedAST::new(root, Language::Java, "")
}

#[test]
fn generates_inheritance_diagram() {
    // Build a minimal AST: root -> class A, class B (extends A)
    let mut root = ASTNode::new(ASTNodeType::Program, None, loc());

    let class_a = ASTNode::new(ASTNodeType::ClassDeclaration, Some("A".into()), loc());

    let mut class_b = ASTNode::new(ASTNodeType::ClassDeclaration, Some("B".into()), loc());
    class_b.add_metadata("extends", MetaValue::Text("A".to_string()));

    root.add_child(class_a);
    root.add_child(class_b);

    let ast = SimplifiedAST::new(root, Language::Java, "");

    let mermaid = ClassDiagramExporter::from_ast(&ast);

    let expected_lines = vec![
        "classDiagram",
        "class A",
        "class B",
        "A <|-- B",
    ];

    for line in expected_lines {
        assert!(mermaid.contains(line), "missing line: {}\noutput:\n{}", line, mermaid);
    }
}

#[test]
fn diagram_text_is_exact() {
    assert_eq!(
        ClassDiagramExporter::from_ast(&two_classes()),
        "classDiagram\nclass A\nclass B\nA <|-- B\n"
    );
}

#[test]
fn filter_hides_classes_and_the_inheritance_that_touches_them() {
    let only_b = vec!["B".to_string()];
    assert_eq!(
        ClassDiagramExporter::from_ast_with_filter(&two_classes(), Some(&only_b)),
        "classDiagram\nclass B\n"
    );
    let both = vec!["B".to_string(), "A".to_string()];
    assert_eq!(
        ClassDiagramExporter::from_ast_with_filter(&two_classes(), Some(&both)),
        "classDiagram\nclass A\nclass B\nA <|-- B\n"
    );
}

#[test]
fn a_class_declared_twice_is_listed_once() {
    let mut root = ASTNode::new(ASTNodeType::Program, None, loc());
    root.add_child(ASTNode::new(ASTNodeType::ClassDeclaration, Some("A".into()), loc()));
    root.add_child(ASTNode::new(ASTNodeType::ClassDeclaration, Some("A".into()), loc()));
    root.add_child(ASTNode::new(ASTNodeType::ClassDeclaration, None, loc()));
    let ast = SimplifiedAST::new(root, Language::Java, "");
    assert_eq!(ClassDiagramExporter::from_ast(&ast), "classDiagram\nclass A\n");
}
