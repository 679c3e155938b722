use code_context_graph::ast::{ASTNode, MetaValue, NodeLocation};
use code_context_graph::entity::{EntityExtractor, EntityType};
use code_context_graph::error::CodeGraphError;
use code_context_graph::metrics::MetadataCollector;
use code_context_graph::node_type::ASTNodeType;
use code_context_graph::relation::{RelationExtractor, RelationType};
use code_context_graph::simplified::SimplifiedAST;
use code_context_graph::test_utils::create_simple_test_ast;
use code_context_graph::types::Language;
use code_context_graph::visitor::{
    combine, visit_children, ASTVisitor, CompositeVisitor, FilterVisitor, VisitResult,
    VisitorContext, WalkingVisitor,
};

struct TestVisitor {
    visited_nodes: Vec<String>,
}

impl ASTVisitor for TestVisitor {
    type Output = Vec<String>;

    fn visit_ast(
        &mut self,
        ast: &SimplifiedAST,
        context: &mut VisitorContext,
    ) -> Result<Self::Output, CodeGraphError> {
        self.visit_node(&ast.root, context)?;
        Ok(self.visited_nodes.clone())
    }

    fn visit_node(
        &mut self,
        node: &ASTNode,
        context: &mut VisitorContext,
    ) -> Result<VisitResult, CodeGraphError> {
        self.visited_nodes.push(format!("{:?}", node.node_type));
        visit_children(self, node, context)
    }
}

fn java_context() -> VisitorContext {
    VisitorContext::new(
        Language::Java,
        "class TestClass { void testMethod() {} }".to_string(),
        "test.java".to_string(),
    )
}

fn loc() -> NodeLocation {
    NodeLocation::new(1, 0, 10, 0, 0, 100)
}

#[test]
fn test_visitor_context() {
    let mut context = VisitorContext::new(
        Language::Python,
        "test source".to_string(),
        "test.py".to_string(),
    );

    context.push_scope("module".to_string());
    context.push_scope("class".to_string());

    assert_eq!(context.current_scope_path(), "module::class");

    assert_eq!(context.pop_scope(), Some("class".to_string()));
    assert_eq!(context.current_scope_path(), "module");
}

#[test]
fn test_filter_visitor() {
    let location = NodeLocation::new(1, 0, 10, 0, 0, 100);
    let mut root = ASTNode::new(ASTNodeType::Program, None, location);

    let func1 = ASTNode::new(ASTNodeType::FunctionDeclaration, Some("func1".to_string()), location);
    let func2 = ASTNode::new(ASTNodeType::FunctionDeclaration, Some("func2".to_string()), location);
    let class1 = ASTNode::new(ASTNodeType::ClassDeclaration, Some("Class1".to_string()), location);

    root.add_child(func1);
    root.add_child(func2);
    root.add_child(class1);

    let ast = SimplifiedAST::new(root, Language::Python, "test");
    let mut context = VisitorContext::new(Language::Python, "test".to_string(), "test.py".to_string());

    let mut filter_visitor = FilterVisitor::new(|node: &ASTNode, _: &VisitorContext| {
        matches!(node.node_type, ASTNodeType::FunctionDeclaration)
    });

    let functions = filter_visitor.visit_ast(&ast, &mut context).unwrap();
    assert_eq!(functions.len(), 2);
}

#[test]
fn context_outside_every_scope_has_an_empty_path_and_pops_nothing() {
    let mut context = java_context();
    assert_eq!(context.current_scope_path(), "");
    assert_eq!(context.pop_scope(), None);
    context.push_scope("only".to_string());
    assert_eq!(context.current_scope_path(), "only");
}

#[test]
fn context_metadata_replaces_what_a_key_held() {
    let mut context = java_context();
    context.add_metadata("k", MetaValue::Number(1));
    context.add_metadata("other", MetaValue::Bool(true));
    context.add_metadata("k", MetaValue::Number(2));
    assert_eq!(context.get_metadata("k"), Some(&MetaValue::Number(2)));
    assert_eq!(context.get_metadata("other"), Some(&MetaValue::Bool(true)));
    assert_eq!(context.get_metadata("absent"), None);
    assert_eq!(context.metadata.len(), 2);
}

#[test]
fn combine_prefers_stop_then_skip() {
    assert_eq!(combine(VisitResult::Continue, VisitResult::Continue), VisitResult::Continue);
    assert_eq!(combine(VisitResult::Continue, VisitResult::Skip), VisitResult::Skip);
    assert_eq!(combine(VisitResult::Skip, VisitResult::Continue), VisitResult::Skip);
    assert_eq!(combine(VisitResult::Skip, VisitResult::Stop), VisitResult::Stop);
    assert_eq!(combine(VisitResult::Stop, VisitResult::Continue), VisitResult::Stop);
}

#[test]
fn user_visitor_walks_every_node_in_depth_first_order() {
    let ast = create_simple_test_ast();
    let mut context = java_context();
    let mut walker = WalkingVisitor::new(TestVisitor { visited_nodes: Vec::new() });
    let visited = walker.walk(&ast, &mut context).unwrap();
    assert_eq!(
        visited,
        vec!["Program", "ClassDeclaration", "MethodDeclaration", "FunctionDeclaration"]
    );
}

#[test]
fn composite_visitor_runs_both_and_returns_the_first_output() {
    let ast = create_simple_test_ast();
    let mut context = java_context();
    let mut both = CompositeVisitor::new(EntityExtractor::new(), RelationExtractor::new());
    let entities = both.visit_ast(&ast, &mut context).unwrap();
    assert_eq!(entities.len(), 3);
}

#[test]
fn entity_extractor_names_kinds_and_scopes() {
    let ast = create_simple_test_ast();
    let mut context = java_context();
    let mut extractor = EntityExtractor::new();
    let entities = extractor.visit_ast(&ast, &mut context).unwrap();
    let seen: Vec<(String, EntityType)> =
        entities.iter().map(|e| (e.name.clone(), e.entity_type)).collect();
    assert_eq!(
        seen,
        vec![
            ("TestClass".to_string(), EntityType::Class),
            ("testMethod".to_string(), EntityType::Method),
            ("testFunction".to_string(), EntityType::Function),
        ]
    );
    assert_eq!(entities[0].visibility, Some("public".to_string()));
    assert!(entities[0].modifiers.is_empty());
    assert!(context.current_scope.is_empty());
}

#[test]
fn function_inside_a_class_is_a_method() {
    let mut root = ASTNode::new(ASTNodeType::Program, None, loc());
    let mut class = ASTNode::new(ASTNodeType::ClassDeclaration, Some("C".to_string()), loc());
    class.add_child(ASTNode::new(ASTNodeType::FunctionDeclaration, Some("f".to_string()), loc()));
    class.add_child(ASTNode::new(ASTNodeType::FunctionDeclaration, None, loc()));
    root.add_child(class);
    let ast = SimplifiedAST::new(root, Language::Python, "");
    let mut context = java_context();
    let entities = EntityExtractor::new().visit_ast(&ast, &mut context).unwrap();
    assert_eq!(entities.len(), 2);
    assert_eq!(entities[1].name, "f");
    assert_eq!(entities[1].entity_type, EntityType::Method);
}

#[test]
fn relation_extractor_finds_inheritance_calls_and_imports() {
    let mut root = ASTNode::new(ASTNodeType::Program, None, loc());
    root.add_child(ASTNode::new(ASTNodeType::ImportDeclaration, Some("os".to_string()), loc()));
    let mut class = ASTNode::new(ASTNodeType::ClassDeclaration, Some("Dog".to_string()), loc());
    class.add_metadata("extends", MetaValue::Text("Animal".to_string()));
    class.add_metadata("implements", MetaValue::List(vec!["Runnable".to_string()]));
    let mut method = ASTNode::new(ASTNodeType::MethodDeclaration, Some("bark".to_string()), loc());
    method.add_child(ASTNode::new(ASTNodeType::CallExpression, Some("print".to_string()), loc()));
    method.add_child(ASTNode::new(ASTNodeType::MemberExpression, Some("name".to_string()), loc()));
    class.add_child(method);
    root.add_child(class);
    root.add_child(ASTNode::new(ASTNodeType::CallExpression, Some("orphan".to_string()), loc()));
    let ast = SimplifiedAST::new(root, Language::Java, "");
    let mut context = java_context();
    let relations = RelationExtractor::new().visit_ast(&ast, &mut context).unwrap();
    let seen: Vec<(String, String, RelationType)> = relations
        .iter()
        .map(|r| (r.from_entity.clone(), r.to_entity.clone(), r.relation_type))
        .collect();
    assert_eq!(
        seen,
        vec![
            ("current_module".to_string(), "os".to_string(), RelationType::ImportModule),
            ("Dog".to_string(), "Animal".to_string(), RelationType::Inheritance),
            ("Dog".to_string(), "Runnable".to_string(), RelationType::Inheritance),
            ("Dog::bark".to_string(), "print".to_string(), RelationType::CallsFunction),
            ("Dog::bark".to_string(), "name".to_string(), RelationType::AccessesField),
        ]
    );
    assert!(relations[1].metadata.is_empty());
    assert_eq!(
        relations[2].metadata,
        vec![("interface".to_string(), MetaValue::Bool(true))]
    );
    assert!(context.current_scope.is_empty());
}

#[test]
fn metadata_collector_counts_and_measures() {
    let mut root = ASTNode::new(ASTNodeType::Program, None, loc());
    let mut f = ASTNode::new(
        ASTNodeType::FunctionDeclaration,
        Some("f".to_string()),
        NodeLocation::new(3, 0, 7, 0, 0, 10),
    );
    f.add_metadata("imports", MetaValue::List(vec!["zlib".to_string(), "os".to_string()]));
    f.add_child(ASTNode::new(ASTNodeType::VariableDeclaration, Some("a".to_string()), loc()));
    f.add_child(ASTNode::new(ASTNodeType::IfStatement, None, loc()));
    f.add_child(ASTNode::new(ASTNodeType::CallExpression, Some("os".to_string()), loc()));
    f.add_child(ASTNode::new(ASTNodeType::CallExpression, Some("abs".to_string()), loc()));
    root.add_child(f);
    root.add_child(ASTNode::new(ASTNodeType::ClassDeclaration, Some("C".to_string()), loc()));
    root.add_child(ASTNode::new(ASTNodeType::Decorator, None, loc()));
    let ast = SimplifiedAST::new(root, Language::Python, "");
    let mut context = VisitorContext::new(
        Language::Python,
        "a\nb\n\nc".to_string(),
        "x.py".to_string(),
    );
    let (metrics, measures) = MetadataCollector::new().visit_ast(&ast, &mut context).unwrap();
    assert_eq!(metrics.total_files, 1);
    assert_eq!(metrics.total_lines, 4);
    assert_eq!(metrics.classes_count, 1);
    assert_eq!(metrics.functions_count, 1);
    assert_eq!(metrics.methods_count, 0);
    assert_eq!(metrics.variables_count, 1);
    assert_eq!(
        metrics.language_specific,
        vec![
            ("decorators_count".to_string(), MetaValue::Number(1)),
            ("comprehensions_count".to_string(), MetaValue::Number(0)),
        ]
    );
    assert_eq!(measures.len(), 2);
    assert_eq!(measures[0].entity_name, "f");
    assert_eq!(measures[0].entity_type, "function");
    // One for each of the five nodes, one more for the `if`.
    assert_eq!(measures[0].cyclomatic_complexity, 6);
    assert_eq!(measures[0].lines_of_code, 5);
    assert_eq!(measures[0].parameters_count, 1);
    assert_eq!(measures[0].dependencies, vec!["abs", "os", "zlib"]);
    assert_eq!(measures[1].entity_type, "class");
    assert_eq!(measures[1].cyclomatic_complexity, 1);
    assert_eq!(metrics.complexity_sum, 7);
}

struct Scripted {
    seen: Vec<String>,
    stop_at: &'static str,
    skip_at: &'static str,
    fail_at: &'static str,
}

fn scripted(stop_at: &'static str, skip_at: &'static str, fail_at: &'static str) -> Scripted {
    Scripted { seen: Vec::new(), stop_at, skip_at, fail_at }
}

impl ASTVisitor for Scripted {
    type Output = Vec<String>;

    fn visit_ast(
        &mut self,
        ast: &SimplifiedAST,
        context: &mut VisitorContext,
    ) -> Result<Self::Output, CodeGraphError> {
        self.visit_node(&ast.root, context)?;
        Ok(self.seen.clone())
    }

    fn visit_node(
        &mut self,
        node: &ASTNode,
        _context: &mut VisitorContext,
    ) -> Result<VisitResult, CodeGraphError> {
        let name = node.name.clone().unwrap_or_default();
        self.seen.push(name.clone());
        if name == self.fail_at {
            Err(CodeGraphError::Parser { message: name })
        } else if name == self.stop_at {
            Ok(VisitResult::Stop)
        } else if name == self.skip_at {
            Ok(VisitResult::Skip)
        } else {
            Ok(VisitResult::Continue)
        }
    }
}

fn named(name: &str) -> ASTNode {
    ASTNode::new(ASTNodeType::FunctionDeclaration, Some(name.to_string()), loc())
}

fn root_with_three() -> ASTNode {
    let mut root = named("root");
    let mut a = named("a");
    a.add_child(named("below_a"));
    root.add_child(a);
    root.add_child(named("b"));
    root.add_child(named("c"));
    root
}

#[test]
fn visit_children_ends_at_the_first_stop() {
    let mut context = java_context();
    let mut visitor = scripted("b", "-", "-");
    let r = visit_children(&mut visitor, &root_with_three(), &mut context);
    assert!(matches!(r, Ok(VisitResult::Stop)));
    assert_eq!(visitor.seen, vec!["a", "b"]);
}

#[test]
fn visit_children_goes_on_after_skip_and_answers_continue() {
    let mut context = java_context();
    let mut visitor = scripted("-", "a", "-");
    let r = visit_children(&mut visitor, &root_with_three(), &mut context);
    assert!(matches!(r, Ok(VisitResult::Continue)));
    assert_eq!(visitor.seen, vec!["a", "b", "c"]);
}

#[test]
fn visit_children_hands_on_the_first_failure() {
    let mut context = java_context();
    let mut visitor = scripted("c", "-", "b");
    let r = visit_children(&mut visitor, &root_with_three(), &mut context);
    match r {
        Err(CodeGraphError::Parser { message }) => assert_eq!(message, "b"),
        _ => panic!("the failure of the second child is the result"),
    }
    assert_eq!(visitor.seen, vec!["a", "b"]);
}

#[test]
fn visit_children_of_a_leaf_visits_nothing() {
    let mut context = java_context();
    let mut visitor = scripted("-", "-", "-");
    let r = visit_children(&mut visitor, &named("leaf"), &mut context);
    assert!(matches!(r, Ok(VisitResult::Continue)));
    assert!(visitor.seen.is_empty());
}

#[test]
fn walk_node_visits_the_children_only_after_continue() {
    let mut context = java_context();
    let mut walker = WalkingVisitor::new(scripted("-", "-", "-"));
    assert!(walker.walk_node(&root_with_three(), &mut context).is_ok());
    assert_eq!(walker.into_inner().seen, vec!["root", "a", "b", "c"]);

    let mut skipping = WalkingVisitor::new(scripted("-", "root", "-"));
    assert!(skipping.walk_node(&root_with_three(), &mut context).is_ok());
    assert_eq!(skipping.into_inner().seen, vec!["root"]);

    let mut stopping = WalkingVisitor::new(scripted("root", "-", "-"));
    assert!(stopping.walk_node(&root_with_three(), &mut context).is_ok());
    assert_eq!(stopping.into_inner().seen, vec!["root"]);
}

#[test]
fn walk_node_fails_where_the_node_or_a_child_fails() {
    let mut context = java_context();
    let mut at_root = WalkingVisitor::new(scripted("-", "-", "root"));
    assert!(at_root.walk_node(&root_with_three(), &mut context).is_err());
    assert_eq!(at_root.into_inner().seen, vec!["root"]);

    let mut at_child = WalkingVisitor::new(scripted("-", "-", "b"));
    assert!(at_child.walk_node(&root_with_three(), &mut context).is_err());
    assert_eq!(at_child.into_inner().seen, vec!["root", "a", "b"]);

    let mut stopped = WalkingVisitor::new(scripted("a", "-", "b"));
    assert!(stopped.walk_node(&root_with_three(), &mut context).is_ok());
    assert_eq!(stopped.into_inner().seen, vec!["root", "a"]);
}

#[test]
fn composite_visitor_takes_both_answers_together() {
    let mut context = java_context();
    let node = named("n");

    let mut both = CompositeVisitor::new(scripted("-", "-", "-"), scripted("-", "n", "-"));
    assert!(matches!(both.visit_node(&node, &mut context), Ok(VisitResult::Skip)));

    let mut stops_first = CompositeVisitor::new(scripted("n", "-", "-"), scripted("-", "-", "n"));
    assert!(matches!(stops_first.visit_node(&node, &mut context), Ok(VisitResult::Stop)));

    let mut stops_second = CompositeVisitor::new(scripted("-", "n", "-"), scripted("n", "-", "-"));
    assert!(matches!(stops_second.visit_node(&node, &mut context), Ok(VisitResult::Stop)));

    let mut fails_second = CompositeVisitor::new(scripted("-", "-", "-"), scripted("-", "-", "n"));
    assert!(fails_second.visit_node(&node, &mut context).is_err());

    let mut fails_first = CompositeVisitor::new(scripted("-", "-", "n"), scripted("-", "-", "-"));
    assert!(fails_first.visit_node(&node, &mut context).is_err());
}

#[test]
fn composite_visitor_fails_where_either_visit_of_the_tree_fails() {
    let mut context = java_context();
    let ast = SimplifiedAST::new(named("n"), Language::Java, "n");

    let mut both = CompositeVisitor::new(scripted("-", "-", "-"), scripted("-", "-", "-"));
    assert_eq!(both.visit_ast(&ast, &mut context).unwrap(), vec!["n"]);

    let mut fails_second = CompositeVisitor::new(scripted("-", "-", "-"), scripted("-", "-", "n"));
    assert!(fails_second.visit_ast(&ast, &mut context).is_err());

    let mut fails_first = CompositeVisitor::new(scripted("-", "-", "n"), scripted("-", "-", "-"));
    assert!(fails_first.visit_ast(&ast, &mut context).is_err());
}

#[test]
fn filter_visitor_collects_in_depth_first_order_and_keeps_earlier_finds() {
    let mut context = java_context();
    let ast = SimplifiedAST::new(root_with_three(), Language::Java, "n");
    let mut short_names = FilterVisitor::new(|node: &ASTNode, _: &VisitorContext| {
        node.name.as_deref().map_or(false, |n| n != "b")
    });

    let first = short_names.visit_ast(&ast, &mut context).unwrap();
    let names: Vec<&str> = first.iter().map(|n| n.name.as_deref().unwrap()).collect();
    assert_eq!(names, vec!["root", "a", "below_a", "c"]);
    assert_eq!(first[1].children.len(), 1);

    let answer = short_names.visit_node(&named("later"), &mut context);
    assert!(matches!(answer, Ok(VisitResult::Continue)));
    let second = short_names.visit_ast(&ast, &mut context).unwrap();
    let names: Vec<&str> = second.iter().map(|n| n.name.as_deref().unwrap()).collect();
    assert_eq!(
        names,
        vec!["root", "a", "below_a", "c", "later", "root", "a", "below_a", "c"]
    );
}

#[test]
fn filter_visitor_that_accepts_nothing_collects_nothing() {
    let mut context = java_context();
    let ast = SimplifiedAST::new(root_with_three(), Language::Java, "n");
    let mut none = FilterVisitor::new(|_: &ASTNode, _: &VisitorContext| false);
    assert!(none.visit_ast(&ast, &mut context).unwrap().is_empty());
}
