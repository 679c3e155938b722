use code_context_graph::ast::{ASTNode, NodeLocation};
use code_context_graph::error::CodeGraphError;
use code_context_graph::node_type::ASTNodeType;
use code_context_graph::registry::{CustomParser, ParserRegistry};
use code_context_graph::simplified::SimplifiedAST;
use code_context_graph::types::Language;

/// A parser that hands back one node with the name it was made with, or
/// fails where it was made with none.
struct Fixed(Option<&'static str>);

impl CustomParser for Fixed {
    fn parse(&self, source: &str) -> Result<SimplifiedAST, CodeGraphError> {
        match self.0 {
            Some(name) => {
                let root = ASTNode::new(
                    ASTNodeType::Program,
                    Some(name.to_string()),
                    NodeLocation::new(1, 0, 1, 0, 0, 0),
                );
                Ok(SimplifiedAST::new(root, Language::TypeScript, source))
            }
            None => Err(CodeGraphError::Parser { message: "custom".to_string() }),
        }
    }
}

#[test]
fn test_registry_creation() {
    let registry = ParserRegistry::new();

    assert!(registry.supports_language(&Language::Python));
    assert!(registry.supports_language(&Language::Java));
    assert!(registry.supports_language(&Language::JavaScript));
    assert!(registry.supports_language(&Language::Kotlin));
    assert!(!registry.supports_language(&Language::Unknown));
}

#[test]
fn test_supported_languages() {
    let registry = ParserRegistry::new();
    let languages = registry.supported_languages();

    assert!(languages.contains(&Language::Python));
    assert!(languages.contains(&Language::Java));
    assert!(languages.contains(&Language::JavaScript));
    assert!(languages.contains(&Language::Kotlin));
}

#[test]
fn test_unsupported_language() {
    let registry = ParserRegistry::new();
    let result = registry.parse("some code", Language::Unknown);

    assert!(result.is_err());
}

#[test]
fn a_custom_parser_parses_its_language() {
    let mut registry = ParserRegistry::new();
    assert!(!registry.supports_language(&Language::TypeScript));
    registry.register_custom_parser(Language::TypeScript, Box::new(Fixed(Some("first"))));
    assert!(registry.supports_language(&Language::TypeScript));
    let ast = registry.parse("let x: number = 1;", Language::TypeScript).unwrap();
    assert_eq!(ast.root.name.as_deref(), Some("first"));
    assert!(registry.parse("x", Language::Unknown).is_err());
    let python = registry.parse("def f():\n    pass\n", Language::Python).unwrap();
    assert_eq!(python.language, Language::Python);
}

#[test]
fn the_parser_registered_last_for_a_language_parses_it() {
    let mut registry = ParserRegistry::new();
    registry.register_custom_parser(Language::TypeScript, Box::new(Fixed(Some("first"))));
    registry.register_custom_parser(Language::Python, Box::new(Fixed(None)));
    registry.register_custom_parser(Language::TypeScript, Box::new(Fixed(Some("second"))));
    let ast = registry.parse("x", Language::TypeScript).unwrap();
    assert_eq!(ast.root.name.as_deref(), Some("second"));
    match registry.parse("def f():\n    pass\n", Language::Python) {
        Err(CodeGraphError::Parser { message }) => assert_eq!(message, "custom"),
        _ => panic!("the custom parser stands in place of the engine's"),
    }
    assert!(registry.parse("class A {}", Language::Java).is_ok());
}

#[test]
fn supported_languages_lists_each_language_once() {
    let mut registry = ParserRegistry::new();
    registry.register_custom_parser(Language::TypeScript, Box::new(Fixed(Some("a"))));
    registry.register_custom_parser(Language::Python, Box::new(Fixed(None)));
    registry.register_custom_parser(Language::Unknown, Box::new(Fixed(None)));
    registry.register_custom_parser(Language::TypeScript, Box::new(Fixed(Some("b"))));
    assert_eq!(
        registry.supported_languages(),
        vec![
            Language::Python,
            Language::Java,
            Language::JavaScript,
            Language::Kotlin,
            Language::TypeScript,
            Language::Unknown,
        ]
    );
    assert_eq!(
        ParserRegistry::new().supported_languages(),
        vec![Language::Python, Language::Java, Language::JavaScript, Language::Kotlin]
    );
}
