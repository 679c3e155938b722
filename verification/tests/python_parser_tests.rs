use code_context_graph::node_type::ASTNodeType;
use code_context_graph::registry::PythonParser;
use code_context_graph::types::Language;

#[test]
fn test_python_parser_creation() {
    let parser = PythonParser::new();
    assert!(parser.is_ok());
}

#[test]
fn test_parse_simple_python() {
    let mut parser = PythonParser::new().unwrap();
    let source = r#"
def hello_world():
    print("Hello, World!")

class MyClass:
    def __init__(self):
        self.value = 42
    
    def get_value(self):
        return self.value
"#;

    let ast = parser.parse(source).unwrap();
    assert_eq!(ast.language, Language::Python);

    let functions = ast.find_all_functions();
    assert!(functions.len() >= 2); // hello_world, __init__, get_value

    let classes = ast.find_all_classes();
    assert_eq!(classes.len(), 1);
    assert_eq!(classes[0].name, Some("MyClass".to_string()));
}

#[test]
fn test_parse_python_with_imports() {
    let mut parser = PythonParser::new().unwrap();
    let source = r#"
import os
from datetime import datetime
import json as js

def process_data():
    data = js.loads('{"key": "value"}')
    return data
"#;

    let ast = parser.parse(source).unwrap();

    let imports = ast.find_all_imports();
    assert!(imports.len() >= 2); // import os, from datetime import datetime, import json as js

    let functions = ast.find_all_functions();
    assert_eq!(functions.len(), 1);
    assert_eq!(functions[0].name, Some("process_data".to_string()));
}

#[test]
fn test_parse_python_with_decorators() {
    let mut parser = PythonParser::new().unwrap();
    let source = r#"
@property
def my_property(self):
    return self._value

@staticmethod
@lru_cache(maxsize=128)
def cached_function(x):
    return x * 2
"#;

    let ast = parser.parse(source).unwrap();

    let functions = ast.find_all_functions();
    assert_eq!(functions.len(), 2);

    // Check for decorator metadata
    let decorated_func = functions.iter()
        .find(|f| f.name == Some("cached_function".to_string()))
        .unwrap();

    let decorators: Option<Vec<String>> = decorated_func.get_list("decorators");
    assert!(decorators.is_some());
}

#[test]
fn test_parse_python_class_inheritance() {
    let mut parser = PythonParser::new().unwrap();
    let source = r#"
class Animal:
    def speak(self):
        pass

class Dog(Animal):
    def speak(self):
        return "Woof!"

class Cat(Animal):
    def speak(self):
        return "Meow!"
"#;

    let ast = parser.parse(source).unwrap();

    let classes = ast.find_all_classes();
    assert_eq!(classes.len(), 3);

    // Check for inheritance metadata
    let dog_class = classes.iter()
        .find(|c| c.name == Some("Dog".to_string()))
        .unwrap();

    let base_classes: Option<Vec<String>> = dog_class.get_list("base_classes");
    assert!(base_classes.is_some());
    if let Some(bases) = base_classes {
        assert!(bases.contains(&"Animal".to_string()));
    }
}

#[test]
fn test_is_python_file() {
    assert!(PythonParser::is_python_file("test.py"));
    assert!(PythonParser::is_python_file("script.pyw"));
    assert!(!PythonParser::is_python_file("test.java"));
    assert!(!PythonParser::is_python_file("README"));
}

#[test]
fn test_parse_syntax_error() {
    let mut parser = PythonParser::new().unwrap();
    let source = r#"
def invalid_syntax(
    # Missing closing parenthesis and proper body
"#;

    // Tree-sitter should still parse this, but might produce error nodes
    let result = parser.parse(source);
    assert!(result.is_ok()); // Tree-sitter is resilient to syntax errors
}

#[test]
fn python_test_incremental_parsing() {
    let mut parser = PythonParser::new().unwrap();
    let original_source = r#"
def original_function():
    return "original"
"#;

    let ast1 = parser.parse(original_source).unwrap();

    let modified_source = r#"
def original_function():
    return "modified"

def new_function():
    return "new"
"#;

    let ast2 = parser.parse(modified_source).unwrap();

    let functions1 = ast1.find_all_functions();
    let functions2 = ast2.find_all_functions();

    assert_eq!(functions1.len(), 1);
    assert_eq!(functions2.len(), 2);
}
