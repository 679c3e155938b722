//! The closed vocabulary of node types that every grammar is lowered to, and
//! the mapping from a grammar's node kinds onto it.

use vstd::prelude::*;
use vstd::string::*;
use crate::text::{chars_of, is_text};
use crate::types::Language;

verus! {

/// The type of a node of the simplified syntax tree.
#[derive(Debug, Clone, PartialEq, Eq, Hash)]
pub enum ASTNodeType {
    Program,
    Module,
    ClassDeclaration,
    FunctionDeclaration,
    MethodDeclaration,
    VariableDeclaration,
    ImportDeclaration,
    TypeDeclaration,
    InterfaceDeclaration,
    EnumDeclaration,
    CallExpression,
    MemberExpression,
    Identifier,
    Literal,
    AssignmentExpression,
    BinaryExpression,
    UnaryExpression,
    ExpressionStatement,
    ReturnStatement,
    IfStatement,
    ForStatement,
    WhileStatement,
    BlockStatement,
    Decorator,
    Annotation,
    Lambda,
    Comprehension,
    Other(String),
}

/// A node type as a plain value: the grammar kind of `Other` as text.
pub enum NodeKind {
    Program,
    Module,
    ClassDeclaration,
    FunctionDeclaration,
    MethodDeclaration,
    VariableDeclaration,
    ImportDeclaration,
    TypeDeclaration,
    InterfaceDeclaration,
    EnumDeclaration,
    CallExpression,
    MemberExpression,
    Identifier,
    Literal,
    AssignmentExpression,
    BinaryExpression,
    UnaryExpression,
    ExpressionStatement,
    ReturnStatement,
    IfStatement,
    ForStatement,
    WhileStatement,
    BlockStatement,
    Decorator,
    Annotation,
    Lambda,
    Comprehension,
    Other(Seq<char>),
}

impl View for ASTNodeType {
    type V = NodeKind;

    open spec fn view(&self) -> NodeKind {
        match self {
            ASTNodeType::Program => NodeKind::Program,
            ASTNodeType::Module => NodeKind::Module,
            ASTNodeType::ClassDeclaration => NodeKind::ClassDeclaration,
            ASTNodeType::FunctionDeclaration => NodeKind::FunctionDeclaration,
            ASTNodeType::MethodDeclaration => NodeKind::MethodDeclaration,
            ASTNodeType::VariableDeclaration => NodeKind::VariableDeclaration,
            ASTNodeType::ImportDeclaration => NodeKind::ImportDeclaration,
            ASTNodeType::TypeDeclaration => NodeKind::TypeDeclaration,
            ASTNodeType::InterfaceDeclaration => NodeKind::InterfaceDeclaration,
            ASTNodeType::EnumDeclaration => NodeKind::EnumDeclaration,
            ASTNodeType::CallExpression => NodeKind::CallExpression,
            ASTNodeType::MemberExpression => NodeKind::MemberExpression,
            ASTNodeType::Identifier => NodeKind::Identifier,
            ASTNodeType::Literal => NodeKind::Literal,
            ASTNodeType::AssignmentExpression => NodeKind::AssignmentExpression,
            ASTNodeType::BinaryExpression => NodeKind::BinaryExpression,
            ASTNodeType::UnaryExpression => NodeKind::UnaryExpression,
            ASTNodeType::ExpressionStatement => NodeKind::ExpressionStatement,
            ASTNodeType::ReturnStatement => NodeKind::ReturnStatement,
            ASTNodeType::IfStatement => NodeKind::IfStatement,
            ASTNodeType::ForStatement => NodeKind::ForStatement,
            ASTNodeType::WhileStatement => NodeKind::WhileStatement,
            ASTNodeType::BlockStatement => NodeKind::BlockStatement,
            ASTNodeType::Decorator => NodeKind::Decorator,
            ASTNodeType::Annotation => NodeKind::Annotation,
            ASTNodeType::Lambda => NodeKind::Lambda,
            ASTNodeType::Comprehension => NodeKind::Comprehension,
            ASTNodeType::Other(kind) => NodeKind::Other(kind@),
        }
    }
}

/// The node type that a grammar kind is lowered to in a language.
pub open spec fn kind_of_grammar_node(kind: Seq<char>, language: Language) -> NodeKind {
    if kind == "program"@ || kind == "source_file"@ {
        NodeKind::Program
    } else if kind == "module"@ {
        NodeKind::Module
    } else if (kind == "class_definition"@ && language == Language::Python) || (kind
        == "class_declaration"@ && (language == Language::Java || language == Language::Kotlin
        || language == Language::JavaScript)) || (kind == "object_declaration"@ && language
        == Language::Kotlin) {
        NodeKind::ClassDeclaration
    } else if (kind == "function_definition"@ && language == Language::Python) || kind
        == "function_declaration"@ || ((kind == "function"@ || kind == "arrow_function"@)
        && language == Language::JavaScript) {
        NodeKind::FunctionDeclaration
    } else if kind == "method_declaration"@ || kind == "method_definition"@ || kind
        == "constructor_declaration"@ {
        NodeKind::MethodDeclaration
    } else if (kind == "assignment"@ && language == Language::Python) || kind
        == "variable_declaration"@ || (kind == "local_variable_declaration"@ && language
        == Language::Java) {
        NodeKind::VariableDeclaration
    } else if kind == "import_statement"@ || (kind == "import_from_statement"@ && language
        == Language::Python) || kind == "import_declaration"@ {
        NodeKind::ImportDeclaration
    } else if (kind == "call"@ && language == Language::Python) || kind == "call_expression"@ || (
    kind == "method_invocation"@ && language == Language::Java) {
        NodeKind::CallExpression
    } else if (kind == "attribute"@ && language == Language::Python) || kind
        == "member_expression"@ || (kind == "field_access"@ && language == Language::Java) {
        NodeKind::MemberExpression
    } else if kind == "identifier"@ {
        NodeKind::Identifier
    } else if kind == "string"@ || kind == "integer"@ || kind == "float"@ || kind == "boolean"@ {
        NodeKind::Literal
    } else if kind == "if_statement"@ {
        NodeKind::IfStatement
    } else if kind == "for_statement"@ || kind == "for_in_statement"@ {
        NodeKind::ForStatement
    } else if kind == "while_statement"@ {
        NodeKind::WhileStatement
    } else if kind == "return_statement"@ {
        NodeKind::ReturnStatement
    } else if kind == "block"@ || (kind == "suite"@ && language == Language::Python) {
        NodeKind::BlockStatement
    } else if kind == "interface_declaration"@ {
        NodeKind::InterfaceDeclaration
    } else if kind == "enum_declaration"@ || (kind == "enum_class_declaration"@ && language
        == Language::Kotlin) {
        NodeKind::EnumDeclaration
    } else if kind == "annotation"@ || kind == "modifiers"@ {
        NodeKind::Annotation
    } else if kind == "decorator"@ && language == Language::Python {
        NodeKind::Decorator
    } else if kind == "lambda"@ {
        NodeKind::Lambda
    } else {
        NodeKind::Other(kind)
    }
}

/// The name of a node type as it is written, with the grammar kind of
/// `Other` in brackets and quotes.
pub open spec fn kind_label(k: NodeKind) -> Seq<char> {
    match k {
        NodeKind::Program => "Program"@,
        NodeKind::Module => "Module"@,
        NodeKind::ClassDeclaration => "ClassDeclaration"@,
        NodeKind::FunctionDeclaration => "FunctionDeclaration"@,
        NodeKind::MethodDeclaration => "MethodDeclaration"@,
        NodeKind::VariableDeclaration => "VariableDeclaration"@,
        NodeKind::ImportDeclaration => "ImportDeclaration"@,
        NodeKind::TypeDeclaration => "TypeDeclaration"@,
        NodeKind::InterfaceDeclaration => "InterfaceDeclaration"@,
        NodeKind::EnumDeclaration => "EnumDeclaration"@,
        NodeKind::CallExpression => "CallExpression"@,
        NodeKind::MemberExpression => "MemberExpression"@,
        NodeKind::Identifier => "Identifier"@,
        NodeKind::Literal => "Literal"@,
        NodeKind::AssignmentExpression => "AssignmentExpression"@,
        NodeKind::BinaryExpression => "BinaryExpression"@,
        NodeKind::UnaryExpression => "UnaryExpression"@,
        NodeKind::ExpressionStatement => "ExpressionStatement"@,
        NodeKind::ReturnStatement => "ReturnStatement"@,
        NodeKind::IfStatement => "IfStatement"@,
        NodeKind::ForStatement => "ForStatement"@,
        NodeKind::WhileStatement => "WhileStatement"@,
        NodeKind::BlockStatement => "BlockStatement"@,
        NodeKind::Decorator => "Decorator"@,
        NodeKind::Annotation => "Annotation"@,
        NodeKind::Lambda => "Lambda"@,
        NodeKind::Comprehension => "Comprehension"@,
        NodeKind::Other(kind) => "Other(\""@ + kind + "\")"@,
    }
}

impl ASTNodeType {
    /// The node type that a grammar kind is lowered to in a language.
    pub fn from_tree_sitter_kind(kind: &str, language: Language) -> (r: Self)
        ensures
            r@ == kind_of_grammar_node(kind@, language),
    {
        let k = chars_of(kind);
        let k = k.as_slice();
        let python = language == Language::Python;
        let java = language == Language::Java;
        let kotlin = language == Language::Kotlin;
        let javascript = language == Language::JavaScript;
        if is_text(k, "program") || is_text(k, "source_file") {
            ASTNodeType::Program
        } else if is_text(k, "module") {
            ASTNodeType::Module
        } else if (is_text(k, "class_definition") && python) || (is_text(k, "class_declaration")
            && (java || kotlin || javascript)) || (is_text(k, "object_declaration") && kotlin) {
            ASTNodeType::ClassDeclaration
        } else if (is_text(k, "function_definition") && python) || is_text(
            k,
            "function_declaration",
        ) || ((is_text(k, "function") || is_text(k, "arrow_function")) && javascript) {
            ASTNodeType::FunctionDeclaration
        } else if is_text(k, "method_declaration") || is_text(k, "method_definition") || is_text(
            k,
            "constructor_declaration",
        ) {
            ASTNodeType::MethodDeclaration
        } else if (is_text(k, "assignment") && python) || is_text(k, "variable_declaration") || (
        is_text(k, "local_variable_declaration") && java) {
            ASTNodeType::VariableDeclaration
        } else if is_text(k, "import_statement") || (is_text(k, "import_from_statement") && python)
            || is_text(k, "import_declaration") {
            ASTNodeType::ImportDeclaration
        } else if (is_text(k, "call") && python) || is_text(k, "call_expression") || (is_text(
            k,
            "method_invocation",
        ) && java) {
            ASTNodeType::CallExpression
        } else if (is_text(k, "attribute") && python) || is_text(k, "member_expression") || (
        is_text(k, "field_access") && java) {
            ASTNodeType::MemberExpression
        } else if is_text(k, "identifier") {
            ASTNodeType::Identifier
        } else if is_text(k, "string") || is_text(k, "integer") || is_text(k, "float") || is_text(
            k,
            "boolean",
        ) {
            ASTNodeType::Literal
        } else if is_text(k, "if_statement") {
            ASTNodeType::IfStatement
        } else if is_text(k, "for_statement") || is_text(k, "for_in_statement") {
            ASTNodeType::ForStatement
        } else if is_text(k, "while_statement") {
            ASTNodeType::WhileStatement
        } else if is_text(k, "return_statement") {
            ASTNodeType::ReturnStatement
        } else if is_text(k, "block") || (is_text(k, "suite") && python) {
            ASTNodeType::BlockStatement
        } else if is_text(k, "interface_declaration") {
            ASTNodeType::InterfaceDeclaration
        } else if is_text(k, "enum_declaration") || (is_text(k, "enum_class_declaration")
            && kotlin) {
            ASTNodeType::EnumDeclaration
        } else if is_text(k, "annotation") || is_text(k, "modifiers") {
            ASTNodeType::Annotation
        } else if is_text(k, "decorator") && python {
            ASTNodeType::Decorator
        } else if is_text(k, "lambda") {
            ASTNodeType::Lambda
        } else {
            ASTNodeType::Other(kind.to_owned())
        }
    }

    /// The name of the node type as it is written.
    pub fn label(&self) -> (r: String)
        ensures
            r@ == kind_label(self@),
    {
        match self {
            ASTNodeType::Program => String::from_str("Program"),
            ASTNodeType::Module => String::from_str("Module"),
            ASTNodeType::ClassDeclaration => String::from_str("ClassDeclaration"),
            ASTNodeType::FunctionDeclaration => String::from_str("FunctionDeclaration"),
            ASTNodeType::MethodDeclaration => String::from_str("MethodDeclaration"),
            ASTNodeType::VariableDeclaration => String::from_str("VariableDeclaration"),
            ASTNodeType::ImportDeclaration => String::from_str("ImportDeclaration"),
            ASTNodeType::TypeDeclaration => String::from_str("TypeDeclaration"),
            ASTNodeType::InterfaceDeclaration => String::from_str("InterfaceDeclaration"),
            ASTNodeType::EnumDeclaration => String::from_str("EnumDeclaration"),
            ASTNodeType::CallExpression => String::from_str("CallExpression"),
            ASTNodeType::MemberExpression => String::from_str("MemberExpression"),
            ASTNodeType::Identifier => String::from_str("Identifier"),
            ASTNodeType::Literal => String::from_str("Literal"),
            ASTNodeType::AssignmentExpression => String::from_str("AssignmentExpression"),
            ASTNodeType::BinaryExpression => String::from_str("BinaryExpression"),
            ASTNodeType::UnaryExpression => String::from_str("UnaryExpression"),
            ASTNodeType::ExpressionStatement => String::from_str("ExpressionStatement"),
            ASTNodeType::ReturnStatement => String::from_str("ReturnStatement"),
            ASTNodeType::IfStatement => String::from_str("IfStatement"),
            ASTNodeType::ForStatement => String::from_str("ForStatement"),
            ASTNodeType::WhileStatement => String::from_str("WhileStatement"),
            ASTNodeType::BlockStatement => String::from_str("BlockStatement"),
            ASTNodeType::Decorator => String::from_str("Decorator"),
            ASTNodeType::Annotation => String::from_str("Annotation"),
            ASTNodeType::Lambda => String::from_str("Lambda"),
            ASTNodeType::Comprehension => String::from_str("Comprehension"),
            ASTNodeType::Other(kind) => String::from_str("Other(\"").concat(kind.as_str()).concat(
                "\")",
            ),
        }
    }

    /// A copy of the node type.
    pub fn duplicate(&self) -> (r: Self)
        ensures
            r@ == self@,
    {
        match self {
            ASTNodeType::Other(kind) => ASTNodeType::Other(kind.clone()),
            ASTNodeType::Program => ASTNodeType::Program,
            ASTNodeType::Module => ASTNodeType::Module,
            ASTNodeType::ClassDeclaration => ASTNodeType::ClassDeclaration,
            ASTNodeType::FunctionDeclaration => ASTNodeType::FunctionDeclaration,
            ASTNodeType::MethodDeclaration => ASTNodeType::MethodDeclaration,
            ASTNodeType::VariableDeclaration => ASTNodeType::VariableDeclaration,
            ASTNodeType::ImportDeclaration => ASTNodeType::ImportDeclaration,
            ASTNodeType::TypeDeclaration => ASTNodeType::TypeDeclaration,
            ASTNodeType::InterfaceDeclaration => ASTNodeType::InterfaceDeclaration,
            ASTNodeType::EnumDeclaration => ASTNodeType::EnumDeclaration,
            ASTNodeType::CallExpression => ASTNodeType::CallExpression,
            ASTNodeType::MemberExpression => ASTNodeType::MemberExpression,
            ASTNodeType::Identifier => ASTNodeType::Identifier,
            ASTNodeType::Literal => ASTNodeType::Literal,
            ASTNodeType::AssignmentExpression => ASTNodeType::AssignmentExpression,
            ASTNodeType::BinaryExpression => ASTNodeType::BinaryExpression,
            ASTNodeType::UnaryExpression => ASTNodeType::UnaryExpression,
            ASTNodeType::ExpressionStatement => ASTNodeType::ExpressionStatement,
            ASTNodeType::ReturnStatement => ASTNodeType::ReturnStatement,
            ASTNodeType::IfStatement => ASTNodeType::IfStatement,
            ASTNodeType::ForStatement => ASTNodeType::ForStatement,
            ASTNodeType::WhileStatement => ASTNodeType::WhileStatement,
            ASTNodeType::BlockStatement => ASTNodeType::BlockStatement,
            ASTNodeType::Decorator => ASTNodeType::Decorator,
            ASTNodeType::Annotation => ASTNodeType::Annotation,
            ASTNodeType::Lambda => ASTNodeType::Lambda,
            ASTNodeType::Comprehension => ASTNodeType::Comprehension,
        }
    }

    /// Whether two node types are the same.
    pub fn same(&self, other: &ASTNodeType) -> (r: bool)
        ensures
            r == (self@ == other@),
    {
        match (self, other) {
            (ASTNodeType::Program, ASTNodeType::Program) => true,
            (ASTNodeType::Module, ASTNodeType::Module) => true,
            (ASTNodeType::ClassDeclaration, ASTNodeType::ClassDeclaration) => true,
            (ASTNodeType::FunctionDeclaration, ASTNodeType::FunctionDeclaration) => true,
            (ASTNodeType::MethodDeclaration, ASTNodeType::MethodDeclaration) => true,
            (ASTNodeType::VariableDeclaration, ASTNodeType::VariableDeclaration) => true,
            (ASTNodeType::ImportDeclaration, ASTNodeType::ImportDeclaration) => true,
            (ASTNodeType::TypeDeclaration, ASTNodeType::TypeDeclaration) => true,
            (ASTNodeType::InterfaceDeclaration, ASTNodeType::InterfaceDeclaration) => true,
            (ASTNodeType::EnumDeclaration, ASTNodeType::EnumDeclaration) => true,
            (ASTNodeType::CallExpression, ASTNodeType::CallExpression) => true,
            (ASTNodeType::MemberExpression, ASTNodeType::MemberExpression) => true,
            (ASTNodeType::Identifier, ASTNodeType::Identifier) => true,
            (ASTNodeType::Literal, ASTNodeType::Literal) => true,
            (ASTNodeType::AssignmentExpression, ASTNodeType::AssignmentExpression) => true,
            (ASTNodeType::BinaryExpression, ASTNodeType::BinaryExpression) => true,
            (ASTNodeType::UnaryExpression, ASTNodeType::UnaryExpression) => true,
            (ASTNodeType::ExpressionStatement, ASTNodeType::ExpressionStatement) => true,
            (ASTNodeType::ReturnStatement, ASTNodeType::ReturnStatement) => true,
            (ASTNodeType::IfStatement, ASTNodeType::IfStatement) => true,
            (ASTNodeType::ForStatement, ASTNodeType::ForStatement) => true,
            (ASTNodeType::WhileStatement, ASTNodeType::WhileStatement) => true,
            (ASTNodeType::BlockStatement, ASTNodeType::BlockStatement) => true,
            (ASTNodeType::Decorator, ASTNodeType::Decorator) => true,
            (ASTNodeType::Annotation, ASTNodeType::Annotation) => true,
            (ASTNodeType::Lambda, ASTNodeType::Lambda) => true,
            (ASTNodeType::Comprehension, ASTNodeType::Comprehension) => true,
            (ASTNodeType::Other(a), ASTNodeType::Other(b)) => *a == *b,
            _ => false,
        }
    }
}

} // verus!
