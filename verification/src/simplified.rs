//! The simplified syntax tree of one source file.

use vstd::prelude::*;
use vstd::string::*;
use crate::ast::{matching, pointees, ASTNode};
use crate::hash::digest_hex;
use crate::node_type::{ASTNodeType, NodeKind};
use crate::types::Language;

verus! {

/// A lowered syntax tree with the language it was parsed as and the digest
/// of its source.
#[derive(Debug, Clone)]
pub struct SimplifiedAST {
    pub root: ASTNode,
    pub language: Language,
    pub source_hash: crate::hash::Hash,
}

impl SimplifiedAST {
    /// A tree over the given root, with the digest of the source text.
    pub fn new(root: ASTNode, language: Language, source: &str) -> (r: Self)
        ensures
            r.root == root,
            r.language == language,
            r.source_hash@ == digest_hex(source.spec_bytes()),
    {
        let source_hash = crate::hash::Hash::from_string(source);
        SimplifiedAST { root, language, source_hash }
    }

    /// The function declarations below the root, then the method declarations.
    pub fn find_all_functions(&self) -> (r: Vec<&ASTNode>)
        ensures
            pointees(r@) == matching(self.root, NodeKind::FunctionDeclaration) + matching(
                self.root,
                NodeKind::MethodDeclaration,
            ),
    {
        let mut result = self.root.find_children_by_type(&ASTNodeType::FunctionDeclaration);
        let ghost first = pointees(result@);
        let mut more = self.root.find_children_by_type(&ASTNodeType::MethodDeclaration);
        let ghost second = pointees(more@);
        result.append(&mut more);
        assert(pointees(result@) =~= first + second);
        result
    }

    /// The class declarations below the root, then the interface declarations.
    pub fn find_all_classes(&self) -> (r: Vec<&ASTNode>)
        ensures
            pointees(r@) == matching(self.root, NodeKind::ClassDeclaration) + matching(
                self.root,
                NodeKind::InterfaceDeclaration,
            ),
    {
        let mut result = self.root.find_children_by_type(&ASTNodeType::ClassDeclaration);
        let ghost first = pointees(result@);
        let mut more = self.root.find_children_by_type(&ASTNodeType::InterfaceDeclaration);
        let ghost second = pointees(more@);
        result.append(&mut more);
        assert(pointees(result@) =~= first + second);
        result
    }

    /// The import declarations below the root.
    pub fn find_all_imports(&self) -> (r: Vec<&ASTNode>)
        ensures
            pointees(r@) == matching(self.root, NodeKind::ImportDeclaration),
    {
        self.root.find_children_by_type(&ASTNodeType::ImportDeclaration)
    }

    /// The call expressions below the root.
    pub fn find_all_calls(&self) -> (r: Vec<&ASTNode>)
        ensures
            pointees(r@) == matching(self.root, NodeKind::CallExpression),
    {
        self.root.find_children_by_type(&ASTNodeType::CallExpression)
    }

    /// The interface declarations below the root.
    pub fn find_all_interfaces(&self) -> (r: Vec<&ASTNode>)
        ensures
            pointees(r@) == matching(self.root, NodeKind::InterfaceDeclaration),
    {
        self.root.find_children_by_type(&ASTNodeType::InterfaceDeclaration)
    }

    /// The enum declarations below the root.
    pub fn find_all_enums(&self) -> (r: Vec<&ASTNode>)
        ensures
            pointees(r@) == matching(self.root, NodeKind::EnumDeclaration),
    {
        self.root.find_children_by_type(&ASTNodeType::EnumDeclaration)
    }
}


impl SimplifiedAST {
    /// The simplified tree of a parse tree: the lowering of its root, with
    /// the language and the digest of the source.
    pub fn from_tree_sitter(
        node: &crate::syntax::SyntaxNode,
        source: &str,
        language: Language,
    ) -> (r: Result<Self, crate::error::CodeGraphError>)
        ensures
            r matches Ok(ast) && crate::lowering::lowered(*node, None, source@, language, ast.root)
                && ast.language == language && ast.source_hash@ == digest_hex(source.spec_bytes()),
    {
        let root = crate::lowering::convert_node(node, None, source, language);
        Ok(Self::new(root, language, source))
    }
}

} // verus!
