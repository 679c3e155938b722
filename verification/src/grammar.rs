//! The grammars and their parser, behind small trusted functions.

use vstd::prelude::*;
use crate::syntax::NodeFacts;

verus! {

#[verifier::external_type_specification]
#[verifier::external_body]
pub struct ExParser(tree_sitter::Parser);

#[verifier::external_type_specification]
#[verifier::external_body]
pub struct ExLanguageError(tree_sitter::LanguageError);

#[verifier::external_type_specification]
#[verifier::external_body]
pub struct ExTree(tree_sitter::Tree);

/// The nodes that a parse tree holds, in depth-first order, each with the
/// number of nodes in its subtree, itself included.
pub uninterp spec fn tree_nodes(tree: tree_sitter::Tree) -> Seq<NodeFacts>;

/// The nodes of the tree that the Python grammar yields for a source;
/// none where the parser refuses the grammar or yields no tree.
pub uninterp spec fn python_nodes(source: Seq<char>) -> Option<Seq<NodeFacts>>;

/// The nodes of the tree that the Java grammar yields for a source; none
/// where the parser refuses the grammar or yields no tree.
pub uninterp spec fn java_nodes(source: Seq<char>) -> Option<Seq<NodeFacts>>;

/// The nodes of the tree that the JavaScript grammar yields for a source;
/// none where the parser refuses the grammar or yields no tree.
pub uninterp spec fn javascript_nodes(source: Seq<char>) -> Option<Seq<NodeFacts>>;

/// The nodes of the tree that the Kotlin grammar yields for a source; none
/// where the parser refuses the grammar or yields no tree.
pub uninterp spec fn kotlin_nodes(source: Seq<char>) -> Option<Seq<NodeFacts>>;

/// The nodes of the tree that a fresh parse handed back, if it handed one
/// back.
pub open spec fn nodes_parsed(
    r: Result<Option<tree_sitter::Tree>, tree_sitter::LanguageError>,
) -> Option<Seq<NodeFacts>> {
    match r {
        Ok(Some(tree)) => Some(tree_nodes(tree)),
        _ => None,
    }
}

/// A parser without a language.
///
/// Trusted: `tree_sitter::Parser::new`.
#[verifier::external_body]
pub(crate) fn new_parser() -> tree_sitter::Parser {
    tree_sitter::Parser::new()
}

/// Gives a parser the Python grammar.
///
/// Trusted: `tree_sitter::Parser::set_language` with
/// `tree_sitter_python::LANGUAGE`. Whether the grammar is accepted depends
/// on the versions of the two crates, so nothing is stated of the result.
#[verifier::external_body]
pub(crate) fn use_python(parser: &mut tree_sitter::Parser) -> Result<
    (),
    tree_sitter::LanguageError,
> {
    parser.set_language(&tree_sitter_python::LANGUAGE.into())
}

/// Gives a parser the Java grammar.
///
/// Trusted: `tree_sitter::Parser::set_language` with
/// `tree_sitter_java::LANGUAGE`. Whether the grammar is accepted depends on
/// the versions of the two crates, so nothing is stated of the result.
#[verifier::external_body]
pub(crate) fn use_java(parser: &mut tree_sitter::Parser) -> Result<(), tree_sitter::LanguageError> {
    parser.set_language(&tree_sitter_java::LANGUAGE.into())
}

/// Gives a parser the JavaScript grammar.
///
/// Trusted: `tree_sitter::Parser::set_language` with
/// `tree_sitter_javascript::LANGUAGE`. Whether the grammar is accepted
/// depends on the versions of the two crates, so nothing is stated of the
/// result.
#[verifier::external_body]
pub(crate) fn use_javascript(parser: &mut tree_sitter::Parser) -> Result<
    (),
    tree_sitter::LanguageError,
> {
    parser.set_language(&tree_sitter_javascript::LANGUAGE.into())
}

/// Gives a parser the Kotlin grammar.
///
/// Trusted: `tree_sitter::Parser::set_language` with
/// `tree_sitter_kotlin_ng::LANGUAGE`. Whether the grammar is accepted
/// depends on the versions of the two crates, so nothing is stated of the
/// result.
#[verifier::external_body]
pub(crate) fn use_kotlin(parser: &mut tree_sitter::Parser) -> Result<
    (),
    tree_sitter::LanguageError,
> {
    parser.set_language(&tree_sitter_kotlin_ng::LANGUAGE.into())
}

/// The message of a language error.
///
/// Trusted: the `Display` text of `tree_sitter::LanguageError`.
#[verifier::external_body]
pub(crate) fn language_error_text(e: &tree_sitter::LanguageError) -> String {
    e.to_string()
}

/// Parses a source text with a parser as it stands, with or without the
/// tree of an earlier parse.
///
/// Trusted: `tree_sitter::Parser::parse`. What comes back depends on the
/// state of the parser and on the earlier tree, so nothing is stated of
/// it; there is no tree when the parser has no language.
#[verifier::external_body]
pub(crate) fn parse_text(
    parser: &mut tree_sitter::Parser,
    source: &str,
    old_tree: Option<&tree_sitter::Tree>,
) -> Option<tree_sitter::Tree> {
    parser.parse(source, old_tree)
}

/// Parses a source with a new parser and the Python grammar.
///
/// Trusted: `tree_sitter::Parser::new`, `set_language` with
/// `tree_sitter_python::LANGUAGE`, and `parse` without an earlier tree.
/// A new parser has no state of its own, so what comes back depends on
/// the grammar and the source alone; the contract gives the nodes of the
/// tree their name.
#[verifier::external_body]
pub(crate) fn parse_python(source: &str) -> (r: Result<
    Option<tree_sitter::Tree>,
    tree_sitter::LanguageError,
>)
    ensures
        nodes_parsed(r) == python_nodes(source@),
{
    let mut parser = tree_sitter::Parser::new();
    parser.set_language(&tree_sitter_python::LANGUAGE.into())?;
    Ok(parser.parse(source, None))
}

/// Parses a source with a new parser and the Java grammar.
///
/// Trusted: `tree_sitter::Parser::new`, `set_language` with
/// `tree_sitter_java::LANGUAGE`, and `parse` without an earlier tree. The
/// contract gives the nodes of the tree their name.
#[verifier::external_body]
pub(crate) fn parse_java(source: &str) -> (r: Result<
    Option<tree_sitter::Tree>,
    tree_sitter::LanguageError,
>)
    ensures
        nodes_parsed(r) == java_nodes(source@),
{
    let mut parser = tree_sitter::Parser::new();
    parser.set_language(&tree_sitter_java::LANGUAGE.into())?;
    Ok(parser.parse(source, None))
}

/// Parses a source with a new parser and the JavaScript grammar.
///
/// Trusted: `tree_sitter::Parser::new`, `set_language` with
/// `tree_sitter_javascript::LANGUAGE`, and `parse` without an earlier
/// tree. The contract gives the nodes of the tree their name.
#[verifier::external_body]
pub(crate) fn parse_javascript(source: &str) -> (r: Result<
    Option<tree_sitter::Tree>,
    tree_sitter::LanguageError,
>)
    ensures
        nodes_parsed(r) == javascript_nodes(source@),
{
    let mut parser = tree_sitter::Parser::new();
    parser.set_language(&tree_sitter_javascript::LANGUAGE.into())?;
    Ok(parser.parse(source, None))
}

/// Parses a source with a new parser and the Kotlin grammar.
///
/// Trusted: `tree_sitter::Parser::new`, `set_language` with
/// `tree_sitter_kotlin_ng::LANGUAGE`, and `parse` without an earlier tree.
/// The contract gives the nodes of the tree their name.
#[verifier::external_body]
pub(crate) fn parse_kotlin(source: &str) -> (r: Result<
    Option<tree_sitter::Tree>,
    tree_sitter::LanguageError,
>)
    ensures
        nodes_parsed(r) == kotlin_nodes(source@),
{
    let mut parser = tree_sitter::Parser::new();
    parser.set_language(&tree_sitter_kotlin_ng::LANGUAGE.into())?;
    Ok(parser.parse(source, None))
}

/// How many nodes a parse tree holds.
///
/// Trusted: `tree_sitter::Tree::root_node` and `Node::descendant_count`,
/// which counts the node itself too. A tree does not change, so the
/// number depends on the tree alone.
#[verifier::external_body]
pub(crate) fn node_total(tree: &tree_sitter::Tree) -> (r: usize)
    ensures
        r == tree_nodes(*tree).len(),
{
    tree.root_node().descendant_count()
}

/// The node at a position of a parse tree in depth-first order, as plain
/// values: its kind, whether the grammar names it, where it starts and
/// ends, and how many nodes its subtree holds.
///
/// Trusted: `tree_sitter::Tree::walk`, `TreeCursor::goto_descendant` and
/// `node`, and of `Node`: `kind`, `is_named`, `start_position`,
/// `end_position`, `start_byte`, `end_byte` and `descendant_count`. A tree
/// does not change, so the node depends on the tree and the position
/// alone.
#[verifier::external_body]
pub(crate) fn node_at(tree: &tree_sitter::Tree, i: usize) -> (r: NodeFacts)
    requires
        i < tree_nodes(*tree).len(),
    ensures
        r == tree_nodes(*tree)[i as int],
{
    let mut at = tree.walk();
    at.goto_descendant(i);
    let (n, from, to) = (at.node(), at.node().start_position(), at.node().end_position());
    let (kind, is_named, size) = (n.kind().to_string(), n.is_named(), n.descendant_count());
    let (start_row, start_column, end_row, end_column) = (from.row, from.column, to.row, to.column);
    let (start_byte, end_byte) = (n.start_byte(), n.end_byte());
    NodeFacts { kind, is_named, start_row, start_column, end_row, end_column, start_byte, end_byte, size }
}

} // verus!
