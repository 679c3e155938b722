//! Lowering a grammar's parse tree to the simplified syntax tree.

use vstd::prelude::*;
use vstd::string::*;
use vstd::utf8::encode_utf8;
use crate::ast::{identity_text, meta_pairs, name_text, ASTNode, NodeLocation};
use crate::enrich::{lowered_metadata, node_metadata};
use crate::extract::{
    extract_import_name, find_name_child, import_name_in, kind_is_among, kinds_view, name_below,
    node_text, text_of,
};
use crate::hash::digest_hex;
use crate::node_type::{kind_of_grammar_node, ASTNodeType, NodeKind};
use crate::syntax::SyntaxNode;
use crate::text::{clamp_u32, to_u32};
use crate::types::Language;

verus! {

/// The kinds that are never kept: punctuation and comments.
pub open spec fn noise_kinds() -> Seq<Seq<char>> {
    seq![
        "("@,
        ")"@,
        "["@,
        "]"@,
        "{"@,
        "}"@,
        ";"@,
        ","@,
        "."@,
        ":"@,
        "comment"@,
        "line_comment"@,
        "block_comment"@,
        "multiline_comment"@,
    ]
}

/// The unnamed kinds that are kept for each language: its structurally
/// significant keywords.
pub open spec fn keyword_kinds(language: Language) -> Seq<Seq<char>> {
    match language {
        Language::Python => seq![
            "def"@,
            "class"@,
            "import"@,
            "from"@,
            "as"@,
            "async"@,
            "await"@,
        ],
        Language::Java => seq![
            "public"@,
            "private"@,
            "protected"@,
            "static"@,
            "final"@,
            "abstract"@,
            "class"@,
            "interface"@,
            "enum"@,
        ],
        Language::JavaScript => seq![
            "class"@,
            "function"@,
            "async"@,
            "await"@,
            "import"@,
            "export"@,
            "const"@,
            "let"@,
            "var"@,
        ],
        Language::Kotlin => seq![
            "class"@,
            "fun"@,
            "val"@,
            "var"@,
            "object"@,
            "interface"@,
            "enum"@,
            "data"@,
            "sealed"@,
        ],
        _ => Seq::empty(),
    }
}

/// Whether the language has a list of kept keywords at all. A node of a
/// language without one is kept unless it is noise.
pub open spec fn has_keyword_list(language: Language) -> bool {
    language == Language::Python || language == Language::Java || language == Language::JavaScript
        || language == Language::Kotlin
}

/// Whether a node is kept: never if it is punctuation or a comment; always
/// if the grammar names it; otherwise only if it is one of the language's
/// kept keywords.
pub open spec fn should_include(n: SyntaxNode, language: Language) -> bool {
    if noise_kinds().contains(n.kind@) {
        false
    } else if n.is_named {
        true
    } else if has_keyword_list(language) {
        keyword_kinds(language).contains(n.kind@)
    } else {
        true
    }
}

fn noise_kind_list() -> (r: Vec<&'static str>)
    ensures
        kinds_view(r@) == noise_kinds(),
{
    let r: Vec<&'static str> = vec![
        "(",
        ")",
        "[",
        "]",
        "{",
        "}",
        ";",
        ",",
        ".",
        ":",
        "comment",
        "line_comment",
        "block_comment",
        "multiline_comment",
    ];
    assert(kinds_view(r@) =~= noise_kinds());
    r
}

fn keyword_kind_list(language: Language) -> (r: Vec<&'static str>)
    ensures
        kinds_view(r@) == keyword_kinds(language),
{
    let r: Vec<&'static str> = match language {
        Language::Python => vec!["def", "class", "import", "from", "as", "async", "await"],
        Language::Java => vec![
            "public",
            "private",
            "protected",
            "static",
            "final",
            "abstract",
            "class",
            "interface",
            "enum",
        ],
        Language::JavaScript => vec![
            "class",
            "function",
            "async",
            "await",
            "import",
            "export",
            "const",
            "let",
            "var",
        ],
        Language::Kotlin => vec![
            "class",
            "fun",
            "val",
            "var",
            "object",
            "interface",
            "enum",
            "data",
            "sealed",
        ],
        _ => Vec::new(),
    };
    assert(kinds_view(r@) =~= keyword_kinds(language));
    r
}

/// Whether a node of the parse tree is kept in the simplified tree.
pub fn should_include_node(n: &SyntaxNode, language: Language) -> (r: bool)
    ensures
        r == should_include(*n, language),
{
    if kind_is_among(n.kind.as_str(), &noise_kind_list()) {
        return false;
    }
    if n.is_named {
        return true;
    }
    match language {
        Language::Python | Language::Java | Language::JavaScript | Language::Kotlin => {
            kind_is_among(n.kind.as_str(), &keyword_kind_list(language))
        },
        _ => true,
    }
}

/// The line of a row: rows count from zero, lines from one.
pub open spec fn line_of_row(row: usize) -> u32 {
    if row >= u32::MAX {
        u32::MAX
    } else {
        (row + 1) as u32
    }
}

/// The location of a parse-tree node: lines from one, columns from zero,
/// and both byte offsets, each no greater than 32 bits hold.
pub open spec fn lowered_location(n: SyntaxNode) -> NodeLocation {
    NodeLocation {
        start_line: line_of_row(n.start_row),
        start_column: clamp_u32(n.start_column as int),
        end_line: line_of_row(n.end_row),
        end_column: clamp_u32(n.end_column as int),
        start_byte: clamp_u32(n.start_byte as int),
        end_byte: clamp_u32(n.end_byte as int),
    }
}

fn to_line(row: usize) -> (r: u32)
    ensures
        r == line_of_row(row),
{
    if row >= u32::MAX as usize {
        u32::MAX
    } else {
        (row + 1) as u32
    }
}

/// The location of a parse-tree node.
pub fn location_of(n: &SyntaxNode) -> (r: NodeLocation)
    ensures
        r == lowered_location(*n),
{
    NodeLocation::new(
        to_line(n.start_row),
        to_u32(n.start_column),
        to_line(n.end_row),
        to_u32(n.end_column),
        to_u32(n.start_byte),
        to_u32(n.end_byte),
    )
}

/// The name of a lowered node: for a declaration, the first name below it;
/// for an identifier, its own text; for an import, what it imports; for
/// any other node, none.
pub open spec fn lowered_name(n: SyntaxNode, source: Seq<char>, kind: NodeKind) -> Option<Seq<char>> {
    match kind {
        NodeKind::ClassDeclaration
        | NodeKind::FunctionDeclaration
        | NodeKind::MethodDeclaration
        | NodeKind::VariableDeclaration
        | NodeKind::InterfaceDeclaration
        | NodeKind::EnumDeclaration => name_below(n, source),
        NodeKind::Identifier => Some(
            match node_text(n, source) {
                Some(t) => t,
                None => Seq::empty(),
            },
        ),
        NodeKind::ImportDeclaration => import_name_in(n.children@, 0, source),
        _ => None,
    }
}

/// The name of a lowered node.
pub fn extract_node_name(n: &SyntaxNode, source: &str, node_type: &ASTNodeType) -> (r: Option<
    String,
>)
    ensures
        name_text(r) == lowered_name(*n, source@, node_type@),
{
    match node_type {
        ASTNodeType::ClassDeclaration
        | ASTNodeType::FunctionDeclaration
        | ASTNodeType::MethodDeclaration
        | ASTNodeType::VariableDeclaration
        | ASTNodeType::InterfaceDeclaration
        | ASTNodeType::EnumDeclaration => find_name_child(n, source),
        ASTNodeType::Identifier => match text_of(n, source) {
            Some(t) => Some(t.to_owned()),
            None => Some(String::new()),
        },
        ASTNodeType::ImportDeclaration => extract_import_name(n, source),
        _ => None,
    }
}

/// `out` is the lowering of the kept nodes among `kids[..upto]`, in order.
pub open spec fn children_lowered(
    kids: Seq<SyntaxNode>,
    upto: int,
    parent: SyntaxNode,
    source: Seq<char>,
    language: Language,
    out: Seq<ASTNode>,
) -> bool
    decreases kids, upto,
{
    if upto <= 0 {
        out.len() == 0
    } else if upto > kids.len() {
        false
    } else if should_include(kids[upto - 1], language) {
        &&& out.len() > 0
        &&& lowered(kids[upto - 1], Some(parent), source, language, out.last())
        &&& children_lowered(kids, upto - 1, parent, source, language, out.drop_last())
    } else {
        children_lowered(kids, upto - 1, parent, source, language, out)
    }
}

/// `r` is the lowering of the parse-tree node `n`: its type is the one its
/// kind maps to; its name, location and metadata are those read off the
/// parse tree; its id is the digest of its identity text; and its children
/// are the lowerings of the kept children of `n`, in order.
pub open spec fn lowered(
    n: SyntaxNode,
    parent: Option<SyntaxNode>,
    source: Seq<char>,
    language: Language,
    r: ASTNode,
) -> bool
    decreases n,
{
    let kind = kind_of_grammar_node(n.kind@, language);
    &&& r.node_type@ == kind
    &&& name_text(r.name) == lowered_name(n, source, kind)
    &&& r.location == lowered_location(n)
    &&& r.id@ == digest_hex(
        encode_utf8(identity_text(kind, lowered_name(n, source, kind), lowered_location(n))),
    )
    &&& meta_pairs(r.metadata@) == lowered_metadata(n, parent, source, language)
    &&& children_lowered(n.children@, n.children@.len() as int, n, source, language, r.children@)
}

/// Lowers a parse-tree node and everything below it.
pub fn convert_node(
    n: &SyntaxNode,
    parent: Option<&SyntaxNode>,
    source: &str,
    language: Language,
) -> (r: ASTNode)
    ensures
        lowered(
            *n,
            match parent {
                Some(p) => Some(*p),
                None => None,
            },
            source@,
            language,
            r,
        ),
    decreases n,
{
    let node_type = ASTNodeType::from_tree_sitter_kind(n.kind.as_str(), language);
    let location = location_of(n);
    let name = extract_node_name(n, source, &node_type);
    let mut node = ASTNode::new(node_type, name, location);
    node.metadata = node_metadata(n, parent, source, language);
    let mut i: usize = 0;
    while i < n.children.len()
        invariant
            i <= n.children.len(),
            node.node_type@ == kind_of_grammar_node(n.kind@, language),
            name_text(node.name) == lowered_name(*n, source@, node.node_type@),
            node.location == lowered_location(*n),
            node.id@ == digest_hex(
                encode_utf8(identity_text(node.node_type@, name_text(node.name), node.location)),
            ),
            meta_pairs(node.metadata@) == lowered_metadata(
                *n,
                match parent {
                    Some(p) => Some(*p),
                    None => None,
                },
                source@,
                language,
            ),
            children_lowered(n.children@, i as int, *n, source@, language, node.children@),
        decreases n.children.len() - i,
    {
        let child = &n.children[i];
        if should_include_node(child, language) {
            let lowered_child = convert_node(child, Some(n), source, language);
            let ghost before = node.children@;
            node.add_child(lowered_child);
            assert(node.children@.drop_last() =~= before);
        }
        i += 1;
    }
    node
}

} // verus!
