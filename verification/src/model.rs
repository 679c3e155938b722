//! The nodes and relations of the semantic graph, each identified by the
//! digest of what it stands for.

use vstd::prelude::*;
use vstd::string::*;
use vstd::utf8::encode_utf8;
use crate::ast::MetaValue;
use crate::hash::digest_hex;
use crate::text::{decimal, decimal_of, string_of};
use crate::types::{ConnascenceType, Language, NodeType, RelationType};

verus! {

/// The name of a form of connascence, as written in the enumeration.
pub open spec fn connascence_label(c: ConnascenceType) -> Seq<char> {
    match c {
        ConnascenceType::Name => "Name"@,
        ConnascenceType::Type => "Type"@,
        ConnascenceType::Meaning => "Meaning"@,
        ConnascenceType::Position => "Position"@,
        ConnascenceType::Algorithm => "Algorithm"@,
        ConnascenceType::Execution => "Execution"@,
        ConnascenceType::Timing => "Timing"@,
        ConnascenceType::Values => "Values"@,
        ConnascenceType::Identity => "Identity"@,
    }
}

/// The name of a relation kind, as written in the enumeration, with the
/// form of connascence in brackets where it has one.
pub open spec fn relation_label(r: RelationType) -> Seq<char> {
    match r {
        RelationType::Contains => "Contains"@,
        RelationType::Imports => "Imports"@,
        RelationType::Extends => "Extends"@,
        RelationType::Implements => "Implements"@,
        RelationType::Calls => "Calls"@,
        RelationType::References => "References"@,
        RelationType::Returns => "Returns"@,
        RelationType::Parameter => "Parameter"@,
        RelationType::Instantiates => "Instantiates"@,
        RelationType::Uses => "Uses"@,
        RelationType::HasConnascence(c) => "HasConnascence("@ + connascence_label(c) + ")"@,
        RelationType::ConsumesContext => "ConsumesContext"@,
        RelationType::ProducesContext => "ProducesContext"@,
    }
}

fn connascence_name(c: ConnascenceType) -> (r: &'static str)
    ensures
        r@ == connascence_label(c),
{
    match c {
        ConnascenceType::Name => "Name",
        ConnascenceType::Type => "Type",
        ConnascenceType::Meaning => "Meaning",
        ConnascenceType::Position => "Position",
        ConnascenceType::Algorithm => "Algorithm",
        ConnascenceType::Execution => "Execution",
        ConnascenceType::Timing => "Timing",
        ConnascenceType::Values => "Values",
        ConnascenceType::Identity => "Identity",
    }
}

/// The name of a relation kind.
pub fn relation_name(r: RelationType) -> (s: String)
    ensures
        s@ == relation_label(r),
{
    match r {
        RelationType::Contains => String::from_str("Contains"),
        RelationType::Imports => String::from_str("Imports"),
        RelationType::Extends => String::from_str("Extends"),
        RelationType::Implements => String::from_str("Implements"),
        RelationType::Calls => String::from_str("Calls"),
        RelationType::References => String::from_str("References"),
        RelationType::Returns => String::from_str("Returns"),
        RelationType::Parameter => String::from_str("Parameter"),
        RelationType::Instantiates => String::from_str("Instantiates"),
        RelationType::Uses => String::from_str("Uses"),
        RelationType::HasConnascence(c) => String::from_str("HasConnascence(").concat(
            connascence_name(c),
        ).concat(")"),
        RelationType::ConsumesContext => String::from_str("ConsumesContext"),
        RelationType::ProducesContext => String::from_str("ProducesContext"),
    }
}

/// The text that identifies a code node: its file, the ordinal of its
/// language, its name and its line range.
pub open spec fn code_node_identity(
    file_path: Seq<char>,
    language: Language,
    name: Seq<char>,
    line_range: (u32, u32),
) -> Seq<char> {
    file_path + ":"@ + decimal(language.ordinal()) + ":"@ + name + ":"@ + decimal(
        line_range.0 as nat,
    ) + "-"@ + decimal(line_range.1 as nat)
}

/// The text that identifies a relation: its ends and its kind.
pub open spec fn relation_identity(from: Seq<char>, to: Seq<char>, kind: RelationType) -> Seq<char> {
    from + "->"@ + to + ":"@ + relation_label(kind)
}

fn ordinal_of(language: Language) -> (r: u64)
    ensures
        r == language.ordinal(),
{
    match language {
        Language::Python => 0,
        Language::Java => 1,
        Language::Kotlin => 2,
        Language::JavaScript => 3,
        Language::TypeScript => 4,
        Language::Unknown => 5,
    }
}

/// An entity of the code as a node of the graph.
#[derive(Debug)]
pub struct CodeNode {
    pub id: crate::hash::Hash,
    pub node_type: NodeType,
    pub name: String,
    pub language: Language,
    pub file_path: String,
    pub line_range: (u32, u32),
    pub metadata: Vec<(String, MetaValue)>,
}

impl CodeNode {
    /// A node without metadata. Its id is the digest of its identity text.
    pub fn new(
        node_type: NodeType,
        name: String,
        language: Language,
        file_path: String,
        line_range: (u32, u32),
    ) -> (r: Self)
        ensures
            r.id@ == digest_hex(
                encode_utf8(code_node_identity(file_path@, language, name@, line_range)),
            ),
            r.node_type == node_type,
            r.name == name,
            r.language == language,
            r.file_path == file_path,
            r.line_range == line_range,
            r.metadata@.len() == 0,
    {
        let mut content = file_path.clone();
        content.append(":");
        content.append(string_of(decimal_of(ordinal_of(language)).as_slice()).as_str());
        content.append(":");
        content.append(name.as_str());
        content.append(":");
        content.append(string_of(decimal_of(line_range.0 as u64).as_slice()).as_str());
        content.append("-");
        content.append(string_of(decimal_of(line_range.1 as u64).as_slice()).as_str());
        let id = crate::hash::Hash::from_string(content.as_str());
        CodeNode { id, node_type, name, language, file_path, line_range, metadata: Vec::new() }
    }
}

/// A relation between two nodes of the graph.
#[derive(Debug, Clone)]
pub struct Relation {
    pub id: crate::hash::Hash,
    pub from_node: crate::hash::Hash,
    pub to_node: crate::hash::Hash,
    pub relation_type: RelationType,
    pub metadata: Vec<(String, MetaValue)>,
}

impl Relation {
    /// A relation without metadata. Its id is the digest of its identity text.
    pub fn new(from_node: crate::hash::Hash, to_node: crate::hash::Hash, relation_type: RelationType) -> (r:
        Self)
        ensures
            r.id@ == digest_hex(
                encode_utf8(relation_identity(from_node@, to_node@, relation_type)),
            ),
            r.from_node == from_node,
            r.to_node == to_node,
            r.relation_type == relation_type,
            r.metadata@.len() == 0,
    {
        let mut content = from_node.to_hex_string();
        content.append("->");
        content.append(to_node.as_str());
        content.append(":");
        content.append(relation_name(relation_type).as_str());
        let id = crate::hash::Hash::from_string(content.as_str());
        Relation { id, from_node, to_node, relation_type, metadata: Vec::new() }
    }
}

} // verus!
