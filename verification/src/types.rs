//! The vocabulary shared by the engine's parts: languages, graph node and
//! relation kinds, and the plain records built from them.

use vstd::prelude::*;
use vstd::string::*;
use crate::text::{chars_of, is_text};

verus! {

/// A source language.
#[derive(Debug, Clone, Copy, PartialEq, Eq, Hash, Structural)]
pub enum Language {
    Python,
    Java,
    Kotlin,
    JavaScript,
    TypeScript,
    Unknown,
}

/// The language that a file extension names, compared letter for letter.
pub open spec fn language_of_extension(ext: Seq<char>) -> Language {
    if ext == "py"@ {
        Language::Python
    } else if ext == "java"@ {
        Language::Java
    } else if ext == "kt"@ {
        Language::Kotlin
    } else if ext == "js"@ {
        Language::JavaScript
    } else if ext == "ts"@ {
        Language::TypeScript
    } else {
        Language::Unknown
    }
}

impl Language {
    /// The language that a file extension names.
    pub fn from_extension(ext: &str) -> (r: Self)
        ensures
            r == language_of_extension(ext@),
    {
        let e = chars_of(ext);
        if is_text(e.as_slice(), "py") {
            Language::Python
        } else if is_text(e.as_slice(), "java") {
            Language::Java
        } else if is_text(e.as_slice(), "kt") {
            Language::Kotlin
        } else if is_text(e.as_slice(), "js") {
            Language::JavaScript
        } else if is_text(e.as_slice(), "ts") {
            Language::TypeScript
        } else {
            Language::Unknown
        }
    }

    /// The position of the language in the enumeration, from zero.
    pub open spec fn ordinal(self) -> nat {
        match self {
            Language::Python => 0,
            Language::Java => 1,
            Language::Kotlin => 2,
            Language::JavaScript => 3,
            Language::TypeScript => 4,
            Language::Unknown => 5,
        }
    }

    /// The name of the language, as written in the enumeration.
    pub open spec fn name_text(self) -> Seq<char> {
        match self {
            Language::Python => "Python"@,
            Language::Java => "Java"@,
            Language::Kotlin => "Kotlin"@,
            Language::JavaScript => "JavaScript"@,
            Language::TypeScript => "TypeScript"@,
            Language::Unknown => "Unknown"@,
        }
    }

    /// The name of the language.
    pub fn name(&self) -> (r: &'static str)
        ensures
            r@ == self.name_text(),
    {
        match self {
            Language::Python => "Python",
            Language::Java => "Java",
            Language::Kotlin => "Kotlin",
            Language::JavaScript => "JavaScript",
            Language::TypeScript => "TypeScript",
            Language::Unknown => "Unknown",
        }
    }
}

/// The kind of a node in the semantic graph.
#[derive(Debug, Clone, Copy, PartialEq, Eq, Hash, Structural)]
pub enum NodeType {
    File,
    Module,
    Class,
    Interface,
    Function,
    Method,
    Variable,
    Type,
    Enum,
    ConnascenceNode,
    ContextArtifact,
    QualityMetric,
}

/// A form of connascence between entities.
#[derive(Debug, Clone, Copy, PartialEq, Eq, Hash, Structural)]
pub enum ConnascenceType {
    Name,
    Type,
    Meaning,
    Position,
    Algorithm,
    Execution,
    Timing,
    Values,
    Identity,
}

/// The kind of an edge in the semantic graph.
#[derive(Debug, Clone, Copy, PartialEq, Eq, Hash, Structural)]
pub enum RelationType {
    Contains,
    Imports,
    Extends,
    Implements,
    Calls,
    References,
    Returns,
    Parameter,
    Instantiates,
    Uses,
    HasConnascence(ConnascenceType),
    ConsumesContext,
    ProducesContext,
}

/// What a stored blob holds.
#[derive(Debug, Clone, Copy, PartialEq, Eq, Structural)]
pub enum ContentType {
    SourceCode,
    AST,
    Graph,
    Metadata,
}

/// How an entity changed between two versions.
#[derive(Debug, Clone, Copy, PartialEq, Eq, Structural)]
pub enum ChangeType {
    Added,
    Modified,
    Removed,
    Strengthened,
    Weakened,
}

/// The kind of a context artifact.
#[derive(Debug, Clone, Copy, PartialEq, Eq, Structural)]
pub enum ArtifactType {
    Context,
    Model,
    UseCase,
    Prompt,
}

/// What happened to a watched file. Paths are carried as text.
#[derive(Debug, Clone, PartialEq, Eq)]
pub enum FileEventType {
    Created,
    Modified,
    Deleted,
    Renamed { from: String },
    BatchStart,
    BatchEnd,
}

/// A project to ingest: its root and the filters on its files.
#[derive(Debug, Clone)]
pub struct ProjectInput {
    pub root_path: String,
    pub included_extensions: Vec<String>,
    pub exclude_patterns: Vec<String>,
}

/// An inner node of a stored Merkle tree.
#[derive(Debug, Clone)]
pub struct MerkleNode {
    pub content_hash: crate::hash::Hash,
    pub children: Vec<crate::hash::Hash>,
    pub node_type: NodeType,
}

/// The files and entities that one version changed.
#[derive(Debug, Clone)]
pub struct ChangeSummary {
    pub files_added: Vec<String>,
    pub files_modified: Vec<String>,
    pub files_deleted: Vec<String>,
    pub entities_added: usize,
    pub entities_modified: usize,
    pub entities_deleted: usize,
}

/// The chain of artifacts that leads from a domain context to generated code.
#[derive(Debug, Clone)]
pub struct AASEChain {
    pub domain_context: String,
    pub model: String,
    pub use_case: String,
    pub prompt: String,
    pub generated_code: Option<String>,
}

} // verus!
