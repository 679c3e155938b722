//! The error kinds of the engine.

use vstd::prelude::*;
use vstd::string::*;

verus! {

/// What went wrong, with a message for the user.
#[derive(Debug, Clone, PartialEq, Eq)]
pub enum CodeGraphError {
    Io { message: String },
    Serialization { message: String },
    Parser { message: String },
    Storage { message: String },
    Graph { message: String },
    Hash { message: String },
    Config { message: String },
    Connascence { message: String },
}

impl CodeGraphError {
    /// The message carried by the error.
    pub open spec fn message_text(self) -> Seq<char> {
        match self {
            CodeGraphError::Io { message } => message@,
            CodeGraphError::Serialization { message } => message@,
            CodeGraphError::Parser { message } => message@,
            CodeGraphError::Storage { message } => message@,
            CodeGraphError::Graph { message } => message@,
            CodeGraphError::Hash { message } => message@,
            CodeGraphError::Config { message } => message@,
            CodeGraphError::Connascence { message } => message@,
        }
    }

    /// The words that introduce each kind of error in its description.
    pub open spec fn label(self) -> Seq<char> {
        match self {
            CodeGraphError::Io { .. } => "IO error: "@,
            CodeGraphError::Serialization { .. } => "Serialization error: "@,
            CodeGraphError::Parser { .. } => "Parser error: "@,
            CodeGraphError::Storage { .. } => "Storage error: "@,
            CodeGraphError::Graph { .. } => "Graph error: "@,
            CodeGraphError::Hash { .. } => "Hash error: "@,
            CodeGraphError::Config { .. } => "Configuration error: "@,
            CodeGraphError::Connascence { .. } => "Connascence analysis error: "@,
        }
    }

    /// The one-line description shown to the user: the kind, then the message.
    pub fn describe(&self) -> (r: String)
        ensures
            r@ == self.label() + self.message_text(),
    {
        match self {
            CodeGraphError::Io { message } => String::from_str("IO error: ").concat(
                message.as_str(),
            ),
            CodeGraphError::Serialization { message } => String::from_str(
                "Serialization error: ",
            ).concat(message.as_str()),
            CodeGraphError::Parser { message } => String::from_str("Parser error: ").concat(
                message.as_str(),
            ),
            CodeGraphError::Storage { message } => String::from_str("Storage error: ").concat(
                message.as_str(),
            ),
            CodeGraphError::Graph { message } => String::from_str("Graph error: ").concat(
                message.as_str(),
            ),
            CodeGraphError::Hash { message } => String::from_str("Hash error: ").concat(
                message.as_str(),
            ),
            CodeGraphError::Config { message } => String::from_str("Configuration error: ").concat(
                message.as_str(),
            ),
            CodeGraphError::Connascence { message } => String::from_str(
                "Connascence analysis error: ",
            ).concat(message.as_str()),
        }
    }
}

} // verus!
