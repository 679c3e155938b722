//! What the ingestion driver does with one kept file besides counting it:
//! the graph statements for it. And where a run keeps its workspace.

use vstd::prelude::*;
use vstd::string::*;
use crate::error::CodeGraphError;
use crate::graph::{file_statements, statements_for_file, GraphBuilder};
use crate::registry::{is_registry_parse_of, yields_tree, ParserRegistry};
use crate::simplified::SimplifiedAST;
use crate::statements::file_statement;
use crate::text::{is_utf8, texts, utf8_text};
use crate::types::Language;

verus! {

/// The statements for a source, given what the parse of it handed back:
/// those of the tree, augmented by the scanner where the tree names no
/// function or no module, where the parse gave a tree; those of the
/// scanner alone where it failed.
pub open spec fn statements_of(
    outcome: Result<SimplifiedAST, CodeGraphError>,
    src: Seq<char>,
    file_path: Seq<char>,
) -> Seq<Seq<char>> {
    file_statements(
        match outcome {
            Ok(ast) => Some(ast.root),
            Err(_) => None,
        },
        src,
        file_path,
    )
}

/// What the driver emits for a source: the statements for what the
/// registry's parse of the source hands back.
pub open spec fn is_emitted_for(
    statements: Seq<Seq<char>>,
    registered: Seq<Language>,
    customs: Seq<Language>,
    language: Language,
    src: Seq<char>,
    file_path: Seq<char>,
) -> bool {
    exists|outcome: Result<SimplifiedAST, CodeGraphError>| #[trigger]
        is_registry_parse_of(registered, customs, outcome, src, language) && statements
            == statements_of(
            outcome,
            src,
            file_path,
        )
}

/// The graph statements for a source: those of its tree where the language
/// has a parser and the grammar yields a tree, augmented by the scanner
/// where the tree names no function or no module; those of the scanner
/// alone otherwise. A parser failure is no failure of the file.
pub fn statements_for_source(
    registry: &ParserRegistry,
    builder: &GraphBuilder,
    language: Language,
    src: &str,
    file_path: &str,
) -> (r: Vec<String>)
    ensures
        is_emitted_for(
            texts(r@),
            registry.registered(),
            registry.customs(),
            language,
            src@,
            file_path@,
        ),
        !registry.customs().contains(language) && !(registry.registered().contains(language)
            && yields_tree(language, src@)) ==> texts(r@) == file_statements(
            None,
            src@,
            file_path@,
        ),
        r@.len() > 0,
        r@[0]@ == file_statement(file_path@),
{
    let outcome = registry.parse(src, language);
    let r = match &outcome {
        Ok(ast) => statements_for_file(builder, Some(ast), src, file_path),
        Err(_) => statements_for_file(builder, None, src, file_path),
    };
    assert(is_registry_parse_of(
        registry.registered(),
        registry.customs(),
        outcome,
        src@,
        language,
    ));
    assert(texts(r@) == statements_of(outcome, src@, file_path@));
    r
}

/// The graph statements for the bytes of a file, where the bytes are
/// UTF-8 text; none where they are not.
pub fn statements_for_bytes(
    registry: &ParserRegistry,
    builder: &GraphBuilder,
    language: Language,
    bytes: &[u8],
    file_path: &str,
) -> (r: Option<Vec<String>>)
    ensures
        r is Some <==> is_utf8(bytes@),
        r matches Some(q) ==> q@.len() > 0 && q@[0]@ == file_statement(file_path@)
            && is_emitted_for(
            texts(q@),
            registry.registered(),
            registry.customs(),
            language,
            vstd::utf8::decode_utf8(bytes@),
            file_path@,
        ),
{
    broadcast use vstd::utf8::encode_utf8_decode_utf8;

    match utf8_text(bytes) {
        Some(src) => {
            assert(src@ == vstd::utf8::decode_utf8(vstd::utf8::encode_utf8(src@)));
            Some(statements_for_source(registry, builder, language, src, file_path))
        },
        None => None,
    }
}

/// The workspace of a run: the default one where its store exists; else
/// the parent of the configured store path where that path ends in `cas`
/// and has a parent, the default one where it has none; else the
/// configured path itself.
pub open spec fn workspace_choice(
    default_workspace: Seq<char>,
    default_store_exists: bool,
    configured: Seq<char>,
    configured_name: Option<Seq<char>>,
    configured_parent: Option<Seq<char>>,
) -> Seq<char> {
    if default_store_exists {
        default_workspace
    } else if configured_name == Some("cas"@) {
        match configured_parent {
            Some(p) => p,
            None => default_workspace,
        }
    } else {
        configured
    }
}

/// Picks the workspace of a run from what the file system and the
/// platform's path rules say of the default and the configured store path.
pub fn resolve_workspace_dir(
    default_workspace: String,
    default_store_exists: bool,
    configured: String,
    configured_name: Option<&str>,
    configured_parent: Option<String>,
) -> (r: String)
    ensures
        r@ == workspace_choice(
            default_workspace@,
            default_store_exists,
            configured@,
            match configured_name {
                Some(n) => Some(n@),
                None => None,
            },
            match configured_parent {
                Some(p) => Some(p@),
                None => None,
            },
        ),
{
    if default_store_exists {
        return default_workspace;
    }
    let named_cas = match configured_name {
        Some(n) => crate::text::str_eq(n, "cas"),
        None => false,
    };
    if named_cas {
        match configured_parent {
            Some(p) => p,
            None => default_workspace,
        }
    } else {
        configured
    }
}

/// The workspace of a run: the default one under the default
/// configuration, else the one chosen from the configured store path.
pub open spec fn run_workspace_choice(
    config_is_default: bool,
    default_workspace: Seq<char>,
    default_store_exists: bool,
    configured: Seq<char>,
    configured_name: Option<Seq<char>>,
    configured_parent: Option<Seq<char>>,
) -> Seq<char> {
    if config_is_default {
        default_workspace
    } else {
        workspace_choice(
            default_workspace,
            default_store_exists,
            configured,
            configured_name,
            configured_parent,
        )
    }
}

/// Picks the workspace of a run.
pub fn resolve_run_workspace(
    config_is_default: bool,
    default_workspace: String,
    default_store_exists: bool,
    configured: String,
    configured_name: Option<&str>,
    configured_parent: Option<String>,
) -> (r: String)
    ensures
        r@ == run_workspace_choice(
            config_is_default,
            default_workspace@,
            default_store_exists,
            configured@,
            match configured_name {
                Some(n) => Some(n@),
                None => None,
            },
            match configured_parent {
                Some(p) => Some(p@),
                None => None,
            },
        ),
{
    if config_is_default {
        default_workspace
    } else {
        resolve_workspace_dir(
            default_workspace,
            default_store_exists,
            configured,
            configured_name,
            configured_parent,
        )
    }
}

/// Picks the store of a run: the one below the default workspace under the
/// default configuration, else the configured one.
pub fn resolve_run_store(
    config_is_default: bool,
    default_store: String,
    configured: String,
) -> (r: String)
    ensures
        r == (if config_is_default {
            default_store
        } else {
            configured
        }),
{
    if config_is_default {
        default_store
    } else {
        configured
    }
}

} // verus!
