//! The parsers: one per language with a grammar, and the registry that
//! picks among them.

use vstd::prelude::*;
use vstd::string::*;
use vstd::utf8::encode_utf8;
use crate::ast::ASTNode;
use crate::error::CodeGraphError;
use crate::extract::{kind_is_among, kinds_view};
use crate::grammar::{
    java_nodes, javascript_nodes, kotlin_nodes, language_error_text, new_parser, node_at,
    node_total, parse_java, parse_javascript, parse_kotlin, parse_python, parse_text,
    python_nodes, tree_nodes, use_java, use_javascript, use_kotlin, use_python,
};
use crate::hash::digest_hex;
use crate::lowering::lowered;
use crate::paths::{extension_of, is_portable_path, path_extension};
use crate::simplified::SimplifiedAST;
use crate::syntax::{has_grammar, is_tree_of, plain_tree, NodeFacts, SyntaxNode};
use crate::types::Language;

verus! {

/// The nodes of the tree that the grammar of a language yields for a
/// source, in depth-first order; none where the engine has no grammar for
/// the language, where the parser refuses the grammar, or where it yields
/// no tree.
pub open spec fn grammar_nodes(language: Language, source: Seq<char>) -> Option<Seq<NodeFacts>> {
    match language {
        Language::Python => python_nodes(source),
        Language::Java => java_nodes(source),
        Language::JavaScript => javascript_nodes(source),
        Language::Kotlin => kotlin_nodes(source),
        _ => None,
    }
}

/// Whether the grammar of a language yields a tree for a source.
pub open spec fn yields_tree(language: Language, source: Seq<char>) -> bool {
    grammar_nodes(language, source) matches Some(nodes) && nodes.len() > 0
}

/// `root` is the lowering of the tree that a listing of nodes stands for.
pub open spec fn lowers_to(
    nodes: Seq<NodeFacts>,
    source: Seq<char>,
    language: Language,
    root: ASTNode,
) -> bool {
    exists|tree: SyntaxNode| #[trigger]
        is_tree_of(tree, nodes) && lowered(tree, None, source, language, root)
}

/// What a parse with an earlier tree hands back: the lowering of some
/// tree, or a parser error.
pub open spec fn is_parse_of(
    r: Result<SimplifiedAST, CodeGraphError>,
    source: &str,
    language: Language,
) -> bool {
    match r {
        Ok(ast) => {
            &&& ast.language == language
            &&& ast.source_hash@ == digest_hex(source.spec_bytes())
            &&& exists|tree: SyntaxNode| lowered(tree, None, source@, language, ast.root)
        },
        Err(e) => e is Parser,
    }
}

/// The message for a grammar that the parser did not accept.
pub open spec fn grammar_refused_text(language: Language, reason: Seq<char>) -> Seq<char> {
    "Failed to set "@ + language.name_text() + " language: "@ + reason
}

/// The message for a source that yielded no tree.
pub open spec fn no_tree_text(language: Language, incremental: bool) -> Seq<char> {
    "Failed to parse "@ + language.name_text() + (if incremental {
        " source incrementally"@
    } else {
        " source"@
    })
}

/// The message for a language without a parser.
pub open spec fn no_parser_text(language: Language) -> Seq<char> {
    "No parser registered for language: "@ + language.name_text()
}

/// Whether an error is the one for a grammar that the parser refused: a
/// parser error whose message names the language and gives the parser's
/// reason.
pub open spec fn is_grammar_refusal(e: CodeGraphError, language: Language) -> bool {
    e is Parser && exists|reason: Seq<char>|
        e.message_text() == #[trigger] grammar_refused_text(language, reason)
}

/// What a parse of a source as a language hands back. Where the grammar
/// yields a tree, the parse succeeds with the lowering of that tree, the
/// language and the digest of the source. Where it yields none, the parse
/// fails: for a language with a grammar because the parser refused the
/// grammar or gave no tree, for any other language because it has no
/// parser.
pub open spec fn is_grammar_parse_of(
    r: Result<SimplifiedAST, CodeGraphError>,
    source: Seq<char>,
    language: Language,
) -> bool {
    if yields_tree(language, source) {
        r matches Ok(ast) && ast.language == language && ast.source_hash@ == digest_hex(
            encode_utf8(source),
        ) && lowers_to(grammar_nodes(language, source)->Some_0, source, language, ast.root)
    } else if has_grammar(language) {
        r matches Err(e) && (is_grammar_refusal(e, language) || (e is Parser && e.message_text()
            == no_tree_text(language, false)))
    } else {
        r matches Err(e) && e is Parser && e.message_text() == no_parser_text(language)
    }
}

/// What the registry hands back for a source and a language. A parser
/// of the user's own decides for its language, and nothing is said of
/// what it hands back. Else the result is what a parse of the source as
/// the language hands back where the engine's parser for the language is
/// registered, and the error for a language without a parser where it is
/// not.
pub open spec fn is_registry_parse_of(
    registered: Seq<Language>,
    customs: Seq<Language>,
    r: Result<SimplifiedAST, CodeGraphError>,
    source: Seq<char>,
    language: Language,
) -> bool {
    if customs.contains(language) {
        true
    } else if registered.contains(language) {
        is_grammar_parse_of(r, source, language)
    } else {
        r matches Err(e) && e is Parser && e.message_text() == no_parser_text(language)
    }
}

/// A list of languages with those of another behind it that it does not
/// hold yet, each once.
pub open spec fn with_new(base: Seq<Language>, more: Seq<Language>) -> Seq<Language>
    decreases more.len(),
{
    if more.len() == 0 {
        base
    } else {
        let front = with_new(base, more.drop_last());
        if front.contains(more.last()) {
            front
        } else {
            front.push(more.last())
        }
    }
}

/// A parser with the grammar of the language, where the engine has one and
/// the parser accepts it. A language without a grammar fails with the
/// message for a language without a parser; a grammar that the parser
/// refuses fails with the message for that.
fn parser_for(language: Language) -> (r: Result<tree_sitter::Parser, CodeGraphError>)
    ensures
        r is Err ==> r->Err_0 is Parser,
        !has_grammar(language) ==> r is Err && r->Err_0.message_text() == no_parser_text(language),
        has_grammar(language) && r is Err ==> is_grammar_refusal(r->Err_0, language),
{
    let mut parser = new_parser();
    let assigned = match language {
        Language::Python => use_python(&mut parser),
        Language::Java => use_java(&mut parser),
        Language::JavaScript => use_javascript(&mut parser),
        Language::Kotlin => use_kotlin(&mut parser),
        _ => {
            return Err(
                CodeGraphError::Parser {
                    message: String::from_str("No parser registered for language: ").concat(
                        language.name(),
                    ),
                },
            );
        },
    };
    match assigned {
        Ok(_) => Ok(parser),
        Err(e) => {
            let reason = language_error_text(&e);
            let message = String::from_str("Failed to set ").concat(language.name()).concat(
                " language: ",
            ).concat(reason.as_str());
            assert(message@ == grammar_refused_text(language, reason@));
            Err(CodeGraphError::Parser { message })
        },
    }
}

/// The nodes of a parse tree in depth-first order.
fn nodes_of(tree: &tree_sitter::Tree) -> (r: Vec<NodeFacts>)
    ensures
        r@ == tree_nodes(*tree),
{
    let total = node_total(tree);
    let mut nodes: Vec<NodeFacts> = Vec::new();
    let mut i: usize = 0;
    while i < total
        invariant
            i <= total == tree_nodes(*tree).len(),
            nodes@ == tree_nodes(*tree).take(i as int),
        decreases total - i,
    {
        let node = node_at(tree, i);
        assert(tree_nodes(*tree).take(i + 1) =~= tree_nodes(*tree).take(i as int).push(node));
        nodes.push(node);
        i += 1;
    }
    assert(tree_nodes(*tree).take(total as int) =~= tree_nodes(*tree));
    nodes
}

/// The error for a source that yielded no tree.
fn no_tree_error(language: Language, incremental: bool) -> (e: CodeGraphError)
    ensures
        e is Parser,
        e.message_text() == no_tree_text(language, incremental),
{
    let mut message = String::from_str("Failed to parse ").concat(language.name());
    if incremental {
        message.append(" source incrementally");
    } else {
        message.append(" source");
    }
    CodeGraphError::Parser { message }
}

/// Parses a source with a parser as it stands and an earlier tree, and
/// lowers the tree that comes back. Errors from the grammar that still
/// yield a tree are no failure: only a source without any tree is.
fn parse_with(
    parser: &mut tree_sitter::Parser,
    source: &str,
    language: Language,
    old_tree: &tree_sitter::Tree,
) -> (r: Result<SimplifiedAST, CodeGraphError>)
    ensures
        is_parse_of(r, source, language),
        r is Err ==> r->Err_0.message_text() == no_tree_text(language, true),
{
    match parse_text(parser, source, Some(old_tree)) {
        Some(tree) => {
            let nodes = nodes_of(&tree);
            match plain_tree(&nodes) {
                Some(plain) => {
                    let r = SimplifiedAST::from_tree_sitter(&plain, source, language);
                    proof {
                        let ast = r->Ok_0;
                        assert(lowered(plain, None, source@, language, ast.root));
                    }
                    r
                },
                None => Err(no_tree_error(language, true)),
            }
        },
        None => Err(no_tree_error(language, true)),
    }
}

/// Parses a source as a language with a new parser, and lowers the tree
/// that the grammar yields. Errors from the grammar that still yield a
/// tree are no failure.
fn parse_fresh(source: &str, language: Language) -> (r: Result<SimplifiedAST, CodeGraphError>)
    ensures
        is_grammar_parse_of(r, source@, language),
{
    let parsed = match language {
        Language::Python => parse_python(source),
        Language::Java => parse_java(source),
        Language::JavaScript => parse_javascript(source),
        Language::Kotlin => parse_kotlin(source),
        _ => {
            return Err(
                CodeGraphError::Parser {
                    message: String::from_str("No parser registered for language: ").concat(
                        language.name(),
                    ),
                },
            );
        },
    };
    match parsed {
        Ok(Some(tree)) => {
            let nodes = nodes_of(&tree);
            match plain_tree(&nodes) {
                Some(plain) => {
                    let r = SimplifiedAST::from_tree_sitter(&plain, source, language);
                    proof {
                        let ast = r->Ok_0;
                        assert(is_tree_of(plain, nodes@));
                        assert(lowers_to(nodes@, source@, language, ast.root));
                    }
                    r
                },
                None => Err(no_tree_error(language, false)),
            }
        },
        Ok(None) => Err(no_tree_error(language, false)),
        Err(e) => {
            let reason = language_error_text(&e);
            let message = String::from_str("Failed to set ").concat(language.name()).concat(
                " language: ",
            ).concat(reason.as_str());
            assert(message@ == grammar_refused_text(language, reason@));
            Err(CodeGraphError::Parser { message })
        },
    }
}

/// Whether an extension, if there is one, is among the given ones.
pub open spec fn extension_is_among(ext: Option<Seq<char>>, extensions: Seq<Seq<char>>) -> bool {
    match ext {
        Some(e) => extensions.contains(e),
        None => false,
    }
}

/// Whether the extension that the platform's path rules find in the path
/// is one of the given ones.
fn path_has_extension(path: &str, extensions: &Vec<&'static str>) -> (r: bool)
    ensures
        exists|ext: Option<Seq<char>>| r == extension_is_among(ext, kinds_view(extensions@)),
        is_portable_path(path@) ==> r == extension_is_among(
            extension_of(path@),
            kinds_view(extensions@),
        ),
{
    let found = path_extension(path);
    let r = match &found {
        Some(ext) => kind_is_among(ext.as_str(), extensions),
        None => false,
    };
    assert(r == extension_is_among(
        match found {
            Some(e) => Some(e@),
            None => None,
        },
        kinds_view(extensions@),
    ));
    r
}

/// A parser of the user's own, for a language of the user's choice.
pub trait CustomParser {
    /// Parses a source.
    fn parse(&self, source: &str) -> Result<SimplifiedAST, CodeGraphError>;
}

/// The registry of parsers, by language: the engine's own, and those that
/// the user registers, which come first.
pub struct ParserRegistry {
    languages: Vec<Language>,
    custom_languages: Vec<Language>,
    custom_parsers: Vec<Box<dyn CustomParser>>,
}

/// The last position at which a language stands in a list.
fn last_position(languages: &Vec<Language>, language: Language) -> (r: Option<usize>)
    ensures
        r is Some <==> languages@.contains(language),
        r matches Some(i) ==> i < languages@.len() && languages@[i as int] == language,
{
    let mut i: usize = languages.len();
    while i > 0
        invariant
            i <= languages.len(),
            forall|j: int| i <= j < languages@.len() ==> languages@[j] != language,
        decreases i,
    {
        if languages[i - 1] == language {
            return Some(i - 1);
        }
        i -= 1;
    }
    None
}

impl ParserRegistry {
    /// The languages whose parser of the engine is registered.
    pub closed spec fn registered(self) -> Seq<Language> {
        self.languages@
    }

    /// The languages that the user registered a parser for, in the order
    /// of registration.
    pub closed spec fn customs(self) -> Seq<Language> {
        self.custom_languages@
    }

    /// A registry with the parsers of Python, Java, JavaScript and Kotlin.
    pub fn new() -> (r: Self)
        ensures
            r.registered() == seq![
                Language::Python,
                Language::Java,
                Language::JavaScript,
                Language::Kotlin,
            ],
            r.customs().len() == 0,
    {
        let languages: Vec<Language> = vec![
            Language::Python,
            Language::Java,
            Language::JavaScript,
            Language::Kotlin,
        ];
        let r = ParserRegistry {
            languages,
            custom_languages: Vec::new(),
            custom_parsers: Vec::new(),
        };
        assert(r.registered() =~= seq![
            Language::Python,
            Language::Java,
            Language::JavaScript,
            Language::Kotlin,
        ]);
        r
    }

    /// Whether the registry has a parser for the language.
    pub fn supports_language(&self, language: &Language) -> (r: bool)
        ensures
            r == (self.registered().contains(*language) || self.customs().contains(*language)),
    {
        last_position(&self.languages, *language).is_some() || last_position(
            &self.custom_languages,
            *language,
        ).is_some()
    }

    /// The languages that the registry has a parser for, each once: those
    /// of the engine's parsers, then those that only the user gave one.
    pub fn supported_languages(&self) -> (r: Vec<Language>)
        ensures
            r@ == with_new(self.registered(), self.customs()),
    {
        let mut out = self.languages.clone();
        let mut i: usize = 0;
        assert(self.customs().take(0) =~= Seq::<Language>::empty());
        while i < self.custom_languages.len()
            invariant
                i <= self.custom_languages.len(),
                out@ == with_new(self.registered(), self.customs().take(i as int)),
            decreases self.custom_languages.len() - i,
        {
            let language = self.custom_languages[i];
            proof {
                let upto = self.customs().take(i + 1);
                assert(upto.drop_last() =~= self.customs().take(i as int));
                assert(upto.last() == language);
            }
            if last_position(&out, language).is_none() {
                out.push(language);
            }
            i += 1;
        }
        assert(self.customs().take(i as int) =~= self.customs());
        out
    }

    /// Gives a language a parser of the user's own, which from then on
    /// parses the sources of that language in place of any parser that the
    /// language had.
    pub fn register_custom_parser(&mut self, language: Language, parser: Box<dyn CustomParser>)
        ensures
            final(self).registered() == old(self).registered(),
            final(self).customs() == old(self).customs().push(language),
    {
        self.custom_languages.push(language);
        self.custom_parsers.push(parser);
    }

    /// Parses a source as a language. The parser that the user registered
    /// last for the language parses it, where there is one. Else a
    /// language without a parser is a parser error, and with the engine's
    /// parser the parse succeeds exactly where the grammar yields a tree,
    /// and the result is the lowering of that tree.
    pub fn parse(&self, source: &str, language: Language) -> (r: Result<
        SimplifiedAST,
        CodeGraphError,
    >)
        ensures
            is_registry_parse_of(self.registered(), self.customs(), r, source@, language),
    {
        match last_position(&self.custom_languages, language) {
            Some(i) => {
                if i < self.custom_parsers.len() {
                    return self.custom_parsers[i].parse(source);
                }
            },
            None => {},
        }
        if last_position(&self.languages, language).is_none() {
            return Err(
                CodeGraphError::Parser {
                    message: String::from_str("No parser registered for language: ").concat(
                        language.name(),
                    ),
                },
            );
        }
        parse_fresh(source, language)
    }
}

/// The extensions of Python files.
pub open spec fn python_extensions() -> Seq<Seq<char>> {
    seq!["py"@, "pyw"@]
}

/// The extensions of Java files.
pub open spec fn java_extensions() -> Seq<Seq<char>> {
    seq!["java"@]
}

/// The extensions of JavaScript files.
pub open spec fn javascript_extensions() -> Seq<Seq<char>> {
    seq!["js"@, "mjs"@, "jsx"@]
}

/// The extensions of Kotlin files.
pub open spec fn kotlin_extensions() -> Seq<Seq<char>> {
    seq!["kt"@, "kts"@]
}

/// A parser for Python sources.
pub struct PythonParser {
    parser: tree_sitter::Parser,
}

impl PythonParser {
    /// A parser with the Python grammar, or a parser error where the
    /// grammar is not accepted.
    pub fn new() -> (r: Result<Self, CodeGraphError>)
        ensures
            r is Err ==> is_grammar_refusal(r->Err_0, Language::Python),
    {
        match parser_for(Language::Python) {
            Ok(parser) => Ok(PythonParser { parser }),
            Err(e) => Err(e),
        }
    }

    /// Parses a source: it succeeds exactly where the grammar yields a
    /// tree, and the result is the lowering of that tree.
    pub fn parse(&mut self, source: &str) -> (r: Result<SimplifiedAST, CodeGraphError>)
        ensures
            is_grammar_parse_of(r, source@, Language::Python),
    {
        parse_fresh(source, Language::Python)
    }

    /// Parses a source with the help of an earlier tree, where one is
    /// given: the result is then the lowering of the tree that the parser
    /// hands back, and the only failure is that it hands back none.
    /// Without an earlier tree this is `parse`.
    pub fn parse_with_old_tree(&mut self, source: &str, old_tree: Option<&tree_sitter::Tree>) -> (r:
        Result<SimplifiedAST, CodeGraphError>)
        ensures
            old_tree is None ==> is_grammar_parse_of(r, source@, Language::Python),
            old_tree is Some ==> is_parse_of(r, source, Language::Python) && (r is Err
                ==> r->Err_0.message_text() == no_tree_text(Language::Python, true)),
    {
        match old_tree {
            Some(old) => parse_with(&mut self.parser, source, Language::Python, old),
            None => parse_fresh(source, Language::Python),
        }
    }

    pub fn supported_extensions() -> (r: Vec<&'static str>)
        ensures
            kinds_view(r@) == python_extensions(),
    {
        let r: Vec<&'static str> = vec!["py", "pyw"];
        assert(kinds_view(r@) =~= python_extensions());
        r
    }

    /// Whether the path has a Python extension, by the platform's path rules:
    /// for a path that every platform reads alike, whether the extension of
    /// the file name it ends in is one.
    pub fn is_python_file(path: &str) -> (r: bool)
        ensures
            exists|ext: Option<Seq<char>>| r == extension_is_among(ext, python_extensions()),
            is_portable_path(path@) ==> r == extension_is_among(extension_of(path@), python_extensions()),
    {
        path_has_extension(path, &Self::supported_extensions())
    }
}

/// A parser for Java sources.
pub struct JavaParser {
    parser: tree_sitter::Parser,
}

impl JavaParser {
    /// A parser with the Java grammar, or a parser error where the grammar
    /// is not accepted.
    pub fn new() -> (r: Result<Self, CodeGraphError>)
        ensures
            r is Err ==> is_grammar_refusal(r->Err_0, Language::Java),
    {
        match parser_for(Language::Java) {
            Ok(parser) => Ok(JavaParser { parser }),
            Err(e) => Err(e),
        }
    }

    /// Parses a source: it succeeds exactly where the grammar yields a
    /// tree, and the result is the lowering of that tree.
    pub fn parse(&mut self, source: &str) -> (r: Result<SimplifiedAST, CodeGraphError>)
        ensures
            is_grammar_parse_of(r, source@, Language::Java),
    {
        parse_fresh(source, Language::Java)
    }

    /// Parses a source with the help of an earlier tree, where one is
    /// given: the result is then the lowering of the tree that the parser
    /// hands back, and the only failure is that it hands back none.
    /// Without an earlier tree this is `parse`.
    pub fn parse_with_old_tree(&mut self, source: &str, old_tree: Option<&tree_sitter::Tree>) -> (r:
        Result<SimplifiedAST, CodeGraphError>)
        ensures
            old_tree is None ==> is_grammar_parse_of(r, source@, Language::Java),
            old_tree is Some ==> is_parse_of(r, source, Language::Java) && (r is Err
                ==> r->Err_0.message_text() == no_tree_text(Language::Java, true)),
    {
        match old_tree {
            Some(old) => parse_with(&mut self.parser, source, Language::Java, old),
            None => parse_fresh(source, Language::Java),
        }
    }

    pub fn supported_extensions() -> (r: Vec<&'static str>)
        ensures
            kinds_view(r@) == java_extensions(),
    {
        let r: Vec<&'static str> = vec!["java"];
        assert(kinds_view(r@) =~= java_extensions());
        r
    }

    /// Whether the path has a Java extension, by the platform's path rules:
    /// for a path that every platform reads alike, whether the extension of
    /// the file name it ends in is one.
    pub fn is_java_file(path: &str) -> (r: bool)
        ensures
            exists|ext: Option<Seq<char>>| r == extension_is_among(ext, java_extensions()),
            is_portable_path(path@) ==> r == extension_is_among(extension_of(path@), java_extensions()),
    {
        path_has_extension(path, &Self::supported_extensions())
    }
}

/// A parser for JavaScript sources.
pub struct JavaScriptParser {
    parser: tree_sitter::Parser,
}

impl JavaScriptParser {
    /// A parser with the JavaScript grammar, or a parser error where the
    /// grammar is not accepted.
    pub fn new() -> (r: Result<Self, CodeGraphError>)
        ensures
            r is Err ==> is_grammar_refusal(r->Err_0, Language::JavaScript),
    {
        match parser_for(Language::JavaScript) {
            Ok(parser) => Ok(JavaScriptParser { parser }),
            Err(e) => Err(e),
        }
    }

    /// Parses a source: it succeeds exactly where the grammar yields a
    /// tree, and the result is the lowering of that tree.
    pub fn parse(&mut self, source: &str) -> (r: Result<SimplifiedAST, CodeGraphError>)
        ensures
            is_grammar_parse_of(r, source@, Language::JavaScript),
    {
        parse_fresh(source, Language::JavaScript)
    }

    /// Parses a source with the help of an earlier tree, where one is
    /// given: the result is then the lowering of the tree that the parser
    /// hands back, and the only failure is that it hands back none.
    /// Without an earlier tree this is `parse`.
    pub fn parse_with_old_tree(&mut self, source: &str, old_tree: Option<&tree_sitter::Tree>) -> (r:
        Result<SimplifiedAST, CodeGraphError>)
        ensures
            old_tree is None ==> is_grammar_parse_of(r, source@, Language::JavaScript),
            old_tree is Some ==> is_parse_of(r, source, Language::JavaScript) && (r is Err
                ==> r->Err_0.message_text() == no_tree_text(Language::JavaScript, true)),
    {
        match old_tree {
            Some(old) => parse_with(&mut self.parser, source, Language::JavaScript, old),
            None => parse_fresh(source, Language::JavaScript),
        }
    }

    pub fn supported_extensions() -> (r: Vec<&'static str>)
        ensures
            kinds_view(r@) == javascript_extensions(),
    {
        let r: Vec<&'static str> = vec!["js", "mjs", "jsx"];
        assert(kinds_view(r@) =~= javascript_extensions());
        r
    }

    /// Whether the path has a JavaScript extension, by the platform's path
    /// rules: for a path that every platform reads alike, whether the
    /// extension of the file name it ends in is one.
    pub fn is_javascript_file(path: &str) -> (r: bool)
        ensures
            exists|ext: Option<Seq<char>>| r == extension_is_among(ext, javascript_extensions()),
            is_portable_path(path@) ==> r == extension_is_among(extension_of(path@), javascript_extensions()),
    {
        path_has_extension(path, &Self::supported_extensions())
    }
}

/// A parser for Kotlin sources.
pub struct KotlinParser {
    parser: tree_sitter::Parser,
}

impl KotlinParser {
    /// A parser with the Kotlin grammar, or a parser error where the
    /// grammar is not accepted.
    pub fn new() -> (r: Result<Self, CodeGraphError>)
        ensures
            r is Err ==> is_grammar_refusal(r->Err_0, Language::Kotlin),
    {
        match parser_for(Language::Kotlin) {
            Ok(parser) => Ok(KotlinParser { parser }),
            Err(e) => Err(e),
        }
    }

    /// Parses a source: it succeeds exactly where the grammar yields a
    /// tree, and the result is the lowering of that tree.
    pub fn parse(&mut self, source: &str) -> (r: Result<SimplifiedAST, CodeGraphError>)
        ensures
            is_grammar_parse_of(r, source@, Language::Kotlin),
    {
        parse_fresh(source, Language::Kotlin)
    }

    /// Parses a source with the help of an earlier tree, where one is
    /// given: the result is then the lowering of the tree that the parser
    /// hands back, and the only failure is that it hands back none.
    /// Without an earlier tree this is `parse`.
    pub fn parse_with_old_tree(&mut self, source: &str, old_tree: Option<&tree_sitter::Tree>) -> (r:
        Result<SimplifiedAST, CodeGraphError>)
        ensures
            old_tree is None ==> is_grammar_parse_of(r, source@, Language::Kotlin),
            old_tree is Some ==> is_parse_of(r, source, Language::Kotlin) && (r is Err
                ==> r->Err_0.message_text() == no_tree_text(Language::Kotlin, true)),
    {
        match old_tree {
            Some(old) => parse_with(&mut self.parser, source, Language::Kotlin, old),
            None => parse_fresh(source, Language::Kotlin),
        }
    }

    pub fn supported_extensions() -> (r: Vec<&'static str>)
        ensures
            kinds_view(r@) == kotlin_extensions(),
    {
        let r: Vec<&'static str> = vec!["kt", "kts"];
        assert(kinds_view(r@) =~= kotlin_extensions());
        r
    }

    /// Whether the path has a Kotlin extension, by the platform's path rules:
    /// for a path that every platform reads alike, whether the extension of
    /// the file name it ends in is one.
    pub fn is_kotlin_file(path: &str) -> (r: bool)
        ensures
            exists|ext: Option<Seq<char>>| r == extension_is_among(ext, kotlin_extensions()),
            is_portable_path(path@) ==> r == extension_is_among(extension_of(path@), kotlin_extensions()),
    {
        path_has_extension(path, &Self::supported_extensions())
    }
}

} // verus!
