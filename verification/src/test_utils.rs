//! Helpers for checking parsers and trees.

use vstd::prelude::*;
use vstd::string::*;
use crate::ast::{meta_lookup, ASTNode, MetaValue, NodeLocation};
use crate::error::CodeGraphError;
use crate::node_type::{ASTNodeType, NodeKind};
use crate::clock::{millis_since, moment};
use crate::registry::{is_grammar_parse_of, yields_tree, ParserRegistry};
use crate::simplified::SimplifiedAST;
use crate::text::{chars_of, count_lines, line_count};
use crate::types::Language;

verus! {

/// How many nodes of the given type a tree holds among `kids[i..]` and
/// below them.
pub open spec fn count_from(kids: Seq<ASTNode>, i: int, kind: NodeKind) -> nat
    decreases kids, kids.len() - i,
{
    if 0 <= i < kids.len() {
        count_in(kids[i], kind) + count_from(kids, i + 1, kind)
    } else {
        0
    }
}

/// How many nodes of the given type a tree holds, its root included.
pub open spec fn count_in(node: ASTNode, kind: NodeKind) -> nat
    decreases node,
{
    (if node.node_type@ == kind {
        1nat
    } else {
        0nat
    }) + count_from(node.children@, 0, kind)
}

/// A count as a machine number: itself if it fits, else the greatest one.
pub open spec fn saturated(n: nat) -> usize {
    if n > usize::MAX {
        usize::MAX
    } else {
        n as usize
    }
}

/// Whether some node among `kids[i..]` or below them has the given type
/// and name.
pub open spec fn holds_named_from(kids: Seq<ASTNode>, i: int, name: Seq<char>, kind: NodeKind) -> bool
    decreases kids, kids.len() - i,
{
    if 0 <= i < kids.len() {
        holds_named(kids[i], name, kind) || holds_named_from(kids, i + 1, name, kind)
    } else {
        false
    }
}

/// Whether a tree holds a node of the given type and name, its root included.
pub open spec fn holds_named(node: ASTNode, name: Seq<char>, kind: NodeKind) -> bool
    decreases node,
{
    (node.node_type@ == kind && crate::ast::name_text(node.name) == Some(name))
        || holds_named_from(node.children@, 0, name, kind)
}

/// Whether a location lies within a source: its lines within the lines of
/// the source and in order, its bytes within the bytes of the source.
pub open spec fn location_is_valid(location: NodeLocation, source: Seq<char>) -> bool {
    let lines = if line_count(source) > u32::MAX {
        u32::MAX as nat
    } else {
        line_count(source)
    };
    let len = if vstd::utf8::encode_utf8(source).len() > u32::MAX {
        u32::MAX as nat
    } else {
        vstd::utf8::encode_utf8(source).len()
    };
    &&& 1 <= location.start_line <= lines
    &&& location.end_line >= location.start_line
    &&& location.start_byte < len
    &&& location.end_byte <= len
}

/// Whether a location lies within a source.
pub fn assert_valid_location(location: &NodeLocation, source: &str) -> (r: bool)
    ensures
        r == location_is_valid(*location, source@),
{
    let c = chars_of(source);
    let counted = count_lines(c.as_slice());
    let lines: u32 = if counted > u32::MAX as usize {
        u32::MAX
    } else {
        counted as u32
    };
    let bytes = source.as_bytes().len();
    let len: u32 = if bytes > u32::MAX as usize {
        u32::MAX
    } else {
        bytes as u32
    };
    location.start_line >= 1 && location.start_line <= lines && location.end_line
        >= location.start_line && location.start_byte < len && location.end_byte <= len
}

/// Whether a parse coped with its source: it failed, or it yielded a tree
/// whose root is a program.
pub open spec fn copes(outcome: Result<SimplifiedAST, CodeGraphError>) -> bool {
    match outcome {
        Ok(ast) => ast.root.node_type@ == ASTNodeType::Program@,
        Err(_) => true,
    }
}

pub struct TestUtils;

impl TestUtils {
    /// Parses a source with a fresh registry: the parse succeeds exactly
    /// where the grammar of the language yields a tree, with the lowering
    /// of that tree.
    pub fn parse_source(source: &str, language: Language) -> (r: Result<
        SimplifiedAST,
        CodeGraphError,
    >)
        ensures
            is_grammar_parse_of(r, source@, language),
    {
        let registry = ParserRegistry::new();
        registry.parse(source, language)
    }

    /// Whether the source parses as the language: whether the grammar
    /// yields a tree for it. The language must be one that the engine has
    /// a grammar for.
    pub fn assert_parsing_succeeds(source: &str, language: Language) -> (r: bool)
        requires
            crate::syntax::has_grammar(language),
        ensures
            r == yields_tree(language, source@),
    {
        Self::parse_source(source, language).is_ok()
    }

    /// Whether parsing copes with the source: the parse fails, or it
    /// yields a tree whose root is a program. Where the grammar yields no
    /// tree the answer is `true`.
    pub fn assert_parsing_handles_errors(source: &str, language: Language) -> (r: bool)
        ensures
            exists|outcome: Result<SimplifiedAST, CodeGraphError>|
                #[trigger] is_grammar_parse_of(outcome, source@, language) && r == copes(outcome),
            !yields_tree(language, source@) ==> r,
    {
        let outcome = Self::parse_source(source, language);
        assert(is_grammar_parse_of(outcome, source@, language));
        match outcome {
            Ok(ast) => ast.root.node_type.same(&ASTNodeType::Program),
            Err(_) => true,
        }
    }

    /// How many nodes of the given type a tree holds.
    pub fn count_node_type(node: &ASTNode, target_type: &ASTNodeType) -> (r: usize)
        ensures
            r == saturated(count_in(*node, target_type@)),
        decreases node,
    {
        let mut count: usize = if node.node_type.same(target_type) {
            1
        } else {
            0
        };
        let ghost own = count as nat;
        let mut i: usize = 0;
        while i < node.children.len()
            invariant
                i <= node.children.len(),
                own == (if node.node_type@ == target_type@ {
                    1nat
                } else {
                    0nat
                }),
                count + count_from(node.children@, i as int, target_type@) == own + count_from(
                    node.children@,
                    0,
                    target_type@,
                ) || (count == usize::MAX && own + count_from(node.children@, 0, target_type@)
                    > usize::MAX),
            decreases node.children.len() - i,
        {
            let below = Self::count_node_type(&node.children[i], target_type);
            count = count.saturating_add(below);
            i += 1;
        }
        count
    }

    /// Whether the tree holds exactly the given number of nodes of a type.
    pub fn assert_node_count(ast: &SimplifiedAST, node_type: &ASTNodeType, expected_count: usize) -> (r:
        bool)
        ensures
            r == (saturated(count_in(ast.root, node_type@)) == expected_count),
    {
        Self::count_node_type(&ast.root, node_type) == expected_count
    }

    /// Whether a tree holds a node of the given type and name.
    pub fn find_named_node(node: &ASTNode, name: &str, node_type: &ASTNodeType) -> (r: bool)
        ensures
            r == holds_named(*node, name@, node_type@),
        decreases node,
    {
        let here = node.node_type.same(node_type) && match &node.name {
            Some(n) => crate::text::str_eq(n.as_str(), name),
            None => false,
        };
        if here {
            return true;
        }
        let mut i: usize = 0;
        while i < node.children.len()
            invariant
                i <= node.children.len(),
                holds_named_from(node.children@, i as int, name@, node_type@) == holds_named_from(
                    node.children@,
                    0,
                    name@,
                    node_type@,
                ),
            decreases node.children.len() - i,
        {
            if Self::find_named_node(&node.children[i], name, node_type) {
                return true;
            }
            i += 1;
        }
        false
    }

    /// Whether the tree holds a node of the given type and name.
    pub fn assert_contains_named_node(ast: &SimplifiedAST, name: &str, node_type: &ASTNodeType) -> (r:
        bool)
        ensures
            r == holds_named(ast.root, name@, node_type@),
    {
        Self::find_named_node(&ast.root, name, node_type)
    }

    /// Whether the tree holds a node of each of the given types.
    pub fn assert_contains_node_types(ast: &SimplifiedAST, expected_types: &Vec<ASTNodeType>) -> (r:
        bool)
        ensures
            r == forall|i: int|
                0 <= i < expected_types@.len() ==> count_in(
                    ast.root,
                    (#[trigger] expected_types@[i])@,
                ) > 0,
    {
        let mut i: usize = 0;
        while i < expected_types.len()
            invariant
                i <= expected_types.len(),
                forall|j: int|
                    0 <= j < i ==> count_in(ast.root, (#[trigger] expected_types@[j])@) > 0,
            decreases expected_types.len() - i,
        {
            if Self::count_node_type(&ast.root, &expected_types[i]) == 0 {
                return false;
            }
            i += 1;
        }
        true
    }

    /// Whether a node holds the expected value under a key.
    pub fn assert_metadata(node: &ASTNode, key: &str, expected_value: &MetaValue) -> (r: bool)
        ensures
            r == (meta_lookup(node.metadata@, key@) == Some(expected_value@)),
    {
        match node.get_metadata(key) {
            Some(v) => same_value(v, expected_value),
            None => false,
        }
    }
}

/// Whether two lists of strings hold the same texts.
pub fn same_strings(a: &Vec<String>, b: &Vec<String>) -> (r: bool)
    ensures
        r == (crate::text::texts(a@) == crate::text::texts(b@)),
{
    if a.len() != b.len() {
        assert(crate::text::texts(a@).len() != crate::text::texts(b@).len());
        return false;
    }
    let mut i: usize = 0;
    while i < a.len()
        invariant
            i <= a.len(),
            a.len() == b.len(),
            forall|j: int| 0 <= j < i ==> a@[j]@ == b@[j]@,
        decreases a.len() - i,
    {
        if a[i] != b[i] {
            assert(crate::text::texts(a@)[i as int] != crate::text::texts(b@)[i as int]);
            return false;
        }
        i += 1;
    }
    assert(crate::text::texts(a@) =~= crate::text::texts(b@));
    true
}

/// Whether two metadata values are the same.
pub fn same_value(a: &MetaValue, b: &MetaValue) -> (r: bool)
    ensures
        r == (a@ == b@),
{
    match (a, b) {
        (MetaValue::Bool(x), MetaValue::Bool(y)) => *x == *y,
        (MetaValue::Number(x), MetaValue::Number(y)) => *x == *y,
        (MetaValue::Text(x), MetaValue::Text(y)) => *x == *y,
        (MetaValue::List(x), MetaValue::List(y)) => same_strings(x, y),
        _ => false,
    }
}

/// A context for trying visitors on the small tree.
pub fn create_test_visitor_context() -> (r: crate::visitor::VisitorContext)
    ensures
        r.language == Language::Java,
        r.source@ == "class TestClass { void testMethod() {} }"@,
        r.file_path@ == "test.java"@,
        r.current_scope@.len() == 0,
        r.metadata@.len() == 0,
{
    crate::visitor::VisitorContext::new(
        Language::Java,
        String::from_str("class TestClass { void testMethod() {} }"),
        String::from_str("test.java"),
    )
}

/// A small tree for trying visitors on: a program with a public class
/// `TestClass` that holds a method `testMethod`, and a function
/// `testFunction`.
pub fn create_simple_test_ast() -> (ast: SimplifiedAST)
    ensures
        ast.language == Language::Java,
        ast.root.node_type is Program,
        ast.root.children@.len() == 2,
        ast.root.children@[0].node_type is ClassDeclaration,
        crate::ast::name_text(ast.root.children@[0].name) == Some("TestClass"@),
        ast.root.children@[0].children@.len() == 1,
        ast.root.children@[0].children@[0].node_type is MethodDeclaration,
        crate::ast::name_text(ast.root.children@[0].children@[0].name) == Some("testMethod"@),
        ast.root.children@[1].node_type is FunctionDeclaration,
        crate::ast::name_text(ast.root.children@[1].name) == Some("testFunction"@),
{
    let location = NodeLocation::new(1, 0, 10, 0, 0, 100);
    let mut root = ASTNode::new(ASTNodeType::Program, None, location);
    let mut class_node = ASTNode::new(
        ASTNodeType::ClassDeclaration,
        Some(String::from_str("TestClass")),
        location,
    );
    class_node.add_metadata("visibility", MetaValue::Text(String::from_str("public")));
    let method_node = ASTNode::new(
        ASTNodeType::MethodDeclaration,
        Some(String::from_str("testMethod")),
        location,
    );
    class_node.add_child(method_node);
    root.add_child(class_node);
    let function_node = ASTNode::new(
        ASTNodeType::FunctionDeclaration,
        Some(String::from_str("testFunction")),
        location,
    );
    root.add_child(function_node);
    SimplifiedAST::new(root, Language::Java, "test")
}

/// What a tree weighs where each node counts `base` and each entry of its
/// metadata `per_entry`, summed over `kids[i..]` and what stands below
/// them.
pub open spec fn weight_from(kids: Seq<ASTNode>, i: int, base: nat, per_entry: nat) -> nat
    decreases kids, kids.len() - i,
{
    if 0 <= i < kids.len() {
        weight_in(kids[i], base, per_entry) + weight_from(kids, i + 1, base, per_entry)
    } else {
        0
    }
}

/// What a tree weighs where each node counts `base` and each entry of its
/// metadata `per_entry`.
pub open spec fn weight_in(node: ASTNode, base: nat, per_entry: nat) -> nat
    decreases node,
{
    base + node.metadata@.len() * per_entry + weight_from(node.children@, 0, base, per_entry)
}

/// How many nodes a tree holds.
pub open spec fn all_nodes(node: ASTNode) -> nat {
    weight_in(node, 1, 0)
}

/// A rough measure of the bytes that a tree takes: the size of the tree's
/// record, and for each node the size of a node's record and the size of
/// a text for each entry of its metadata.
pub open spec fn memory_estimate(ast: SimplifiedAST) -> nat {
    vstd::layout::size_of::<SimplifiedAST>() + weight_in(
        ast.root,
        vstd::layout::size_of::<ASTNode>(),
        vstd::layout::size_of::<String>(),
    )
}

/// What a tree weighs, or the greatest machine number where that is less.
pub fn weigh(node: &ASTNode, base: usize, per_entry: usize) -> (r: usize)
    ensures
        r == saturated(weight_in(*node, base as nat, per_entry as nat)),
    decreases node,
{
    let ghost own = base as nat + node.metadata@.len() * (per_entry as nat);
    let entries = node.metadata.len();
    proof {
        assert(usize::MAX <= u64::MAX);
        vstd::arithmetic::mul::lemma_mul_upper_bound(
            entries as int,
            u64::MAX as int,
            per_entry as int,
            u64::MAX as int,
        );
        assert(u64::MAX * u64::MAX + u64::MAX < u128::MAX);
    }
    let wide: u128 = (base as u128) + (entries as u128) * (per_entry as u128);
    let mut sum: usize = if wide > usize::MAX as u128 {
        usize::MAX
    } else {
        wide as usize
    };
    let mut i: usize = 0;
    while i < node.children.len()
        invariant
            i <= node.children.len(),
            own == base as nat + node.metadata@.len() * (per_entry as nat),
            sum + weight_from(node.children@, i as int, base as nat, per_entry as nat) == own
                + weight_from(node.children@, 0, base as nat, per_entry as nat) || (sum
                == usize::MAX && own + weight_from(
                node.children@,
                0,
                base as nat,
                per_entry as nat,
            ) > usize::MAX),
        decreases node.children.len() - i,
    {
        let below = weigh(&node.children[i], base, per_entry);
        sum = sum.saturating_add(below);
        i += 1;
    }
    sum
}

/// What a parse took: the time, the number of nodes of the tree, and a
/// rough measure of the bytes that the tree takes.
#[derive(Debug, Clone, Copy, PartialEq, Eq)]
pub struct ParseMetrics {
    pub parse_time_ms: u64,
    pub ast_node_count: usize,
    pub memory_used_kb: usize,
}

/// What the measures of a parse say of a tree: how many nodes it holds
/// and the rough measure of its bytes, each as far as a machine number
/// holds it. The time is the clock's.
pub open spec fn measures(m: ParseMetrics, ast: SimplifiedAST) -> bool {
    &&& m.ast_node_count == saturated(all_nodes(ast.root))
    &&& m.memory_used_kb == saturated(memory_estimate(ast))
}

/// Parses a source and measures the parse. The parse fails exactly where
/// the grammar of the language yields no tree; the measures are those of
/// the tree that it yields.
pub fn measure_parsing_performance(source: &str, language: Language) -> (r: Result<
    ParseMetrics,
    CodeGraphError,
>)
    ensures
        match r {
            Ok(m) => exists|ast: SimplifiedAST| #[trigger]
                is_grammar_parse_of(Ok(ast), source@, language) && measures(m, ast),
            Err(e) => is_grammar_parse_of(Err(e), source@, language),
        },
{
    let start = moment();
    let parsed = TestUtils::parse_source(source, language);
    let parse_time_ms = millis_since(&start);
    match parsed {
        Ok(ast) => {
            let ast_node_count = weigh(&ast.root, 1, 0);
            let below = weigh(
                &ast.root,
                core::mem::size_of::<ASTNode>(),
                core::mem::size_of::<String>(),
            );
            let memory_used_kb = core::mem::size_of::<SimplifiedAST>().saturating_add(below);
            let m = ParseMetrics { parse_time_ms, ast_node_count, memory_used_kb };
            assert(is_grammar_parse_of(Ok(ast), source@, language));
            assert(measures(m, ast));
            Ok(m)
        },
        Err(e) => Err(e),
    }
}

} // verus!
