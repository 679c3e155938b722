//! The metadata collector: counts of the declarations of a tree, and for
//! each named class, function and method its size, complexity, parameters
//! and dependencies.

use vstd::prelude::*;
use vstd::string::*;
use crate::ast::{
    clone_metadata, lookup_bool, lookup_list, meta_lookup, meta_pairs, name_text, upsert_meta,
    ASTNode, MetaValue, MetaView, NodeLocation,
};
use crate::entity::list_at;
use crate::error::CodeGraphError;
use crate::node_type::NodeKind;
use crate::simplified::SimplifiedAST;
use crate::text::{
    chars_of, clamp_u32, count_lines, less_than, line_count, str_eq, text_lt, texts, to_u32,
};
use crate::types::Language;
use crate::visitor::{ASTVisitor, VisitResult, VisitorContext};

verus! {

/// The counts of one file. Counts that do not fit 32 bits stay at the
/// greatest 32-bit number.
#[derive(Debug, Clone)]
pub struct CodeMetrics {
    pub total_lines: u32,
    pub total_files: u32,
    pub classes_count: u32,
    pub functions_count: u32,
    pub methods_count: u32,
    pub variables_count: u32,
    /// The cyclomatic complexities of the named classes, functions and
    /// methods, added up.
    pub complexity_sum: u32,
    pub language_specific: Vec<(String, MetaValue)>,
}

/// What the collector records of one named class, function or method.
#[derive(Debug, Clone)]
pub struct EntityMetadata {
    pub entity_name: String,
    pub entity_type: String,
    pub location: NodeLocation,
    pub cyclomatic_complexity: u32,
    pub lines_of_code: u32,
    pub parameters_count: u32,
    pub dependencies: Vec<String>,
    pub attributes: Vec<(String, MetaValue)>,
}

/// What is counted among the nodes of a tree.
pub enum Tally {
    /// Nodes of a type.
    OfType(NodeKind),
    /// Functions and methods whose metadata holds `true` under a key.
    FlaggedFunctions(Seq<char>),
    /// Classes whose modifiers hold a word.
    ClassesWithModifier(Seq<char>),
    /// Functions and methods whose modifiers hold a word.
    FunctionsWithModifier(Seq<char>),
}

pub open spec fn is_function_or_method(node: ASTNode) -> bool {
    node.node_type is FunctionDeclaration || node.node_type is MethodDeclaration
}

/// Whether a node is one of those counted.
pub open spec fn counts(node: ASTNode, what: Tally) -> bool {
    match what {
        Tally::OfType(kind) => node.node_type@ == kind,
        Tally::FlaggedFunctions(key) => is_function_or_method(node) && meta_lookup(
            node.metadata@,
            key,
        ) == Some(MetaView::Bool(true)),
        Tally::ClassesWithModifier(word) => node.node_type is ClassDeclaration && list_at(
            node.metadata@,
            "modifiers"@,
        ).contains(word),
        Tally::FunctionsWithModifier(word) => is_function_or_method(node) && list_at(
            node.metadata@,
            "modifiers"@,
        ).contains(word),
    }
}

/// How many of the nodes among `kids[i..]` and below them are counted.
pub open spec fn tally_from(kids: Seq<ASTNode>, i: int, what: Tally) -> nat
    decreases kids, kids.len() - i,
{
    if 0 <= i < kids.len() {
        tally(kids[i], what) + tally_from(kids, i + 1, what)
    } else {
        0
    }
}

/// How many of the nodes of a tree are counted, its root included.
pub open spec fn tally(node: ASTNode, what: Tally) -> nat
    decreases node,
{
    (if counts(node, what) {
        1nat
    } else {
        0nat
    }) + tally_from(node.children@, 0, what)
}

/// The cyclomatic complexity of the subtrees `kids[i..]`, added up.
pub open spec fn complexity_from(kids: Seq<ASTNode>, i: int) -> nat
    decreases kids, kids.len() - i,
{
    if 0 <= i < kids.len() {
        complexity(kids[i]) + complexity_from(kids, i + 1)
    } else {
        0
    }
}

/// The cyclomatic complexity of a subtree: one for each node, and one more
/// for each `if`, `for` and `while`.
pub open spec fn complexity(node: ASTNode) -> nat
    decreases node,
{
    1 + (if node.node_type is IfStatement || node.node_type is ForStatement
        || node.node_type is WhileStatement {
        1nat
    } else {
        0nat
    }) + complexity_from(node.children@, 0)
}

/// The lines that a location spans.
pub open spec fn lines_spanned(location: NodeLocation) -> u32 {
    let span = if location.end_line >= location.start_line {
        location.end_line - location.start_line
    } else {
        0
    };
    clamp_u32(span + 1)
}

/// How many of `kids[i..]` are variable declarations.
pub open spec fn variables_from(kids: Seq<ASTNode>, i: int) -> nat
    decreases kids.len() - i,
{
    if 0 <= i < kids.len() {
        (if kids[i].node_type is VariableDeclaration {
            1nat
        } else {
            0nat
        }) + variables_from(kids, i + 1)
    } else {
        0
    }
}

/// The parameters of a node: as many as its `parameters` list holds or,
/// without such a list, as many as it has variable declarations for children.
pub open spec fn parameter_count(node: ASTNode) -> u32 {
    match meta_lookup(node.metadata@, "parameters"@) {
        Some(MetaView::List(l)) => clamp_u32(l.len() as int),
        _ => clamp_u32(variables_from(node.children@, 0) as int),
    }
}

/// The names of the calls among `kids[..upto]`.
pub open spec fn call_names(kids: Seq<ASTNode>, upto: int) -> Seq<Seq<char>>
    decreases upto,
{
    if upto <= 0 || upto > kids.len() {
        Seq::empty()
    } else {
        let front = call_names(kids, upto - 1);
        match kids[upto - 1].name {
            Some(n) => if kids[upto - 1].node_type is CallExpression {
                front.push(n@)
            } else {
                front
            },
            None => front,
        }
    }
}

/// `sorted` with `x` put at its place, unless it is there already.
pub open spec fn with_member(sorted: Seq<Seq<char>>, x: Seq<char>) -> Seq<Seq<char>>
    decreases sorted.len(),
{
    if sorted.len() == 0 {
        seq![x]
    } else if sorted.last() == x {
        sorted
    } else if text_lt(sorted.last(), x) {
        sorted.push(x)
    } else {
        with_member(sorted.drop_last(), x).push(sorted.last())
    }
}

/// The texts of `items` in increasing order, each once.
pub open spec fn sorted_members(items: Seq<Seq<char>>) -> Seq<Seq<char>>
    decreases items.len(),
{
    if items.len() == 0 {
        Seq::empty()
    } else {
        with_member(sorted_members(items.drop_last()), items.last())
    }
}

/// What a node depends on: its imports, its types and the calls among its
/// children, in increasing order, each once.
pub open spec fn dependencies_of(node: ASTNode) -> Seq<Seq<char>> {
    sorted_members(
        list_at(node.metadata@, "imports"@) + list_at(node.metadata@, "types"@) + call_names(
            node.children@,
            node.children@.len() as int,
        ),
    )
}

/// Puts a text at its place in a sorted list, unless it is there already.
pub fn insert_member(sorted: &mut Vec<String>, x: String)
    ensures
        texts(final(sorted)@) == with_member(texts(old(sorted)@), x@),
{
    let ghost before = texts(sorted@);
    let key = chars_of(x.as_str());
    let mut pos: usize = sorted.len();
    assert(before.take(pos as int) =~= before);
    assert(before.skip(pos as int) =~= Seq::<Seq<char>>::empty());
    assert(with_member(before, x@) + Seq::<Seq<char>>::empty() =~= with_member(before, x@));
    loop
        invariant
            pos <= sorted.len(),
            key@ == x@,
            *sorted == *old(sorted),
            before == texts(sorted@),
            with_member(before, x@) == with_member(before.take(pos as int), x@) + before.skip(
                pos as int,
            ),
        decreases pos,
    {
        let ghost head = before.take(pos as int);
        if pos == 0 {
            assert(head =~= Seq::<Seq<char>>::empty());
            assert(seq![x@] + before.skip(0) =~= before.insert(0, x@));
            assert(texts(sorted@.insert(0, x)) =~= before.insert(0, x@));
            sorted.insert(0, x);
            return;
        }
        let last = chars_of(sorted[pos - 1].as_str());
        assert(head.last() == before[pos - 1] && last@ == head.last());
        if crate::text::same_text(last.as_slice(), key.as_slice()) {
            assert(head + before.skip(pos as int) =~= before);
            return;
        }
        if less_than(last.as_slice(), key.as_slice()) {
            assert(head.push(x@) + before.skip(pos as int) =~= before.insert(pos as int, x@));
            assert(texts(sorted@.insert(pos as int, x)) =~= before.insert(pos as int, x@));
            sorted.insert(pos, x);
            return;
        }
        proof {
            assert(head.drop_last() =~= before.take(pos - 1));
            assert(with_member(before.take(pos - 1), x@).push(head.last()) + before.skip(
                pos as int,
            ) =~= with_member(before.take(pos - 1), x@) + before.skip(pos - 1));
        }
        pos -= 1;
    }
}

/// Puts each of the items at its place in a sorted list.
fn insert_members(sorted: &mut Vec<String>, items: &Vec<String>, Ghost(base): Ghost<Seq<Seq<char>>>)
    requires
        texts(old(sorted)@) == sorted_members(base),
    ensures
        texts(final(sorted)@) == sorted_members(base + texts(items@)),
{
    let mut i: usize = 0;
    assert(base + texts(items@).take(0) =~= base);
    while i < items.len()
        invariant
            i <= items.len(),
            texts(sorted@) == sorted_members(base + texts(items@).take(i as int)),
        decreases items.len() - i,
    {
        insert_member(sorted, items[i].clone());
        proof {
            let grown = base + texts(items@).take(i + 1);
            assert(grown.drop_last() =~= base + texts(items@).take(i as int));
            assert(grown.last() == items@[i as int]@);
        }
        i += 1;
    }
    assert(texts(items@).take(items@.len() as int) =~= texts(items@));
}

/// How many of the nodes of a tree are of the given type.
fn count_of_type(node: &ASTNode, target: &crate::node_type::ASTNodeType) -> (r: u32)
    ensures
        r == clamp_u32(tally(*node, Tally::OfType(target@)) as int),
    decreases node,
{
    let mut count: u32 = if node.node_type.same(target) {
        1
    } else {
        0
    };
    let ghost what = Tally::OfType(target@);
    let ghost total = tally(*node, what);
    let mut i: usize = 0;
    while i < node.children.len()
        invariant
            i <= node.children.len(),
            what == Tally::OfType(target@),
            total == tally(*node, what),
            clamp_u32(count + tally_from(node.children@, i as int, what)) == clamp_u32(
                total as int,
            ),
        decreases node.children.len() - i,
    {
        let below = count_of_type(&node.children[i], target);
        count = count.saturating_add(below);
        i += 1;
    }
    count
}

/// How many functions and methods of a tree hold `true` under a key.
fn count_flagged(node: &ASTNode, key: &str) -> (r: u32)
    ensures
        r == clamp_u32(tally(*node, Tally::FlaggedFunctions(key@)) as int),
    decreases node,
{
    let function_like = match node.node_type {
        crate::node_type::ASTNodeType::FunctionDeclaration
        | crate::node_type::ASTNodeType::MethodDeclaration => true,
        _ => false,
    };
    let flagged = function_like && match lookup_bool(&node.metadata, key) {
        Some(b) => b,
        None => false,
    };
    let ghost what = Tally::FlaggedFunctions(key@);
    assert(flagged == counts(*node, what));
    let mut count: u32 = if flagged {
        1
    } else {
        0
    };
    let ghost total = tally(*node, what);
    let mut i: usize = 0;
    while i < node.children.len()
        invariant
            i <= node.children.len(),
            what == Tally::FlaggedFunctions(key@),
            total == tally(*node, what),
            clamp_u32(count + tally_from(node.children@, i as int, what)) == clamp_u32(
                total as int,
            ),
        decreases node.children.len() - i,
    {
        let below = count_flagged(&node.children[i], key);
        count = count.saturating_add(below);
        i += 1;
    }
    count
}

/// Whether a list of strings holds a text.
fn holds(list: &Vec<String>, word: &str) -> (r: bool)
    ensures
        r == texts(list@).contains(word@),
{
    let mut i: usize = 0;
    while i < list.len()
        invariant
            i <= list.len(),
            forall|k: int| 0 <= k < i ==> texts(list@)[k] != word@,
        decreases list.len() - i,
    {
        if str_eq(list[i].as_str(), word) {
            assert(texts(list@)[i as int] == word@);
            return true;
        }
        i += 1;
    }
    false
}

/// How many classes, or functions and methods, of a tree have a word among
/// their modifiers.
fn count_with_modifier(node: &ASTNode, word: &str, classes: bool) -> (r: u32)
    ensures
        r == clamp_u32(
            tally(
                *node,
                if classes {
                    Tally::ClassesWithModifier(word@)
                } else {
                    Tally::FunctionsWithModifier(word@)
                },
            ) as int,
        ),
    decreases node,
{
    let of_kind = match node.node_type {
        crate::node_type::ASTNodeType::ClassDeclaration => classes,
        crate::node_type::ASTNodeType::FunctionDeclaration
        | crate::node_type::ASTNodeType::MethodDeclaration => !classes,
        _ => false,
    };
    let marked = of_kind && match lookup_list(&node.metadata, "modifiers") {
        Some(l) => holds(&l, word),
        None => {
            assert(!Seq::<Seq<char>>::empty().contains(word@));
            false
        },
    };
    let ghost what = if classes {
        Tally::ClassesWithModifier(word@)
    } else {
        Tally::FunctionsWithModifier(word@)
    };
    assert(marked == counts(*node, what));
    let mut count: u32 = if marked {
        1
    } else {
        0
    };
    let ghost total = tally(*node, what);
    let mut i: usize = 0;
    while i < node.children.len()
        invariant
            i <= node.children.len(),
            what == (if classes {
                Tally::ClassesWithModifier(word@)
            } else {
                Tally::FunctionsWithModifier(word@)
            }),
            total == tally(*node, what),
            clamp_u32(count + tally_from(node.children@, i as int, what)) == clamp_u32(
                total as int,
            ),
        decreases node.children.len() - i,
    {
        let below = count_with_modifier(&node.children[i], word, classes);
        count = count.saturating_add(below);
        i += 1;
    }
    count
}

/// The cyclomatic complexity of a subtree.
pub fn calculate_cyclomatic_complexity(node: &ASTNode) -> (r: u32)
    ensures
        r == clamp_u32(complexity(*node) as int),
    decreases node,
{
    let mut total: u32 = match node.node_type {
        crate::node_type::ASTNodeType::IfStatement
        | crate::node_type::ASTNodeType::ForStatement
        | crate::node_type::ASTNodeType::WhileStatement => 2,
        _ => 1,
    };
    let mut i: usize = 0;
    while i < node.children.len()
        invariant
            i <= node.children.len(),
            clamp_u32(total + complexity_from(node.children@, i as int)) == clamp_u32(
                complexity(*node) as int,
            ),
        decreases node.children.len() - i,
    {
        let below = calculate_cyclomatic_complexity(&node.children[i]);
        total = total.saturating_add(below);
        i += 1;
    }
    total
}

/// The lines that a node spans.
pub fn calculate_lines_of_code(node: &ASTNode) -> (r: u32)
    ensures
        r == lines_spanned(node.location),
{
    let span = if node.location.end_line >= node.location.start_line {
        node.location.end_line - node.location.start_line
    } else {
        0
    };
    span.saturating_add(1)
}

/// The number of parameters of a node.
pub fn count_parameters(node: &ASTNode) -> (r: u32)
    ensures
        r == parameter_count(*node),
{
    match lookup_list(&node.metadata, "parameters") {
        Some(l) => {
            assert(texts(l@).len() == l@.len());
            to_u32(l.len())
        },
        None => {
            let mut n: usize = 0;
            let mut i: usize = 0;
            while i < node.children.len()
                invariant
                    i <= node.children.len(),
                    n <= i,
                    n + variables_from(node.children@, i as int) == variables_from(
                        node.children@,
                        0,
                    ),
                decreases node.children.len() - i,
            {
                match node.children[i].node_type {
                    crate::node_type::ASTNodeType::VariableDeclaration => {
                        n += 1;
                    },
                    _ => {},
                }
                i += 1;
            }
            to_u32(n)
        },
    }
}

/// What a node depends on.
pub fn extract_dependencies(node: &ASTNode) -> (r: Vec<String>)
    ensures
        texts(r@) == dependencies_of(*node),
{
    let mut out: Vec<String> = Vec::new();
    let ghost nothing = Seq::<Seq<char>>::empty();
    assert(texts(out@) =~= sorted_members(nothing));
    let imports = match lookup_list(&node.metadata, "imports") {
        Some(l) => l,
        None => Vec::new(),
    };
    assert(texts(imports@) =~= list_at(node.metadata@, "imports"@));
    insert_members(&mut out, &imports, Ghost(nothing));
    assert(nothing + texts(imports@) =~= texts(imports@));
    let types = match lookup_list(&node.metadata, "types") {
        Some(l) => l,
        None => Vec::new(),
    };
    assert(texts(types@) =~= list_at(node.metadata@, "types"@));
    insert_members(&mut out, &types, Ghost(texts(imports@)));
    let ghost base = texts(imports@) + texts(types@);
    let mut i: usize = 0;
    assert(base + call_names(node.children@, 0) =~= base);
    while i < node.children.len()
        invariant
            i <= node.children.len(),
            texts(out@) == sorted_members(base + call_names(node.children@, i as int)),
        decreases node.children.len() - i,
    {
        let child = &node.children[i];
        let is_call = match child.node_type {
            crate::node_type::ASTNodeType::CallExpression => true,
            _ => false,
        };
        match &child.name {
            Some(n) => {
                if is_call {
                    insert_member(&mut out, n.clone());
                    proof {
                        let grown = base + call_names(node.children@, i + 1);
                        assert(grown.drop_last() =~= base + call_names(node.children@, i as int));
                        assert(grown.last() == n@);
                    }
                }
            },
            None => {},
        }
        i += 1;
    }
    out
}

/// The named classes, functions and methods among `kids[i..]` and below
/// them, each with the word for its kind, in depth-first order.
pub open spec fn measured_from(kids: Seq<ASTNode>, i: int) -> Seq<(ASTNode, Seq<char>)>
    decreases kids, kids.len() - i,
{
    if 0 <= i < kids.len() {
        measured(kids[i]) + measured_from(kids, i + 1)
    } else {
        Seq::empty()
    }
}

/// The word for the kind of a measured node.
pub open spec fn measured_kind(node: ASTNode) -> Option<Seq<char>> {
    if node.name is None {
        None
    } else if node.node_type is ClassDeclaration {
        Some("class"@)
    } else if node.node_type is FunctionDeclaration {
        Some("function"@)
    } else if node.node_type is MethodDeclaration {
        Some("method"@)
    } else {
        None
    }
}

/// The named classes, functions and methods of a tree, each with the word
/// for its kind, in depth-first order.
pub open spec fn measured(node: ASTNode) -> Seq<(ASTNode, Seq<char>)>
    decreases node,
{
    (match measured_kind(node) {
        Some(k) => seq![(node, k)],
        None => Seq::empty(),
    }) + measured_from(node.children@, 0)
}

/// `m` holds the measures of `node`, recorded as a `kind`.
pub open spec fn measures(m: EntityMetadata, node: ASTNode, kind: Seq<char>) -> bool {
    &&& Some(m.entity_name@) == name_text(node.name)
    &&& m.entity_type@ == kind
    &&& m.location == node.location
    &&& m.cyclomatic_complexity == clamp_u32(complexity(node) as int)
    &&& m.lines_of_code == lines_spanned(node.location)
    &&& m.parameters_count == parameter_count(node)
    &&& texts(m.dependencies@) == dependencies_of(node)
    &&& meta_pairs(m.attributes@) == meta_pairs(node.metadata@)
}

/// Each of `ms` holds the measures of the node at the same place in `sources`.
pub open spec fn measure_all(ms: Seq<EntityMetadata>, sources: Seq<(ASTNode, Seq<char>)>) -> bool {
    &&& ms.len() == sources.len()
    &&& forall|i: int| 0 <= i < ms.len() ==> measures(#[trigger] ms[i], sources[i].0, sources[i].1)
}

/// The count that is recorded for a tree of a language under a key, if the
/// key is one of the two of that language.
pub open spec fn language_count(root: ASTNode, language: Language, key: Seq<char>) -> Option<u32> {
    match language {
        Language::Python => if key == "comprehensions_count"@ {
            Some(clamp_u32(tally(root, Tally::OfType(NodeKind::Comprehension)) as int))
        } else if key == "decorators_count"@ {
            Some(clamp_u32(tally(root, Tally::OfType(NodeKind::Decorator)) as int))
        } else {
            None
        },
        Language::Java => if key == "interfaces_count"@ {
            Some(clamp_u32(tally(root, Tally::OfType(NodeKind::InterfaceDeclaration)) as int))
        } else if key == "annotations_count"@ {
            Some(clamp_u32(tally(root, Tally::OfType(NodeKind::Annotation)) as int))
        } else {
            None
        },
        Language::JavaScript => if key == "async_functions_count"@ {
            Some(clamp_u32(tally(root, Tally::FlaggedFunctions("async"@)) as int))
        } else if key == "arrow_functions_count"@ {
            Some(clamp_u32(tally(root, Tally::FlaggedFunctions("arrow"@)) as int))
        } else {
            None
        },
        Language::Kotlin => if key == "suspend_functions_count"@ {
            Some(clamp_u32(tally(root, Tally::FunctionsWithModifier("suspend"@)) as int))
        } else if key == "data_classes_count"@ {
            Some(clamp_u32(tally(root, Tally::ClassesWithModifier("data"@)) as int))
        } else {
            None
        },
        _ => None,
    }
}

/// The two keys of each language are different keys.
proof fn lemma_count_keys_differ()
    ensures
        "decorators_count"@ != "comprehensions_count"@,
        "annotations_count"@ != "interfaces_count"@,
        "arrow_functions_count"@ != "async_functions_count"@,
        "data_classes_count"@ != "suspend_functions_count"@,
{
    reveal_strlit("decorators_count");
    reveal_strlit("comprehensions_count");
    reveal_strlit("annotations_count");
    reveal_strlit("interfaces_count");
    reveal_strlit("arrow_functions_count");
    reveal_strlit("async_functions_count");
    reveal_strlit("data_classes_count");
    reveal_strlit("suspend_functions_count");
    assert("decorators_count"@.len() != "comprehensions_count"@.len());
    assert("annotations_count"@.len() != "interfaces_count"@.len());
    assert("arrow_functions_count"@[1] != "async_functions_count"@[1]);
    assert("data_classes_count"@.len() != "suspend_functions_count"@.len());
}

/// Collects counts and measures from a tree.
pub struct MetadataCollector {
    metrics: CodeMetrics,
    entity_metadata: Vec<EntityMetadata>,
}

impl MetadataCollector {
    /// The measures collected so far.
    pub closed spec fn measured_so_far(self) -> Seq<EntityMetadata> {
        self.entity_metadata@
    }

    /// The counts so far.
    pub closed spec fn counted(self) -> CodeMetrics {
        self.metrics
    }

    pub fn new() -> (r: Self)
        ensures
            r.measured_so_far().len() == 0,
            r.counted().total_lines == 0,
            r.counted().total_files == 0,
            r.counted().classes_count == 0,
            r.counted().functions_count == 0,
            r.counted().methods_count == 0,
            r.counted().variables_count == 0,
            r.counted().complexity_sum == 0,
            r.counted().language_specific@.len() == 0,
    {
        MetadataCollector {
            metrics: CodeMetrics {
                total_lines: 0,
                total_files: 0,
                classes_count: 0,
                functions_count: 0,
                methods_count: 0,
                variables_count: 0,
                complexity_sum: 0,
                language_specific: Vec::new(),
            },
            entity_metadata: Vec::new(),
        }
    }

    fn collect_entity_metadata(&mut self, node: &ASTNode, entity_type: &str)
        ensures
            final(self).counted().total_lines == old(self).counted().total_lines,
            final(self).counted().total_files == old(self).counted().total_files,
            final(self).counted().classes_count == old(self).counted().classes_count,
            final(self).counted().functions_count == old(self).counted().functions_count,
            final(self).counted().methods_count == old(self).counted().methods_count,
            final(self).counted().variables_count == old(self).counted().variables_count,
            final(self).counted().language_specific == old(self).counted().language_specific,
            match node.name {
                Some(_) => final(self).measured_so_far().len() == old(self).measured_so_far().len()
                    + 1 && final(self).measured_so_far().drop_last() == old(self).measured_so_far() && measures(
                    final(self).measured_so_far().last(),
                    *node,
                    entity_type@,
                ),
                None => final(self).measured_so_far() == old(self).measured_so_far(),
            },
    {
        match &node.name {
            Some(name) => {
                let complexity = calculate_cyclomatic_complexity(node);
                let ghost before = self.entity_metadata@;
                self.metrics.complexity_sum = self.metrics.complexity_sum.saturating_add(
                    complexity,
                );
                self.entity_metadata.push(
                    EntityMetadata {
                        entity_name: name.clone(),
                        entity_type: String::from_str(entity_type),
                        location: node.location,
                        cyclomatic_complexity: complexity,
                        lines_of_code: calculate_lines_of_code(node),
                        parameters_count: count_parameters(node),
                        dependencies: extract_dependencies(node),
                        attributes: clone_metadata(&node.metadata),
                    },
                );
                assert(self.entity_metadata@.drop_last() =~= before);
            },
            None => {},
        }
    }

    /// Counts the declarations of a subtree and measures its named classes,
    /// functions and methods.
    pub fn collect(&mut self, node: &ASTNode)
        ensures
            final(self).counted().total_lines == old(self).counted().total_lines,
            final(self).counted().total_files == old(self).counted().total_files,
            final(self).counted().language_specific == old(self).counted().language_specific,
            final(self).counted().classes_count == clamp_u32(
                old(self).counted().classes_count + tally(
                    *node,
                    Tally::OfType(NodeKind::ClassDeclaration),
                ),
            ),
            final(self).counted().functions_count == clamp_u32(
                old(self).counted().functions_count + tally(
                    *node,
                    Tally::OfType(NodeKind::FunctionDeclaration),
                ),
            ),
            final(self).counted().methods_count == clamp_u32(
                old(self).counted().methods_count + tally(
                    *node,
                    Tally::OfType(NodeKind::MethodDeclaration),
                ),
            ),
            final(self).counted().variables_count == clamp_u32(
                old(self).counted().variables_count + tally(
                    *node,
                    Tally::OfType(NodeKind::VariableDeclaration),
                ),
            ),
            final(self).measured_so_far().len() >= old(self).measured_so_far().len(),
            final(self).measured_so_far().take(old(self).measured_so_far().len() as int) == old(self).measured_so_far(),
            measure_all(
                final(self).measured_so_far().skip(old(self).measured_so_far().len() as int),
                measured(*node),
            ),
        decreases node,
    {
        let ghost before = self.entity_metadata@;
        let ghost counts0 = self.metrics;
        match node.node_type {
            crate::node_type::ASTNodeType::ClassDeclaration => {
                self.metrics.classes_count = self.metrics.classes_count.saturating_add(1);
                self.collect_entity_metadata(node, "class");
            },
            crate::node_type::ASTNodeType::FunctionDeclaration => {
                self.metrics.functions_count = self.metrics.functions_count.saturating_add(1);
                self.collect_entity_metadata(node, "function");
            },
            crate::node_type::ASTNodeType::MethodDeclaration => {
                self.metrics.methods_count = self.metrics.methods_count.saturating_add(1);
                self.collect_entity_metadata(node, "method");
            },
            crate::node_type::ASTNodeType::VariableDeclaration => {
                self.metrics.variables_count = self.metrics.variables_count.saturating_add(1);
            },
            _ => {},
        }
        let ghost own_sources = match measured_kind(*node) {
            Some(k) => seq![(*node, k)],
            None => Seq::<(ASTNode, Seq<char>)>::empty(),
        };
        assert(self.entity_metadata@.take(before.len() as int) =~= before);
        assert(measure_all(self.entity_metadata@.skip(before.len() as int), own_sources));
        let ghost done: Seq<(ASTNode, Seq<char>)> = Seq::empty();
        let ghost classes = Tally::OfType(NodeKind::ClassDeclaration);
        let ghost functions = Tally::OfType(NodeKind::FunctionDeclaration);
        let ghost methods = Tally::OfType(NodeKind::MethodDeclaration);
        let ghost variables = Tally::OfType(NodeKind::VariableDeclaration);
        let mut i: usize = 0;
        while i < node.children.len()
            invariant
                i <= node.children.len(),
                classes == Tally::OfType(NodeKind::ClassDeclaration),
                functions == Tally::OfType(NodeKind::FunctionDeclaration),
                methods == Tally::OfType(NodeKind::MethodDeclaration),
                variables == Tally::OfType(NodeKind::VariableDeclaration),
                self.metrics.total_lines == counts0.total_lines,
                self.metrics.total_files == counts0.total_files,
                self.metrics.language_specific == counts0.language_specific,
                clamp_u32(self.metrics.classes_count + tally_from(node.children@, i as int, classes))
                    == clamp_u32(counts0.classes_count + tally(*node, classes)),
                clamp_u32(
                    self.metrics.functions_count + tally_from(node.children@, i as int, functions),
                ) == clamp_u32(counts0.functions_count + tally(*node, functions)),
                clamp_u32(self.metrics.methods_count + tally_from(node.children@, i as int, methods))
                    == clamp_u32(counts0.methods_count + tally(*node, methods)),
                clamp_u32(
                    self.metrics.variables_count + tally_from(node.children@, i as int, variables),
                ) == clamp_u32(counts0.variables_count + tally(*node, variables)),
                self.entity_metadata@.len() >= before.len(),
                self.entity_metadata@.take(before.len() as int) == before,
                measure_all(self.entity_metadata@.skip(before.len() as int), own_sources + done),
                done + measured_from(node.children@, i as int) == measured_from(node.children@, 0),
            decreases node.children.len() - i,
        {
            let ghost so_far = self.entity_metadata@;
            let ghost here = measured(node.children@[i as int]);
            let ghost rest = measured_from(node.children@, i + 1);
            self.collect(&node.children[i]);
            proof {
                let added = self.entity_metadata@.skip(so_far.len() as int);
                let all = self.entity_metadata@.skip(before.len() as int);
                let earlier = so_far.skip(before.len() as int);
                assert(self.entity_metadata@.take(before.len() as int) =~= so_far.take(
                    before.len() as int,
                ));
                assert(all =~= earlier + added) by {
                    assert(all.len() == earlier.len() + added.len());
                    assert forall|k: int| 0 <= k < all.len() implies all[k] == (earlier + added)[k] by {
                        if k < earlier.len() {
                            assert(self.entity_metadata@.take(so_far.len() as int)[before.len() + k]
                                == so_far[before.len() + k]);
                        }
                    }
                }
                assert(measure_all(all, own_sources + done + here)) by {
                    let sources = own_sources + done + here;
                    assert forall|k: int| 0 <= k < all.len() implies measures(
                        #[trigger] all[k],
                        sources[k].0,
                        sources[k].1,
                    ) by {
                        if k < earlier.len() {
                            assert(all[k] == earlier[k]);
                            assert(sources[k] == (own_sources + done)[k]);
                        } else {
                            assert(all[k] == added[k - earlier.len()]);
                            assert(sources[k] == here[k - earlier.len()]);
                        }
                    }
                }
                assert((done + here) + rest =~= done + (here + rest));
                assert(own_sources + done + here =~= own_sources + (done + here));
                done = done + here;
            }
            i += 1;
        }
        proof {
            assert(done + Seq::<(ASTNode, Seq<char>)>::empty() =~= done);
            assert(own_sources + done =~= measured(*node));
        }
    }

    fn put_count(&mut self, key: &str, count: u32)
        ensures
            meta_lookup(final(self).counted().language_specific@, key@) == Some(
                MetaView::Number(count as u64),
            ),
            forall|other: Seq<char>|
                other != key@ ==> meta_lookup(final(self).counted().language_specific@, other)
                    == meta_lookup(old(self).counted().language_specific@, other),
            final(self).counted().total_lines == old(self).counted().total_lines,
            final(self).counted().total_files == old(self).counted().total_files,
            final(self).counted().classes_count == old(self).counted().classes_count,
            final(self).counted().functions_count == old(self).counted().functions_count,
            final(self).counted().methods_count == old(self).counted().methods_count,
            final(self).counted().variables_count == old(self).counted().variables_count,
            final(self).counted().complexity_sum == old(self).counted().complexity_sum,
            final(self).measured_so_far() == old(self).measured_so_far(),
    {
        upsert_meta(&mut self.metrics.language_specific, key, MetaValue::Number(count as u64));
    }

    /// Records the counts that are particular to the language of the tree:
    /// two for each of Python, Java, JavaScript and Kotlin, none otherwise.
    pub fn collect_language_specific_metadata(&mut self, ast: &SimplifiedAST)
        ensures
            final(self).measured_so_far() == old(self).measured_so_far(),
            final(self).counted().total_lines == old(self).counted().total_lines,
            final(self).counted().total_files == old(self).counted().total_files,
            final(self).counted().classes_count == old(self).counted().classes_count,
            final(self).counted().functions_count == old(self).counted().functions_count,
            final(self).counted().methods_count == old(self).counted().methods_count,
            final(self).counted().variables_count == old(self).counted().variables_count,
            final(self).counted().complexity_sum == old(self).counted().complexity_sum,
            forall|key: Seq<char>|
                meta_lookup(final(self).counted().language_specific@, key) == (
                match language_count(ast.root, ast.language, key) {
                    Some(n) => Some(MetaView::Number(n as u64)),
                    None => meta_lookup(old(self).counted().language_specific@, key),
                }),
    {
        proof {
            lemma_count_keys_differ();
        }
        match ast.language {
            Language::Python => {
                let decorators = count_of_type(
                    &ast.root,
                    &crate::node_type::ASTNodeType::Decorator,
                );
                let comprehensions = count_of_type(
                    &ast.root,
                    &crate::node_type::ASTNodeType::Comprehension,
                );
                self.put_count("decorators_count", decorators);
                self.put_count("comprehensions_count", comprehensions);
            },
            Language::Java => {
                let annotations = count_of_type(
                    &ast.root,
                    &crate::node_type::ASTNodeType::Annotation,
                );
                let interfaces = count_of_type(
                    &ast.root,
                    &crate::node_type::ASTNodeType::InterfaceDeclaration,
                );
                self.put_count("annotations_count", annotations);
                self.put_count("interfaces_count", interfaces);
            },
            Language::JavaScript => {
                let arrows = count_flagged(&ast.root, "arrow");
                let asyncs = count_flagged(&ast.root, "async");
                self.put_count("arrow_functions_count", arrows);
                self.put_count("async_functions_count", asyncs);
            },
            Language::Kotlin => {
                let data_classes = count_with_modifier(&ast.root, "data", true);
                let suspends = count_with_modifier(&ast.root, "suspend", false);
                self.put_count("data_classes_count", data_classes);
                self.put_count("suspend_functions_count", suspends);
            },
            _ => {},
        }
    }

    /// Visits a whole tree: one file, the lines of its source, the counts
    /// and measures of its nodes, and the counts of its language.
    pub fn measure(&mut self, ast: &SimplifiedAST, source: &str)
        ensures
            final(self).counted().total_files == 1,
            final(self).counted().total_lines == clamp_u32(line_count(source@) as int),
            final(self).counted().classes_count == clamp_u32(
                old(self).counted().classes_count + tally(
                    ast.root,
                    Tally::OfType(NodeKind::ClassDeclaration),
                ),
            ),
            final(self).counted().functions_count == clamp_u32(
                old(self).counted().functions_count + tally(
                    ast.root,
                    Tally::OfType(NodeKind::FunctionDeclaration),
                ),
            ),
            final(self).counted().methods_count == clamp_u32(
                old(self).counted().methods_count + tally(
                    ast.root,
                    Tally::OfType(NodeKind::MethodDeclaration),
                ),
            ),
            final(self).counted().variables_count == clamp_u32(
                old(self).counted().variables_count + tally(
                    ast.root,
                    Tally::OfType(NodeKind::VariableDeclaration),
                ),
            ),
            measure_all(
                final(self).measured_so_far().skip(old(self).measured_so_far().len() as int),
                measured(ast.root),
            ),
    {
        self.metrics.total_files = 1;
        let c = chars_of(source);
        self.metrics.total_lines = to_u32(count_lines(c.as_slice()));
        self.collect(&ast.root);
        self.collect_language_specific_metadata(ast);
    }
}

/// Copies the counts.
pub fn copy_metrics(m: &CodeMetrics) -> (r: CodeMetrics)
    ensures
        r.total_lines == m.total_lines,
        r.total_files == m.total_files,
        r.classes_count == m.classes_count,
        r.functions_count == m.functions_count,
        r.methods_count == m.methods_count,
        r.variables_count == m.variables_count,
        r.complexity_sum == m.complexity_sum,
        meta_pairs(r.language_specific@) == meta_pairs(m.language_specific@),
{
    CodeMetrics {
        total_lines: m.total_lines,
        total_files: m.total_files,
        classes_count: m.classes_count,
        functions_count: m.functions_count,
        methods_count: m.methods_count,
        variables_count: m.variables_count,
        complexity_sum: m.complexity_sum,
        language_specific: clone_metadata(&m.language_specific),
    }
}

/// Two measures hold the same values.
pub open spec fn same_measure(a: EntityMetadata, b: EntityMetadata) -> bool {
    &&& a.entity_name@ == b.entity_name@
    &&& a.entity_type@ == b.entity_type@
    &&& a.location == b.location
    &&& a.cyclomatic_complexity == b.cyclomatic_complexity
    &&& a.lines_of_code == b.lines_of_code
    &&& a.parameters_count == b.parameters_count
    &&& texts(a.dependencies@) == texts(b.dependencies@)
    &&& meta_pairs(a.attributes@) == meta_pairs(b.attributes@)
}

/// Copies a list of measures.
pub fn copy_measures(ms: &Vec<EntityMetadata>) -> (r: Vec<EntityMetadata>)
    ensures
        r@.len() == ms@.len(),
        forall|i: int| 0 <= i < r@.len() ==> same_measure(#[trigger] ms@[i], r@[i]),
{
    let mut out: Vec<EntityMetadata> = Vec::new();
    let mut i: usize = 0;
    while i < ms.len()
        invariant
            i <= ms.len(),
            out@.len() == i,
            forall|k: int| 0 <= k < i ==> same_measure(#[trigger] ms@[k], out@[k]),
        decreases ms.len() - i,
    {
        let m = &ms[i];
        out.push(
            EntityMetadata {
                entity_name: m.entity_name.clone(),
                entity_type: m.entity_type.clone(),
                location: m.location,
                cyclomatic_complexity: m.cyclomatic_complexity,
                lines_of_code: m.lines_of_code,
                parameters_count: m.parameters_count,
                dependencies: crate::ast::clone_strings(&m.dependencies),
                attributes: clone_metadata(&m.attributes),
            },
        );
        i += 1;
    }
    out
}

impl ASTVisitor for MetadataCollector {
    type Output = (CodeMetrics, Vec<EntityMetadata>);

    /// A visit of a tree never fails and leaves the context as it was: it
    /// measures the tree against the source of the context, and hands back
    /// copies of the counts and of the measures collected so far.
    open spec fn visits_ast(
        &self,
        ast: SimplifiedAST,
        context: VisitorContext,
        after: &Self,
        left: VisitorContext,
        r: Result<(CodeMetrics, Vec<EntityMetadata>), CodeGraphError>,
    ) -> bool {
        &&& left == context
        &&& r matches Ok(out) && out.0.total_files == 1 && out.0.total_lines == clamp_u32(
            line_count(context.source@) as int,
        ) && out.0.classes_count == after.counted().classes_count && out.0.functions_count
            == after.counted().functions_count && out.0.methods_count
            == after.counted().methods_count && out.0.variables_count
            == after.counted().variables_count && out.0.complexity_sum
            == after.counted().complexity_sum && meta_pairs(out.0.language_specific@)
            == meta_pairs(after.counted().language_specific@) && out.1@.len()
            == after.measured_so_far().len() && forall|i: int|
            0 <= i < out.1@.len() ==> same_measure(#[trigger] after.measured_so_far()[i], out.1@[i])
        &&& measure_all(
            after.measured_so_far().skip(self.measured_so_far().len() as int),
            measured(ast.root),
        )
    }

    /// A visit of a node answers `Continue` and leaves the context as it
    /// was: it counts and measures the node and everything below it.
    open spec fn visits_node(
        &self,
        node: ASTNode,
        context: VisitorContext,
        after: &Self,
        left: VisitorContext,
        r: Result<VisitResult, CodeGraphError>,
    ) -> bool {
        &&& r == Ok::<VisitResult, CodeGraphError>(VisitResult::Continue)
        &&& left == context
        &&& measure_all(
            after.measured_so_far().skip(self.measured_so_far().len() as int),
            measured(node),
        )
    }

    /// Measures the whole tree against the source of the context and hands
    /// back copies of the counts and of the measures collected so far.
    fn visit_ast(&mut self, ast: &SimplifiedAST, context: &mut VisitorContext) -> (r: Result<
        (CodeMetrics, Vec<EntityMetadata>),
        CodeGraphError,
    >)
        ensures
            *final(context) == *old(context),
            r matches Ok(out) && out.0.total_files == 1 && out.0.total_lines == clamp_u32(
                line_count(old(context).source@) as int,
            ) && out.0.classes_count == final(self).counted().classes_count
                && out.0.functions_count == final(self).counted().functions_count
                && out.0.methods_count == final(self).counted().methods_count
                && out.0.variables_count == final(self).counted().variables_count
                && out.0.complexity_sum == final(self).counted().complexity_sum && meta_pairs(
                out.0.language_specific@,
            ) == meta_pairs(final(self).counted().language_specific@) && out.1@.len() == final(self).measured_so_far().len() && forall|i: int|
                0 <= i < out.1@.len() ==> same_measure(
                    #[trigger] final(self).measured_so_far()[i],
                    out.1@[i],
                ),
            measure_all(
                final(self).measured_so_far().skip(old(self).measured_so_far().len() as int),
                measured(ast.root),
            ),
    {
        self.measure(ast, context.source.as_str());
        Ok((copy_metrics(&self.metrics), copy_measures(&self.entity_metadata)))
    }

    /// Counts and measures a node and everything below it.
    fn visit_node(&mut self, node: &ASTNode, context: &mut VisitorContext) -> (r: Result<
        VisitResult,
        CodeGraphError,
    >)
        ensures
            r == Ok::<VisitResult, CodeGraphError>(VisitResult::Continue),
            *final(context) == *old(context),
            measure_all(
                final(self).measured_so_far().skip(old(self).measured_so_far().len() as int),
                measured(*node),
            ),
    {
        self.collect(node);
        Ok(VisitResult::Continue)
    }
}

} // verus!
