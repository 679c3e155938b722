//! Walking the simplified syntax tree: the context that a walk carries,
//! what a visit answers, and visitors built from other visitors.

use vstd::prelude::*;
use vstd::string::*;
use crate::ast::{lookup_meta, meta_lookup, upsert_meta, ASTNode, MetaValue};
use crate::error::CodeGraphError;
use crate::simplified::SimplifiedAST;
use crate::text::texts;
use crate::types::Language;

verus! {

/// What a walk carries along: the language and source of the file, its
/// path, the names of the scopes it is inside of, and metadata.
#[derive(Debug, Clone)]
pub struct VisitorContext {
    pub language: Language,
    pub source: String,
    pub file_path: String,
    pub current_scope: Vec<String>,
    pub metadata: Vec<(String, MetaValue)>,
}

/// The names of a scope path with `::` between them.
pub open spec fn scope_path(scope: Seq<Seq<char>>) -> Seq<char>
    decreases scope.len(),
{
    if scope.len() == 0 {
        Seq::empty()
    } else if scope.len() == 1 {
        scope[0]
    } else {
        scope_path(scope.drop_last()) + "::"@ + scope.last()
    }
}

impl VisitorContext {
    /// A context outside every scope and without metadata.
    pub fn new(language: Language, source: String, file_path: String) -> (r: Self)
        ensures
            r.language == language,
            r.source == source,
            r.file_path == file_path,
            r.current_scope@.len() == 0,
            r.metadata@.len() == 0,
    {
        VisitorContext {
            language,
            source,
            file_path,
            current_scope: Vec::new(),
            metadata: Vec::new(),
        }
    }

    /// Enters a scope.
    pub fn push_scope(&mut self, scope_name: String)
        ensures
            final(self).current_scope@ == old(self).current_scope@.push(scope_name),
            final(self).language == old(self).language,
            final(self).source == old(self).source,
            final(self).file_path == old(self).file_path,
            final(self).metadata == old(self).metadata,
    {
        self.current_scope.push(scope_name);
    }

    /// Leaves the innermost scope and hands back its name, if the walk is
    /// inside any scope.
    pub fn pop_scope(&mut self) -> (r: Option<String>)
        ensures
            old(self).current_scope@.len() > 0 ==> r == Some(old(self).current_scope@.last())
                && final(self).current_scope@ == old(self).current_scope@.drop_last(),
            old(self).current_scope@.len() == 0 ==> r is None && final(self).current_scope@
                == old(self).current_scope@,
            final(self).language == old(self).language,
            final(self).source == old(self).source,
            final(self).file_path == old(self).file_path,
            final(self).metadata == old(self).metadata,
    {
        self.current_scope.pop()
    }

    /// The names of the scopes the walk is inside of, outermost first, with
    /// `::` between them.
    pub fn current_scope_path(&self) -> (r: String)
        ensures
            r@ == scope_path(texts(self.current_scope@)),
    {
        let mut out = String::new();
        let mut i: usize = 0;
        assert(texts(self.current_scope@).take(0) =~= Seq::<Seq<char>>::empty());
        while i < self.current_scope.len()
            invariant
                i <= self.current_scope.len(),
                out@ == scope_path(texts(self.current_scope@).take(i as int)),
            decreases self.current_scope.len() - i,
        {
            proof {
                let t = texts(self.current_scope@).take(i + 1);
                assert(t.drop_last() =~= texts(self.current_scope@).take(i as int));
                assert(t.last() == self.current_scope@[i as int]@);
                if i == 0 {
                    assert(Seq::<char>::empty() + t[0] =~= t[0]);
                }
            }
            if i > 0 {
                out.append("::");
            }
            out.append(self.current_scope[i].as_str());
            i += 1;
        }
        assert(texts(self.current_scope@).take(self.current_scope@.len() as int) =~= texts(
            self.current_scope@,
        ));
        out
    }

    /// Records a value under a key, in place of what the key held before.
    pub fn add_metadata(&mut self, key: &str, value: MetaValue)
        ensures
            meta_lookup(final(self).metadata@, key@) == Some(value@),
            forall|other: Seq<char>|
                other != key@ ==> meta_lookup(final(self).metadata@, other) == meta_lookup(
                    old(self).metadata@,
                    other,
                ),
            final(self).language == old(self).language,
            final(self).source == old(self).source,
            final(self).file_path == old(self).file_path,
            final(self).current_scope == old(self).current_scope,
    {
        upsert_meta(&mut self.metadata, key, value);
    }

    /// The value recorded under a key.
    pub fn get_metadata(&self, key: &str) -> (r: Option<&MetaValue>)
        ensures
            match r {
                Some(v) => meta_lookup(self.metadata@, key@) == Some(v@),
                None => meta_lookup(self.metadata@, key@) is None,
            },
    {
        lookup_meta(&self.metadata, key)
    }
}

/// What a visit answers: go on into the children, leave this subtree out,
/// or end the walk.
#[derive(Debug, Clone, Copy, PartialEq, Eq, Structural)]
pub enum VisitResult {
    Continue,
    Skip,
    Stop,
}

/// The answer of two visitors taken together: `Stop` if either says so,
/// else `Skip` if either says so, else `Continue`.
pub open spec fn combined(a: VisitResult, b: VisitResult) -> VisitResult {
    if a == VisitResult::Stop || b == VisitResult::Stop {
        VisitResult::Stop
    } else if a == VisitResult::Skip || b == VisitResult::Skip {
        VisitResult::Skip
    } else {
        VisitResult::Continue
    }
}

/// The answer of two visitors taken together.
pub fn combine(a: VisitResult, b: VisitResult) -> (r: VisitResult)
    ensures
        r == combined(a, b),
{
    match (a, b) {
        (VisitResult::Stop, _) | (_, VisitResult::Stop) => VisitResult::Stop,
        (VisitResult::Skip, _) | (_, VisitResult::Skip) => VisitResult::Skip,
        (VisitResult::Continue, VisitResult::Continue) => VisitResult::Continue,
    }
}

/// A visitor of simplified syntax trees.
///
/// A visitor says in `visits_ast` and `visits_node` what a visit may do:
/// each relates the visitor and the context before a visit to the visitor
/// and the context after it and to the visit's result. A visitor that
/// states neither leaves both open, and every outcome is then possible.
pub trait ASTVisitor {
    type Output;

    /// Whether a visit of the tree may turn this visitor into `after` and
    /// the context into `left`, with the result `r`.
    open spec fn visits_ast(
        &self,
        ast: SimplifiedAST,
        context: VisitorContext,
        after: &Self,
        left: VisitorContext,
        r: Result<Self::Output, CodeGraphError>,
    ) -> bool {
        true
    }

    /// Whether a visit of the node may turn this visitor into `after` and
    /// the context into `left`, with the result `r`.
    open spec fn visits_node(
        &self,
        node: ASTNode,
        context: VisitorContext,
        after: &Self,
        left: VisitorContext,
        r: Result<VisitResult, CodeGraphError>,
    ) -> bool {
        true
    }

    /// Visits a whole tree and hands back what the visitor gathered.
    fn visit_ast(&mut self, ast: &SimplifiedAST, context: &mut VisitorContext) -> (r: Result<
        Self::Output,
        CodeGraphError,
    >)
        ensures
            old(self).visits_ast(*ast, *old(context), final(self), *final(context), r),
    ;

    /// Visits one node.
    fn visit_node(&mut self, node: &ASTNode, context: &mut VisitorContext) -> (r: Result<
        VisitResult,
        CodeGraphError,
    >)
        ensures
            old(self).visits_node(*node, *old(context), final(self), *final(context), r),
    ;
}

/// Whether the visitor may have gone through the first `n` of `kids`, from
/// left to right, with none of them answering `Stop` and none failing, and
/// have come out of it as `after`, with the context `left`.
pub open spec fn passes<V: ASTVisitor>(
    before: V,
    context: VisitorContext,
    kids: Seq<ASTNode>,
    n: int,
    after: V,
    left: VisitorContext,
) -> bool
    decreases n,
{
    if n <= 0 {
        after == before && left == context
    } else {
        exists|mid: V, mid_context: VisitorContext, answer: VisitResult|
            passes(before, context, kids, n - 1, mid, mid_context) && answer != VisitResult::Stop
                && #[trigger] mid.visits_node(kids[n - 1], mid_context, &after, left, Ok(answer))
    }
}

/// Whether a visit of `kids` from left to right may turn the visitor into
/// `after` and the context into `left`, with the result `r`: either every
/// child is visited, none answers `Stop` or fails, and the result is
/// `Continue`; or the first child that answers `Stop` or fails ends the
/// visit, and its result is the result.
pub open spec fn visits_children<V: ASTVisitor>(
    before: V,
    context: VisitorContext,
    kids: Seq<ASTNode>,
    after: V,
    left: VisitorContext,
    r: Result<VisitResult, CodeGraphError>,
) -> bool {
    ||| r == Ok::<VisitResult, CodeGraphError>(VisitResult::Continue) && passes(
        before,
        context,
        kids,
        kids.len() as int,
        after,
        left,
    )
    ||| (r == Ok::<VisitResult, CodeGraphError>(VisitResult::Stop) || r is Err) && exists|
        n: int,
        mid: V,
        mid_context: VisitorContext,
    |
        0 <= n < kids.len() && #[trigger] passes(before, context, kids, n, mid, mid_context)
            && mid.visits_node(kids[n], mid_context, &after, left, r)
}

/// Visits the children of a node from left to right. A child that answers
/// `Stop`, or fails, ends the visit; after any other answer the visit goes
/// on with the next child.
pub fn visit_children<V: ASTVisitor>(
    visitor: &mut V,
    node: &ASTNode,
    context: &mut VisitorContext,
) -> (r: Result<VisitResult, CodeGraphError>)
    ensures
        visits_children(
            *old(visitor),
            *old(context),
            node.children@,
            *final(visitor),
            *final(context),
            r,
        ),
        r matches Ok(v) ==> v == VisitResult::Continue || v == VisitResult::Stop,
        node.children@.len() == 0 ==> r == Ok::<VisitResult, CodeGraphError>(VisitResult::Continue)
            && *final(visitor) == *old(visitor) && *final(context) == *old(context),
{
    let mut i: usize = 0;
    while i < node.children.len()
        invariant
            i <= node.children.len(),
            passes(*old(visitor), *old(context), node.children@, i as int, *visitor, *context),
        decreases node.children.len() - i,
    {
        let ghost mid = *visitor;
        let ghost mid_context = *context;
        let answer = visitor.visit_node(&node.children[i], context);
        match answer {
            Ok(VisitResult::Stop) => {
                return Ok(VisitResult::Stop);
            },
            Ok(_) => {},
            Err(e) => {
                return Err(e);
            },
        }
        i += 1;
        proof {
            assert(mid.visits_node(
                node.children@[i - 1],
                mid_context,
                &*visitor,
                *context,
                Ok(answer->Ok_0),
            ));
        }
    }
    Ok(VisitResult::Continue)
}

/// Whether a walk of a node may turn the visitor into `after` and the
/// context into `left`, with the result `r`. The visitor visits the node.
/// Where that fails, the walk fails in the same way; after `Skip` or `Stop`
/// the walk is done; after `Continue` the visitor visits the node's
/// children, and the walk fails exactly where that visit fails.
pub open spec fn walks_node<V: ASTVisitor>(
    before: V,
    node: ASTNode,
    context: VisitorContext,
    after: V,
    left: VisitorContext,
    r: Result<(), CodeGraphError>,
) -> bool {
    ||| r is Ok && exists|answer: VisitResult|
        answer != VisitResult::Continue && #[trigger] before.visits_node(
            node,
            context,
            &after,
            left,
            Ok(answer),
        )
    ||| r matches Err(e) && before.visits_node(node, context, &after, left, Err(e))
    ||| exists|mid: V, mid_context: VisitorContext, below: Result<VisitResult, CodeGraphError>|
        before.visits_node(
            node,
            context,
            &mid,
            mid_context,
            Ok(VisitResult::Continue),
        ) && #[trigger] visits_children(mid, mid_context, node.children@, after, left, below)
            && r == (match below {
            Ok(_) => Ok::<(), CodeGraphError>(()),
            Err(e) => Err(e),
        })
}

/// Drives a visitor over a tree.
pub struct WalkingVisitor<V: ASTVisitor> {
    visitor: V,
}

impl<V: ASTVisitor> WalkingVisitor<V> {
    /// The visitor that is driven.
    pub closed spec fn inner(self) -> V {
        self.visitor
    }

    pub fn new(visitor: V) -> (r: Self)
        ensures
            r.inner() == visitor,
    {
        WalkingVisitor { visitor }
    }

    /// Lets the visitor visit the whole tree.
    pub fn walk(&mut self, ast: &SimplifiedAST, context: &mut VisitorContext) -> (r: Result<
        V::Output,
        CodeGraphError,
    >)
        ensures
            old(self).inner().visits_ast(
                *ast,
                *old(context),
                &final(self).inner(),
                *final(context),
                r,
            ),
    {
        self.visitor.visit_ast(ast, context)
    }

    /// Lets the visitor visit a node and, where it answers `Continue`, the
    /// node's children.
    pub fn walk_node(&mut self, node: &ASTNode, context: &mut VisitorContext) -> (r: Result<
        (),
        CodeGraphError,
    >)
        ensures
            walks_node(
                old(self).inner(),
                *node,
                *old(context),
                final(self).inner(),
                *final(context),
                r,
            ),
    {
        match self.visitor.visit_node(node, context) {
            Ok(VisitResult::Continue) => {
                let ghost mid = self.visitor;
                let ghost mid_context = *context;
                let below = visit_children(&mut self.visitor, node, context);
                assert(visits_children(
                    mid,
                    mid_context,
                    node.children@,
                    self.visitor,
                    *context,
                    below,
                ));
                match below {
                    Ok(_) => Ok(()),
                    Err(e) => Err(e),
                }
            },
            Ok(other) => {
                assert(old(self).inner().visits_node(
                    *node,
                    *old(context),
                    &self.visitor,
                    *context,
                    Ok(other),
                ));
                Ok(())
            },
            Err(e) => Err(e),
        }
    }

    /// The visitor, handed back.
    pub fn into_inner(self) -> (r: V)
        ensures
            r == self.inner(),
    {
        self.visitor
    }
}

/// Two visitors run one after the other on each tree and node.
pub struct CompositeVisitor<V1, V2> {
    visitor1: V1,
    visitor2: V2,
}

impl<V1: ASTVisitor, V2: ASTVisitor> CompositeVisitor<V1, V2> {
    /// The visitor that runs first.
    pub closed spec fn first(self) -> V1 {
        self.visitor1
    }

    /// The visitor that runs second.
    pub closed spec fn second(self) -> V2 {
        self.visitor2
    }

    pub fn new(visitor1: V1, visitor2: V2) -> (r: Self)
        ensures
            r.first() == visitor1,
            r.second() == visitor2,
    {
        CompositeVisitor { visitor1, visitor2 }
    }
}

impl<V1: ASTVisitor, V2: ASTVisitor> ASTVisitor for CompositeVisitor<V1, V2> {
    type Output = V1::Output;

    /// The first visitor visits the tree. Where it fails, the visit fails
    /// in the same way and the second visitor is left alone. Otherwise the
    /// second visits the tree, in the context that the first left; where
    /// it fails the visit fails in the same way, else the result is what
    /// the first gathered.
    open spec fn visits_ast(
        &self,
        ast: SimplifiedAST,
        context: VisitorContext,
        after: &Self,
        left: VisitorContext,
        r: Result<V1::Output, CodeGraphError>,
    ) -> bool {
        exists|mid_context: VisitorContext, one: Result<V1::Output, CodeGraphError>|
            #[trigger] self.first().visits_ast(ast, context, &after.first(), mid_context, one)
                && match one {
                Ok(gathered) => exists|two: Result<V2::Output, CodeGraphError>|
                    #[trigger] self.second().visits_ast(
                        ast,
                        mid_context,
                        &after.second(),
                        left,
                        two,
                    ) && r == (match two {
                        Ok(_) => Ok::<V1::Output, CodeGraphError>(gathered),
                        Err(e) => Err(e),
                    }),
                Err(e) => r == Err::<V1::Output, CodeGraphError>(e) && after.second()
                    == self.second() && left == mid_context,
            }
    }

    /// The first visitor visits the node. Where it fails or answers `Stop`,
    /// that is the result and the second visitor is left alone. Otherwise
    /// the second visits the node, in the context that the first left;
    /// where it fails the visit fails in the same way, else the result is
    /// the two answers taken together.
    open spec fn visits_node(
        &self,
        node: ASTNode,
        context: VisitorContext,
        after: &Self,
        left: VisitorContext,
        r: Result<VisitResult, CodeGraphError>,
    ) -> bool {
        exists|mid_context: VisitorContext, one: Result<VisitResult, CodeGraphError>|
            #[trigger] self.first().visits_node(node, context, &after.first(), mid_context, one)
                && match one {
                Ok(VisitResult::Stop) | Err(_) => r == one && after.second() == self.second()
                    && left == mid_context,
                Ok(first) => exists|two: Result<VisitResult, CodeGraphError>|
                    #[trigger] self.second().visits_node(
                        node,
                        mid_context,
                        &after.second(),
                        left,
                        two,
                    ) && r == (match two {
                        Ok(second) => Ok::<VisitResult, CodeGraphError>(combined(first, second)),
                        Err(e) => Err(e),
                    }),
            }
    }

    /// Runs both visitors on the tree and hands back what the first gathered.
    fn visit_ast(&mut self, ast: &SimplifiedAST, context: &mut VisitorContext) -> (r: Result<
        V1::Output,
        CodeGraphError,
    >) {
        let one = self.visitor1.visit_ast(ast, context);
        let ghost answer = one;
        let ghost mid_context = *context;
        let r = match one {
            Ok(gathered) => {
                let two = self.visitor2.visit_ast(ast, context);
                proof {
                    assert(old(self).second().visits_ast(
                        *ast,
                        mid_context,
                        &self.second(),
                        *context,
                        two,
                    ));
                }
                match two {
                    Ok(_) => Ok(gathered),
                    Err(e) => Err(e),
                }
            },
            Err(e) => Err(e),
        };
        proof {
            assert(old(self).first().visits_ast(
                *ast,
                *old(context),
                &self.first(),
                mid_context,
                answer,
            ));
        }
        r
    }

    /// Runs the first visitor on the node and, unless it answers `Stop`,
    /// the second; the answer is that of the two taken together.
    fn visit_node(&mut self, node: &ASTNode, context: &mut VisitorContext) -> (r: Result<
        VisitResult,
        CodeGraphError,
    >) {
        let one = self.visitor1.visit_node(node, context);
        let ghost mid_context = *context;
        let r = match one {
            Ok(VisitResult::Stop) => Ok(VisitResult::Stop),
            Ok(first) => {
                let two = self.visitor2.visit_node(node, context);
                proof {
                    assert(old(self).second().visits_node(
                        *node,
                        mid_context,
                        &self.second(),
                        *context,
                        two,
                    ));
                }
                match two {
                    Ok(second) => Ok(combine(first, second)),
                    Err(e) => Err(e),
                }
            },
            Err(e) => Err(e),
        };
        proof {
            assert(old(self).first().visits_node(
                *node,
                *old(context),
                &self.first(),
                mid_context,
                one,
            ));
        }
        r
    }
}

/// Copies a list of nodes.
pub fn clone_nodes(nodes: &Vec<ASTNode>) -> (r: Vec<ASTNode>)
    ensures
        r@.len() == nodes@.len(),
        forall|i: int| 0 <= i < r@.len() ==> crate::ast::same_tree(#[trigger] nodes@[i], r@[i]),
{
    let mut out: Vec<ASTNode> = Vec::new();
    let mut i: usize = 0;
    while i < nodes.len()
        invariant
            i <= nodes.len(),
            out@.len() == i,
            forall|k: int| 0 <= k < i ==> crate::ast::same_tree(#[trigger] nodes@[k], out@[k]),
        decreases nodes.len() - i,
    {
        out.push(nodes[i].clone());
        i += 1;
    }
    out
}

/// The nodes of the subtrees `kids[i..]`, each node before what stands
/// below it.
pub open spec fn preorder_from(kids: Seq<ASTNode>, i: int) -> Seq<ASTNode>
    decreases kids, kids.len() - i,
{
    if 0 <= i < kids.len() {
        preorder(kids[i]) + preorder_from(kids, i + 1)
    } else {
        Seq::empty()
    }
}

/// The nodes of a tree in the order a depth-first walk meets them: the
/// root, then what stands below each child, from left to right.
pub open spec fn preorder(node: ASTNode) -> Seq<ASTNode>
    decreases node,
{
    seq![node] + preorder_from(node.children@, 0)
}

/// The nodes whose answer is `true`, in order.
pub open spec fn chosen(nodes: Seq<ASTNode>, answers: Seq<bool>) -> Seq<ASTNode>
    decreases nodes.len(),
{
    if nodes.len() == 0 || answers.len() != nodes.len() {
        Seq::empty()
    } else {
        let front = chosen(nodes.drop_last(), answers.drop_last());
        if answers.last() {
            front.push(nodes.last())
        } else {
            front
        }
    }
}

/// Each of `copies` holds the same values as the node at its place in `nodes`.
pub open spec fn copies_of(copies: Seq<ASTNode>, nodes: Seq<ASTNode>) -> bool {
    &&& copies.len() == nodes.len()
    &&& forall|i: int| 0 <= i < nodes.len() ==> crate::ast::same_tree(#[trigger] nodes[i], copies[i])
}

/// `answers` holds, for each of `nodes` in turn, an answer that the filter
/// may give when asked about that node in the context.
pub open spec fn answered_by<F: Fn(&ASTNode, &VisitorContext) -> bool>(
    filter: F,
    context: VisitorContext,
    nodes: Seq<ASTNode>,
    answers: Seq<bool>,
) -> bool {
    &&& answers.len() == nodes.len()
    &&& forall|i: int|
        0 <= i < nodes.len() ==> filter.ensures((&nodes[i], &context), #[trigger] answers[i])
}

/// Choosing from two runs of nodes, one after the other, is choosing from
/// each and putting the results one after the other.
pub proof fn lemma_chosen_of_both(
    nodes: Seq<ASTNode>,
    answers: Seq<bool>,
    more: Seq<ASTNode>,
    more_answers: Seq<bool>,
)
    requires
        answers.len() == nodes.len(),
        more_answers.len() == more.len(),
    ensures
        chosen(nodes + more, answers + more_answers) == chosen(nodes, answers) + chosen(
            more,
            more_answers,
        ),
    decreases more.len(),
{
    if more.len() == 0 {
        assert(nodes + more =~= nodes);
        assert(answers + more_answers =~= answers);
        assert(chosen(nodes, answers) + chosen(more, more_answers) =~= chosen(nodes, answers));
    } else {
        let all = nodes + more;
        let all_answers = answers + more_answers;
        assert(all.drop_last() =~= nodes + more.drop_last());
        assert(all_answers.drop_last() =~= answers + more_answers.drop_last());
        assert(all.last() == more.last() && all_answers.last() == more_answers.last());
        lemma_chosen_of_both(nodes, answers, more.drop_last(), more_answers.drop_last());
        let front = chosen(nodes, answers);
        let rest = chosen(more.drop_last(), more_answers.drop_last());
        if more_answers.last() {
            assert((front + rest).push(more.last()) =~= front + rest.push(more.last()));
        }
    }
}

/// Appends copies of the nodes of a subtree that the filter accepts, in the
/// order a depth-first walk meets them, and hands back the answers that
/// the filter gave, node by node.
fn gather<F: Fn(&ASTNode, &VisitorContext) -> bool>(
    filter: &F,
    node: &ASTNode,
    context: &VisitorContext,
    out: &mut Vec<ASTNode>,
) -> (answers: Ghost<Seq<bool>>)
    requires
        forall|n: &ASTNode, c: &VisitorContext| filter.requires((n, c)),
    ensures
        final(out)@.len() >= old(out)@.len(),
        final(out)@.take(old(out)@.len() as int) == old(out)@,
        answered_by(*filter, *context, preorder(*node), answers@),
        copies_of(
            final(out)@.skip(old(out)@.len() as int),
            chosen(preorder(*node), answers@),
        ),
    decreases node,
{
    let ghost before = out@;
    let accepted = filter(node, context);
    if accepted {
        out.push(node.clone());
    }
    let ghost seen: Seq<ASTNode> = seq![*node];
    let ghost answers: Seq<bool> = seq![accepted];
    proof {
        assert(out@.take(before.len() as int) =~= before);
        assert(seen.drop_last() =~= Seq::<ASTNode>::empty());
        assert(chosen(seen.drop_last(), answers.drop_last()) =~= Seq::<ASTNode>::empty());
        assert(seen.last() == *node && answers.last() == accepted);
        assert(chosen(seen, answers) =~= (if accepted {
            seq![*node]
        } else {
            Seq::<ASTNode>::empty()
        }));
        assert(copies_of(out@.skip(before.len() as int), chosen(seen, answers)));
    }
    let mut i: usize = 0;
    while i < node.children.len()
        invariant
            i <= node.children.len(),
            forall|n: &ASTNode, c: &VisitorContext| filter.requires((n, c)),
            out@.len() >= before.len(),
            out@.take(before.len() as int) == before,
            seen + preorder_from(node.children@, i as int) == preorder(*node),
            answered_by(*filter, *context, seen, answers),
            copies_of(out@.skip(before.len() as int), chosen(seen, answers)),
        decreases node.children.len() - i,
    {
        let ghost prior = out@;
        let ghost below = preorder(node.children@[i as int]);
        let ghost rest = preorder_from(node.children@, i + 1);
        let given = gather(filter, &node.children[i], context, out);
        proof {
            let more = given@;
            assert(out@.take(before.len() as int) =~= prior.take(before.len() as int));
            lemma_chosen_of_both(seen, answers, below, more);
            let picked = chosen(seen, answers);
            let added = chosen(below, more);
            let all = out@.skip(before.len() as int);
            let earlier = prior.skip(before.len() as int);
            let later = out@.skip(prior.len() as int);
            assert(all =~= earlier + later) by {
                assert(all.len() == earlier.len() + later.len());
                assert forall|k: int| 0 <= k < all.len() implies all[k] == (earlier + later)[k] by {
                    if k < earlier.len() {
                        assert(out@.take(prior.len() as int)[before.len() + k] == prior[before.len()
                            + k]);
                    }
                }
            }
            assert(copies_of(all, picked + added)) by {
                assert forall|k: int| 0 <= k < (picked + added).len() implies crate::ast::same_tree(
                    #[trigger] (picked + added)[k],
                    all[k],
                ) by {
                    if k < picked.len() {
                        assert((picked + added)[k] == picked[k] && all[k] == earlier[k]);
                    } else {
                        assert((picked + added)[k] == added[k - picked.len()]);
                        assert(all[k] == later[k - picked.len()]);
                    }
                }
            }
            assert(answered_by(*filter, *context, seen + below, answers + more)) by {
                assert forall|k: int| 0 <= k < (seen + below).len() implies filter.ensures(
                    (&(seen + below)[k], context),
                    #[trigger] (answers + more)[k],
                ) by {
                    if k < seen.len() {
                        assert((seen + below)[k] == seen[k] && (answers + more)[k] == answers[k]);
                    } else {
                        assert((seen + below)[k] == below[k - seen.len()]);
                        assert((answers + more)[k] == more[k - seen.len()]);
                    }
                }
            }
            assert((seen + below) + rest =~= seen + (below + rest));
            seen = seen + below;
            answers = answers + more;
        }
        i += 1;
    }
    proof {
        assert(seen + Seq::<ASTNode>::empty() =~= seen);
    }
    Ghost(answers)
}

/// A visitor that collects the nodes that a filter accepts.
pub struct FilterVisitor<F: Fn(&ASTNode, &VisitorContext) -> bool> {
    filter: F,
    collected: Vec<ASTNode>,
}

impl<F: Fn(&ASTNode, &VisitorContext) -> bool> FilterVisitor<F> {
    /// The invariant of the type: the filter can be asked about every
    /// node. `new` demands it of the filter it is given, and the visits
    /// take it from here when they call the filter.
    #[verifier::type_invariant]
    spec fn callable(self) -> bool {
        forall|n: &ASTNode, c: &VisitorContext| self.filter.requires((n, c))
    }

    /// The filter that is asked about each node.
    pub closed spec fn filter_of(self) -> F {
        self.filter
    }

    /// The copies collected so far, in the order they were collected.
    pub closed spec fn collected_nodes(self) -> Seq<ASTNode> {
        self.collected@
    }

    /// What a visit of a tree leaves collected, and that it changes nothing
    /// else: what was collected before stays in front, copy for copy, and
    /// behind it stand copies of those nodes of the tree, in depth-first
    /// order, that the filter accepted when it was asked in the context.
    pub open spec fn collects(self, before: Self, node: ASTNode, context: VisitorContext) -> bool {
        &&& self.filter_of() == before.filter_of()
        &&& self.collected_nodes().len() >= before.collected_nodes().len()
        &&& copies_of(
            self.collected_nodes().take(before.collected_nodes().len() as int),
            before.collected_nodes(),
        )
        &&& exists|answers: Seq<bool>| #[trigger]
            answered_by(before.filter_of(), context, preorder(node), answers) && copies_of(
                self.collected_nodes().skip(before.collected_nodes().len() as int),
                chosen(preorder(node), answers),
            )
    }

    /// A visitor over a filter that can be asked about every node; nothing
    /// is collected yet.
    pub fn new(filter: F) -> (r: Self)
        requires
            forall|n: &ASTNode, c: &VisitorContext| filter.requires((n, c)),
        ensures
            r.filter_of() == filter,
            r.collected_nodes().len() == 0,
    {
        FilterVisitor { filter, collected: Vec::new() }
    }
}

impl<F: Fn(&ASTNode, &VisitorContext) -> bool> ASTVisitor for FilterVisitor<F> {
    type Output = Vec<ASTNode>;

    /// The visit collects from the whole tree, leaves the context as it
    /// was, never fails, and hands back copies of everything collected so
    /// far.
    open spec fn visits_ast(
        &self,
        ast: SimplifiedAST,
        context: VisitorContext,
        after: &Self,
        left: VisitorContext,
        r: Result<Vec<ASTNode>, CodeGraphError>,
    ) -> bool {
        &&& left == context
        &&& after.collects(*self, ast.root, context)
        &&& r matches Ok(v) && copies_of(v@, after.collected_nodes())
    }

    /// The visit collects from the node and everything below it, leaves
    /// the context as it was, and answers `Continue`.
    open spec fn visits_node(
        &self,
        node: ASTNode,
        context: VisitorContext,
        after: &Self,
        left: VisitorContext,
        r: Result<VisitResult, CodeGraphError>,
    ) -> bool {
        &&& left == context
        &&& after.collects(*self, node, context)
        &&& r == Ok::<VisitResult, CodeGraphError>(VisitResult::Continue)
    }

    /// Collects from the whole tree and hands back copies of everything
    /// collected so far.
    fn visit_ast(&mut self, ast: &SimplifiedAST, context: &mut VisitorContext) -> (r: Result<
        Vec<ASTNode>,
        CodeGraphError,
    >)
        ensures
            *final(context) == *old(context),
            final(self).collects(*old(self), ast.root, *old(context)),
            r matches Ok(v) && copies_of(v@, final(self).collected_nodes()),
    {
        match self.visit_node(&ast.root, context) {
            Ok(_) => Ok(clone_nodes(&self.collected)),
            Err(e) => Err(e),
        }
    }

    /// Collects from a node and everything below it.
    fn visit_node(&mut self, node: &ASTNode, context: &mut VisitorContext) -> (r: Result<
        VisitResult,
        CodeGraphError,
    >)
        ensures
            *final(context) == *old(context),
            final(self).collects(*old(self), *node, *old(context)),
            r == Ok::<VisitResult, CodeGraphError>(VisitResult::Continue),
    {
        proof {
            use_type_invariant(&*self);
        }
        let ghost before = self.collected@;
        let mut found = clone_nodes(&self.collected);
        let ghost copied = found@;
        let given = gather(&self.filter, node, context, &mut found);
        proof {
            assert(found@.take(before.len() as int) == copied);
            assert(answered_by(self.filter, *context, preorder(*node), given@));
        }
        self.collected = found;
        Ok(VisitResult::Continue)
    }
}

} // verus!
