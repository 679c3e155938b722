//! The relation extractor: inheritance, calls, member accesses and imports
//! between the entities of a tree, in the order a depth-first walk meets
//! them.

use vstd::prelude::*;
use vstd::string::*;
use crate::ast::{
    lookup_list, lookup_text, meta_pairs, name_text, ASTNode, MetaValue, MetaView, NodeLocation,
};
use crate::entity::{list_at, text_at};
use crate::error::CodeGraphError;
use crate::simplified::SimplifiedAST;
use crate::text::texts;
use crate::visitor::{scope_path, ASTVisitor, VisitResult, VisitorContext};

verus! {

/// The kind of a relation between two entities.
#[derive(Debug, Clone, Copy, PartialEq, Eq, Structural)]
pub enum RelationType {
    Inheritance,
    Composition,
    Aggregation,
    Dependency,
    Association,
    CallsFunction,
    AccessesField,
    ImportModule,
    DefinesType,
}

/// A relation from one entity to another, found at a place in the source.
#[derive(Debug, Clone)]
pub struct RelationInfo {
    pub from_entity: String,
    pub to_entity: String,
    pub relation_type: RelationType,
    pub source_location: NodeLocation,
    pub metadata: Vec<(String, MetaValue)>,
}

/// A relation as plain values.
pub struct RelationView {
    pub from: Seq<char>,
    pub to: Seq<char>,
    pub kind: RelationType,
    pub location: NodeLocation,
    pub metadata: Seq<(Seq<char>, MetaView)>,
}

impl View for RelationInfo {
    type V = RelationView;

    open spec fn view(&self) -> RelationView {
        RelationView {
            from: self.from_entity@,
            to: self.to_entity@,
            kind: self.relation_type,
            location: self.source_location,
            metadata: meta_pairs(self.metadata@),
        }
    }
}

/// The relations as plain values.
pub open spec fn relation_views(infos: Seq<RelationInfo>) -> Seq<RelationView> {
    infos.map_values(|r: RelationInfo| r@)
}

/// A relation without metadata.
pub open spec fn plain_relation(
    from: Seq<char>,
    to: Seq<char>,
    kind: RelationType,
    location: NodeLocation,
) -> RelationView {
    RelationView { from, to, kind, location, metadata: Seq::empty() }
}

/// An inheritance relation to an interface.
pub open spec fn interface_relation(from: Seq<char>, to: Seq<char>, location: NodeLocation) -> RelationView {
    RelationView {
        from,
        to,
        kind: RelationType::Inheritance,
        location,
        metadata: seq![("interface"@, MetaView::Bool(true))],
    }
}

/// One plain relation from `from` to each of `targets`.
pub open spec fn relations_to(
    from: Seq<char>,
    targets: Seq<Seq<char>>,
    kind: RelationType,
    location: NodeLocation,
) -> Seq<RelationView> {
    targets.map_values(|t: Seq<char>| plain_relation(from, t, kind, location))
}

/// The inheritance relations of a class node: to what it extends, to each
/// interface it implements, and to each of its parents.
pub open spec fn inheritance_relations(node: ASTNode, from: Seq<char>) -> Seq<RelationView> {
    (match text_at(node.metadata@, "extends"@) {
        Some(e) => seq![plain_relation(from, e, RelationType::Inheritance, node.location)],
        None => Seq::empty(),
    }) + list_at(node.metadata@, "implements"@).map_values(
        |t: Seq<char>| interface_relation(from, t, node.location),
    ) + relations_to(
        from,
        list_at(node.metadata@, "parents"@),
        RelationType::Inheritance,
        node.location,
    )
}

/// The import relations of an import node: to the module it names, and to
/// each imported item.
pub open spec fn import_relations(node: ASTNode) -> Seq<RelationView> {
    (match node.name {
        Some(n) => seq![
            plain_relation("current_module"@, n@, RelationType::ImportModule, node.location),
        ],
        None => Seq::empty(),
    }) + relations_to(
        "current_module"@,
        list_at(node.metadata@, "imported_items"@),
        RelationType::ImportModule,
        node.location,
    )
}

/// The relation that a call or member access inside an entity stands for.
pub open spec fn use_relation(node: ASTNode, current: Option<Seq<char>>, kind: RelationType) -> Seq<
    RelationView,
> {
    match (current, node.name) {
        (Some(c), Some(n)) => seq![plain_relation(c, n@, kind, node.location)],
        _ => Seq::empty(),
    }
}

pub open spec fn is_class_like(node: ASTNode) -> bool {
    node.node_type is ClassDeclaration || node.node_type is InterfaceDeclaration
        || node.node_type is EnumDeclaration
}

pub open spec fn is_function_like(node: ASTNode) -> bool {
    node.node_type is FunctionDeclaration || node.node_type is MethodDeclaration
}

/// The entity that a scope path names: none outside every scope.
pub open spec fn entity_of_scope(scope: Seq<Seq<char>>) -> Option<Seq<char>> {
    if scope.len() > 0 {
        Some(scope_path(scope))
    } else {
        None
    }
}

/// The relations that a node itself stands for, apart from those of a
/// named class or function.
pub open spec fn own_relations(node: ASTNode, current: Option<Seq<char>>) -> Seq<RelationView> {
    if node.node_type is CallExpression {
        use_relation(node, current, RelationType::CallsFunction)
    } else if node.node_type is MemberExpression {
        use_relation(node, current, RelationType::AccessesField)
    } else if node.node_type is ImportDeclaration {
        import_relations(node)
    } else {
        Seq::empty()
    }
}

/// The relations of a subtree, with the scope and the current entity after
/// the walk. A named class opens a scope and becomes the current entity;
/// behind every class the innermost scope is closed. A named function is
/// the current entity for what stands below it only.
pub open spec fn relation_walk(
    node: ASTNode,
    scope: Seq<Seq<char>>,
    current: Option<Seq<char>>,
) -> (Seq<RelationView>, Seq<Seq<char>>, Option<Seq<char>>)
    decreases node,
{
    if is_class_like(node) {
        let inner = match node.name {
            Some(n) => scope.push(n@),
            None => scope,
        };
        let entity = match node.name {
            Some(n) => Some(scope_path(inner)),
            None => current,
        };
        let own = match node.name {
            Some(n) => inheritance_relations(node, scope_path(inner)),
            None => Seq::empty(),
        };
        let below = relation_walk_from(node.children@, 0, inner, entity);
        let after = if below.1.len() > 0 {
            below.1.drop_last()
        } else {
            below.1
        };
        (own + below.0, after, entity_of_scope(after))
    } else if is_function_like(node) && node.name is Some {
        let entity = Some(scope_path(scope) + "::"@ + node.name->0@);
        let below = relation_walk_from(node.children@, 0, scope, entity);
        (below.0, below.1, current)
    } else {
        let below = relation_walk_from(node.children@, 0, scope, current);
        (own_relations(node, current) + below.0, below.1, below.2)
    }
}

/// The relations of the subtrees `kids[i..]`, walked from left to right.
pub open spec fn relation_walk_from(
    kids: Seq<ASTNode>,
    i: int,
    scope: Seq<Seq<char>>,
    current: Option<Seq<char>>,
) -> (Seq<RelationView>, Seq<Seq<char>>, Option<Seq<char>>)
    decreases kids, kids.len() - i,
{
    if 0 <= i < kids.len() {
        let first = relation_walk(kids[i], scope, current);
        let rest = relation_walk_from(kids, i + 1, first.1, first.2);
        (first.0 + rest.0, rest.1, rest.2)
    } else {
        (Seq::empty(), scope, current)
    }
}

/// Collects the relations of a tree.
pub struct RelationExtractor {
    relations: Vec<RelationInfo>,
    current_entity: Option<String>,
}

impl RelationExtractor {
    /// The relations collected so far.
    pub closed spec fn found(self) -> Seq<RelationView> {
        relation_views(self.relations@)
    }

    /// The entity that the walk is inside of.
    pub closed spec fn current(self) -> Option<Seq<char>> {
        name_text(self.current_entity)
    }

    pub fn new() -> (r: Self)
        ensures
            r.found().len() == 0,
            r.current() is None,
    {
        RelationExtractor { relations: Vec::new(), current_entity: None }
    }

    fn push_relation(
        &mut self,
        from: &str,
        to: &str,
        kind: RelationType,
        location: NodeLocation,
        interface: bool,
    )
        ensures
            final(self).found() == old(self).found().push(
                if interface {
                    interface_relation(from@, to@, location)
                } else {
                    plain_relation(from@, to@, kind, location)
                },
            ),
            final(self).current() == old(self).current(),
    {
        let ghost before = self.found();
        let mut metadata: Vec<(String, MetaValue)> = Vec::new();
        if interface {
            metadata.push((String::from_str("interface"), MetaValue::Bool(true)));
            assert(meta_pairs(metadata@) =~= seq![("interface"@, MetaView::Bool(true))]);
        } else {
            assert(meta_pairs(metadata@) =~= Seq::<(Seq<char>, MetaView)>::empty());
        }
        let kind = if interface {
            RelationType::Inheritance
        } else {
            kind
        };
        self.relations.push(
            RelationInfo {
                from_entity: from.to_owned(),
                to_entity: to.to_owned(),
                relation_type: kind,
                source_location: location,
                metadata,
            },
        );
        assert(self.found() =~= before.push(self.relations@.last()@));
    }

    fn push_relations_to(
        &mut self,
        from: &str,
        targets: &Vec<String>,
        kind: RelationType,
        location: NodeLocation,
        interface: bool,
    )
        ensures
            final(self).found() == old(self).found() + (if interface {
                texts(targets@).map_values(|t: Seq<char>| interface_relation(from@, t, location))
            } else {
                relations_to(from@, texts(targets@), kind, location)
            }),
            final(self).current() == old(self).current(),
    {
        let ghost before = self.found();
        let ghost all = if interface {
            texts(targets@).map_values(|t: Seq<char>| interface_relation(from@, t, location))
        } else {
            relations_to(from@, texts(targets@), kind, location)
        };
        let mut i: usize = 0;
        assert(before + all.take(0) =~= before);
        while i < targets.len()
            invariant
                i <= targets.len(),
                all.len() == targets@.len(),
                all == (if interface {
                    texts(targets@).map_values(
                        |t: Seq<char>| interface_relation(from@, t, location),
                    )
                } else {
                    relations_to(from@, texts(targets@), kind, location)
                }),
                self.found() == before + all.take(i as int),
                self.current() == old(self).current(),
            decreases targets.len() - i,
        {
            self.push_relation(from, targets[i].as_str(), kind, location, interface);
            assert(before + all.take(i + 1) =~= (before + all.take(i as int)).push(all[i as int]));
            i += 1;
        }
        assert(all.take(all.len() as int) =~= all);
    }

    fn extract_inheritance_relations(&mut self, node: &ASTNode, from: &str)
        ensures
            final(self).found() == old(self).found() + inheritance_relations(*node, from@),
            final(self).current() == old(self).current(),
    {
        let ghost before = self.found();
        match lookup_text(&node.metadata, "extends") {
            Some(e) => {
                self.push_relation(
                    from,
                    e.as_str(),
                    RelationType::Inheritance,
                    node.location,
                    false,
                );
            },
            None => {},
        }
        let ghost first = self.found();
        match lookup_list(&node.metadata, "implements") {
            Some(l) => {
                self.push_relations_to(
                    from,
                    &l,
                    RelationType::Inheritance,
                    node.location,
                    true,
                );
            },
            None => {
                assert(list_at(node.metadata@, "implements"@).map_values(
                    |t: Seq<char>| interface_relation(from@, t, node.location),
                ) =~= Seq::<RelationView>::empty());
            },
        }
        let ghost second = self.found();
        match lookup_list(&node.metadata, "parents") {
            Some(l) => {
                self.push_relations_to(
                    from,
                    &l,
                    RelationType::Inheritance,
                    node.location,
                    false,
                );
            },
            None => {
                assert(relations_to(
                    from@,
                    list_at(node.metadata@, "parents"@),
                    RelationType::Inheritance,
                    node.location,
                ) =~= Seq::<RelationView>::empty());
            },
        }
        assert(self.found() =~= before + inheritance_relations(*node, from@));
    }

    fn extract_import_relations(&mut self, node: &ASTNode)
        ensures
            final(self).found() == old(self).found() + import_relations(*node),
            final(self).current() == old(self).current(),
    {
        let ghost before = self.found();
        match &node.name {
            Some(n) => {
                self.push_relation(
                    "current_module",
                    n.as_str(),
                    RelationType::ImportModule,
                    node.location,
                    false,
                );
            },
            None => {},
        }
        match lookup_list(&node.metadata, "imported_items") {
            Some(l) => {
                self.push_relations_to(
                    "current_module",
                    &l,
                    RelationType::ImportModule,
                    node.location,
                    false,
                );
            },
            None => {
                assert(relations_to(
                    "current_module"@,
                    list_at(node.metadata@, "imported_items"@),
                    RelationType::ImportModule,
                    node.location,
                ) =~= Seq::<RelationView>::empty());
            },
        }
        assert(self.found() =~= before + import_relations(*node));
    }

    fn extract_use_relation(&mut self, node: &ASTNode, kind: RelationType)
        ensures
            final(self).found() == old(self).found() + use_relation(
                *node,
                old(self).current(),
                kind,
            ),
            final(self).current() == old(self).current(),
    {
        let ghost before = self.found();
        let from = match &self.current_entity {
            Some(c) => Some(c.clone()),
            None => None,
        };
        match (from, &node.name) {
            (Some(c), Some(n)) => {
                self.push_relation(c.as_str(), n.as_str(), kind, node.location, false);
            },
            _ => {},
        }
        assert(self.found() =~= before + use_relation(*node, old(self).current(), kind));
    }

    fn walk_children(&mut self, node: &ASTNode, context: &mut VisitorContext)
        ensures
            final(self).found() == old(self).found() + relation_walk_from(
                node.children@,
                0,
                texts(old(context).current_scope@),
                old(self).current(),
            ).0,
            texts(final(context).current_scope@) == relation_walk_from(
                node.children@,
                0,
                texts(old(context).current_scope@),
                old(self).current(),
            ).1,
            final(self).current() == relation_walk_from(
                node.children@,
                0,
                texts(old(context).current_scope@),
                old(self).current(),
            ).2,
            final(context).language == old(context).language,
            final(context).source == old(context).source,
            final(context).file_path == old(context).file_path,
            final(context).metadata == old(context).metadata,
        decreases node, 0nat,
    {
        let ghost before = self.found();
        let ghost total = relation_walk_from(
            node.children@,
            0,
            texts(context.current_scope@),
            self.current(),
        );
        let ghost done: Seq<RelationView> = Seq::empty();
        let mut i: usize = 0;
        assert(before + done =~= before);
        while i < node.children.len()
            invariant
                i <= node.children.len(),
                self.found() == before + done,
                done + relation_walk_from(
                    node.children@,
                    i as int,
                    texts(context.current_scope@),
                    self.current(),
                ).0 == total.0,
                relation_walk_from(
                    node.children@,
                    i as int,
                    texts(context.current_scope@),
                    self.current(),
                ).1 == total.1,
                relation_walk_from(
                    node.children@,
                    i as int,
                    texts(context.current_scope@),
                    self.current(),
                ).2 == total.2,
                context.language == old(context).language,
                context.source == old(context).source,
                context.file_path == old(context).file_path,
                context.metadata == old(context).metadata,
            decreases node.children.len() - i,
        {
            let ghost here = relation_walk(
                node.children@[i as int],
                texts(context.current_scope@),
                self.current(),
            );
            let ghost rest = relation_walk_from(node.children@, i + 1, here.1, here.2);
            self.collect(&node.children[i], context);
            proof {
                assert((done + here.0) + rest.0 =~= done + (here.0 + rest.0));
                assert(before + (done + here.0) =~= (before + done) + here.0);
                done = done + here.0;
            }
            i += 1;
        }
        assert(done + Seq::<RelationView>::empty() =~= done);
    }

    /// Collects the relations of a subtree. The scope of the context is
    /// entered and left as the walk goes.
    pub fn collect(&mut self, node: &ASTNode, context: &mut VisitorContext)
        ensures
            final(self).found() == old(self).found() + relation_walk(
                *node,
                texts(old(context).current_scope@),
                old(self).current(),
            ).0,
            texts(final(context).current_scope@) == relation_walk(
                *node,
                texts(old(context).current_scope@),
                old(self).current(),
            ).1,
            final(self).current() == relation_walk(
                *node,
                texts(old(context).current_scope@),
                old(self).current(),
            ).2,
            final(context).language == old(context).language,
            final(context).source == old(context).source,
            final(context).file_path == old(context).file_path,
            final(context).metadata == old(context).metadata,
        decreases node, 1nat,
    {
        let ghost before = self.found();
        let ghost scope0 = texts(context.current_scope@);
        let ghost current0 = self.current();
        let class_like = match node.node_type {
            crate::node_type::ASTNodeType::ClassDeclaration
            | crate::node_type::ASTNodeType::InterfaceDeclaration
            | crate::node_type::ASTNodeType::EnumDeclaration => true,
            _ => false,
        };
        let function_like = match node.node_type {
            crate::node_type::ASTNodeType::FunctionDeclaration
            | crate::node_type::ASTNodeType::MethodDeclaration => true,
            _ => false,
        };
        if class_like {
            match &node.name {
                Some(name) => {
                    context.push_scope(name.clone());
                    assert(texts(context.current_scope@) =~= scope0.push(name@));
                    let path = context.current_scope_path();
                    self.current_entity = Some(path.clone());
                    self.extract_inheritance_relations(node, path.as_str());
                },
                None => {
                    assert(before + Seq::<RelationView>::empty() =~= before);
                },
            }
            let ghost own = self.found();
            let ghost below = relation_walk_from(
                node.children@,
                0,
                texts(context.current_scope@),
                self.current(),
            );
            self.walk_children(node, context);
            let _left = context.pop_scope();
            proof {
                if below.1.len() > 0 {
                    assert(texts(context.current_scope@) =~= below.1.drop_last());
                }
            }
            self.current_entity = if context.current_scope.len() > 0 {
                Some(context.current_scope_path())
            } else {
                None
            };
            proof {
                let walked = relation_walk(*node, scope0, current0);
                assert(self.found() =~= before + walked.0);
            }
        } else if function_like && node.name.is_some() {
            let previous = match &self.current_entity {
                Some(c) => Some(c.clone()),
                None => None,
            };
            let mut entity = context.current_scope_path();
            entity.append("::");
            match &node.name {
                Some(n) => {
                    entity.append(n.as_str());
                },
                None => {},
            }
            self.current_entity = Some(entity);
            self.walk_children(node, context);
            self.current_entity = previous;
        } else {
            match node.node_type {
                crate::node_type::ASTNodeType::CallExpression => {
                    self.extract_use_relation(node, RelationType::CallsFunction);
                },
                crate::node_type::ASTNodeType::MemberExpression => {
                    self.extract_use_relation(node, RelationType::AccessesField);
                },
                crate::node_type::ASTNodeType::ImportDeclaration => {
                    self.extract_import_relations(node);
                },
                _ => {
                    assert(before + Seq::<RelationView>::empty() =~= before);
                },
            }
            let ghost own = own_relations(*node, current0);
            let ghost below = relation_walk_from(node.children@, 0, scope0, current0);
            self.walk_children(node, context);
            assert((before + own) + below.0 =~= before + (own + below.0));
        }
    }
}

/// Copies a list of relations.
pub fn copy_relations(relations: &Vec<RelationInfo>) -> (r: Vec<RelationInfo>)
    ensures
        relation_views(r@) == relation_views(relations@),
{
    let mut out: Vec<RelationInfo> = Vec::new();
    let mut i: usize = 0;
    assert(relation_views(out@) =~= relation_views(relations@).take(0));
    while i < relations.len()
        invariant
            i <= relations.len(),
            relation_views(out@) == relation_views(relations@).take(i as int),
        decreases relations.len() - i,
    {
        let ghost prior = relation_views(out@);
        let r = &relations[i];
        out.push(
            RelationInfo {
                from_entity: r.from_entity.clone(),
                to_entity: r.to_entity.clone(),
                relation_type: r.relation_type,
                source_location: r.source_location,
                metadata: crate::ast::clone_metadata(&r.metadata),
            },
        );
        assert(relation_views(out@) =~= prior.push(relations@[i as int]@));
        assert(relation_views(out@) =~= relation_views(relations@).take(i + 1));
        i += 1;
    }
    assert(relation_views(relations@).take(relations@.len() as int) =~= relation_views(
        relations@,
    ));
    out
}

impl ASTVisitor for RelationExtractor {
    type Output = Vec<RelationInfo>;

    /// A visit of a tree never fails: it adds the relations of the tree to
    /// what was found, leaves the scope where the walk of the tree ends,
    /// and hands back copies of everything found so far.
    open spec fn visits_ast(
        &self,
        ast: SimplifiedAST,
        context: VisitorContext,
        after: &Self,
        left: VisitorContext,
        r: Result<Vec<RelationInfo>, CodeGraphError>,
    ) -> bool {
        &&& r matches Ok(v) && relation_views(v@) == after.found()
        &&& after.found() == self.found() + relation_walk(
            ast.root,
            texts(context.current_scope@),
            self.current(),
        ).0
        &&& texts(left.current_scope@) == relation_walk(
            ast.root,
            texts(context.current_scope@),
            self.current(),
        ).1
    }

    /// A visit of a node answers `Continue`: it adds the relations of the
    /// node and of everything below it to what was found, and leaves the
    /// scope where the walk of the node ends.
    open spec fn visits_node(
        &self,
        node: ASTNode,
        context: VisitorContext,
        after: &Self,
        left: VisitorContext,
        r: Result<VisitResult, CodeGraphError>,
    ) -> bool {
        &&& r == Ok::<VisitResult, CodeGraphError>(VisitResult::Continue)
        &&& after.found() == self.found() + relation_walk(
            node,
            texts(context.current_scope@),
            self.current(),
        ).0
        &&& texts(left.current_scope@) == relation_walk(
            node,
            texts(context.current_scope@),
            self.current(),
        ).1
    }

    /// Collects the relations of the whole tree and hands back copies of
    /// everything collected so far.
    fn visit_ast(&mut self, ast: &SimplifiedAST, context: &mut VisitorContext) -> (r: Result<
        Vec<RelationInfo>,
        CodeGraphError,
    >)
        ensures
            r matches Ok(v) && relation_views(v@) == final(self).found(),
            final(self).found() == old(self).found() + relation_walk(
                ast.root,
                texts(old(context).current_scope@),
                old(self).current(),
            ).0,
            texts(final(context).current_scope@) == relation_walk(
                ast.root,
                texts(old(context).current_scope@),
                old(self).current(),
            ).1,
    {
        self.collect(&ast.root, context);
        Ok(copy_relations(&self.relations))
    }

    /// Collects the relations of a node and of everything below it.
    fn visit_node(&mut self, node: &ASTNode, context: &mut VisitorContext) -> (r: Result<
        VisitResult,
        CodeGraphError,
    >)
        ensures
            r == Ok::<VisitResult, CodeGraphError>(VisitResult::Continue),
            final(self).found() == old(self).found() + relation_walk(
                *node,
                texts(old(context).current_scope@),
                old(self).current(),
            ).0,
            texts(final(context).current_scope@) == relation_walk(
                *node,
                texts(old(context).current_scope@),
                old(self).current(),
            ).1,
    {
        self.collect(node, context);
        Ok(VisitResult::Continue)
    }
}

} // verus!
