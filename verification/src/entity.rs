//! The entity extractor: the classes, functions, variables and modules
//! that a tree declares, in the order a depth-first walk meets them.

use vstd::prelude::*;
use vstd::string::*;
use crate::ast::{
    clone_metadata, lookup_list, lookup_text, meta_lookup, meta_pairs, name_text, ASTNode,
    MetaValue, MetaView, NodeLocation,
};
use crate::error::CodeGraphError;
use crate::simplified::SimplifiedAST;
use crate::text::texts;
use crate::visitor::{ASTVisitor, VisitResult, VisitorContext};

verus! {

/// The kind of a declared entity.
#[derive(Debug, Clone, Copy, PartialEq, Eq, Structural)]
pub enum EntityType {
    Class,
    Interface,
    Function,
    Method,
    Variable,
    Constant,
    Module,
    Enum,
    Trait,
}

/// A declared entity: its name and kind, where it stands, and what the
/// metadata of its node says of it.
#[derive(Debug, Clone)]
pub struct EntityInfo {
    pub name: String,
    pub entity_type: EntityType,
    pub location: NodeLocation,
    pub visibility: Option<String>,
    pub modifiers: Vec<String>,
    pub metadata: Vec<(String, MetaValue)>,
}

/// The kind of entity that a node declares, if it declares one. A function
/// declared inside a scope is a method.
pub open spec fn entity_type_of(node: ASTNode, in_scope: bool) -> Option<EntityType> {
    if node.node_type is ClassDeclaration {
        Some(EntityType::Class)
    } else if node.node_type is InterfaceDeclaration {
        Some(EntityType::Interface)
    } else if node.node_type is FunctionDeclaration {
        Some(
            if in_scope {
                EntityType::Method
            } else {
                EntityType::Function
            },
        )
    } else if node.node_type is MethodDeclaration {
        Some(EntityType::Method)
    } else if node.node_type is VariableDeclaration {
        Some(EntityType::Variable)
    } else if node.node_type is EnumDeclaration {
        Some(EntityType::Enum)
    } else if node.node_type is Module {
        Some(EntityType::Module)
    } else {
        None
    }
}

/// Whether the declarations below a node stand in a scope of their own.
pub open spec fn is_scope(node: ASTNode) -> bool {
    node.node_type is ClassDeclaration || node.node_type is InterfaceDeclaration
        || node.node_type is EnumDeclaration || node.node_type is Module
}

/// The text that the metadata holds under a key, if it holds a text there.
pub open spec fn text_at(entries: Seq<(String, MetaValue)>, key: Seq<char>) -> Option<Seq<char>> {
    match meta_lookup(entries, key) {
        Some(MetaView::Text(t)) => Some(t),
        _ => None,
    }
}

/// The list that the metadata holds under a key, or the empty list.
pub open spec fn list_at(entries: Seq<(String, MetaValue)>, key: Seq<char>) -> Seq<Seq<char>> {
    match meta_lookup(entries, key) {
        Some(MetaView::List(l)) => l,
        _ => Seq::empty(),
    }
}

/// The entity that a node itself declares, as a list of one or none.
pub open spec fn own_sources_of(node: ASTNode, scope: Seq<Seq<char>>) -> Seq<(ASTNode, EntityType)> {
    match (node.name, entity_type_of(node, scope.len() > 0)) {
        (Some(_), Some(t)) => seq![(node, t)],
        _ => Seq::empty(),
    }
}

/// The entities of a subtree as the pairs of declaring node and kind, with
/// the scope after the walk. A named scope node opens a scope for what
/// stands below it; every scope node closes the innermost scope behind it,
/// whether or not it opened one.
pub open spec fn entity_walk(node: ASTNode, scope: Seq<Seq<char>>) -> (
    Seq<(ASTNode, EntityType)>,
    Seq<Seq<char>>,
)
    decreases node,
{
    let own = own_sources_of(node, scope);
    let inner = match node.name {
        Some(n) => if is_scope(node) {
            scope.push(n@)
        } else {
            scope
        },
        None => scope,
    };
    let below = entity_walk_from(node.children@, 0, inner);
    let after = if is_scope(node) && below.1.len() > 0 {
        below.1.drop_last()
    } else {
        below.1
    };
    (own + below.0, after)
}

/// The entities of the subtrees `kids[i..]`, walked from left to right.
pub open spec fn entity_walk_from(kids: Seq<ASTNode>, i: int, scope: Seq<Seq<char>>) -> (
    Seq<(ASTNode, EntityType)>,
    Seq<Seq<char>>,
)
    decreases kids, kids.len() - i,
{
    if 0 <= i < kids.len() {
        let first = entity_walk(kids[i], scope);
        let rest = entity_walk_from(kids, i + 1, first.1);
        (first.0 + rest.0, rest.1)
    } else {
        (Seq::empty(), scope)
    }
}

/// `info` tells of the entity that `node` declares as a `kind`.
pub open spec fn describes(info: EntityInfo, node: ASTNode, kind: EntityType) -> bool {
    &&& Some(info.name@) == name_text(node.name)
    &&& info.entity_type == kind
    &&& info.location == node.location
    &&& name_text(info.visibility) == text_at(node.metadata@, "visibility"@)
    &&& texts(info.modifiers@) == list_at(node.metadata@, "modifiers"@)
    &&& meta_pairs(info.metadata@) == meta_pairs(node.metadata@)
}

/// Each of `infos` tells of the entity at the same place in `sources`.
pub open spec fn describe_all(infos: Seq<EntityInfo>, sources: Seq<(ASTNode, EntityType)>) -> bool {
    &&& infos.len() == sources.len()
    &&& forall|i: int|
        0 <= i < infos.len() ==> describes(#[trigger] infos[i], sources[i].0, sources[i].1)
}

/// Collects the entities that a tree declares.
pub struct EntityExtractor {
    entities: Vec<EntityInfo>,
}

impl EntityExtractor {
    /// The entities collected so far.
    pub closed spec fn found(self) -> Seq<EntityInfo> {
        self.entities@
    }

    pub fn new() -> (r: Self)
        ensures
            r.found().len() == 0,
    {
        EntityExtractor { entities: Vec::new() }
    }

    fn create_entity_info(node: &ASTNode, entity_type: EntityType) -> (r: Option<EntityInfo>)
        ensures
            match r {
                Some(info) => node.name is Some && describes(info, *node, entity_type),
                None => node.name is None,
            },
    {
        match &node.name {
            Some(name) => {
                let modifiers = match lookup_list(&node.metadata, "modifiers") {
                    Some(l) => l,
                    None => Vec::new(),
                };
                assert(texts(modifiers@) =~= list_at(node.metadata@, "modifiers"@));
                let visibility = lookup_text(&node.metadata, "visibility");
                assert(name_text(visibility) == text_at(node.metadata@, "visibility"@));
                let info = EntityInfo {
                    name: name.clone(),
                    entity_type,
                    location: node.location,
                    visibility,
                    modifiers,
                    metadata: clone_metadata(&node.metadata),
                };
                assert(describes(info, *node, entity_type));
                Some(info)
            },
            None => None,
        }
    }

    /// Collects the entities of a subtree. The scope of the context is
    /// entered and left as the walk goes.
    pub fn collect(&mut self, node: &ASTNode, context: &mut VisitorContext)
        ensures
            final(self).found().len() >= old(self).found().len(),
            final(self).found().take(old(self).found().len() as int) == old(self).found(),
            describe_all(
                final(self).found().skip(old(self).found().len() as int),
                entity_walk(*node, texts(old(context).current_scope@)).0,
            ),
            texts(final(context).current_scope@) == entity_walk(
                *node,
                texts(old(context).current_scope@),
            ).1,
            final(context).language == old(context).language,
            final(context).source == old(context).source,
            final(context).file_path == old(context).file_path,
            final(context).metadata == old(context).metadata,
        decreases node,
    {
        let ghost before = self.entities@;
        let ghost scope0 = texts(context.current_scope@);
        let in_scope = context.current_scope.len() > 0;
        let kind: Option<EntityType> = match node.node_type {
            crate::node_type::ASTNodeType::ClassDeclaration => Some(EntityType::Class),
            crate::node_type::ASTNodeType::InterfaceDeclaration => Some(EntityType::Interface),
            crate::node_type::ASTNodeType::FunctionDeclaration => Some(
                if in_scope {
                    EntityType::Method
                } else {
                    EntityType::Function
                },
            ),
            crate::node_type::ASTNodeType::MethodDeclaration => Some(EntityType::Method),
            crate::node_type::ASTNodeType::VariableDeclaration => Some(EntityType::Variable),
            crate::node_type::ASTNodeType::EnumDeclaration => Some(EntityType::Enum),
            crate::node_type::ASTNodeType::Module => Some(EntityType::Module),
            _ => None,
        };
        let scoped = match node.node_type {
            crate::node_type::ASTNodeType::ClassDeclaration
            | crate::node_type::ASTNodeType::InterfaceDeclaration
            | crate::node_type::ASTNodeType::EnumDeclaration
            | crate::node_type::ASTNodeType::Module => true,
            _ => false,
        };
        assert(kind == entity_type_of(*node, scope0.len() > 0));
        assert(scoped == is_scope(*node));
        match kind {
            Some(t) => {
                match Self::create_entity_info(node, t) {
                    Some(entity) => {
                        if scoped {
                            let ghost prior = texts(context.current_scope@);
                            context.push_scope(entity.name.clone());
                            assert(texts(context.current_scope@) =~= prior.push(entity.name@));
                        }
                        self.entities.push(entity);
                    },
                    None => {},
                }
            },
            None => {},
        }
        let ghost own = self.entities@.skip(before.len() as int);
        let ghost own_sources = own_sources_of(*node, scope0);
        let ghost inner = texts(context.current_scope@);
        assert(self.entities@.take(before.len() as int) =~= before);
        assert(describe_all(own, own_sources));
        let ghost total = entity_walk_from(node.children@, 0, inner);
        let ghost done: Seq<(ASTNode, EntityType)> = Seq::empty();
        let mut i: usize = 0;
        while i < node.children.len()
            invariant
                i <= node.children.len(),
                self.entities@.len() >= before.len(),
                self.entities@.take(before.len() as int) == before,
                describe_all(self.entities@.skip(before.len() as int), own_sources + done),
                total == entity_walk_from(node.children@, 0, inner),
                done + entity_walk_from(node.children@, i as int, texts(context.current_scope@)).0
                    == total.0,
                entity_walk_from(node.children@, i as int, texts(context.current_scope@)).1
                    == total.1,
                context.language == old(context).language,
                context.source == old(context).source,
                context.file_path == old(context).file_path,
                context.metadata == old(context).metadata,
            decreases node.children.len() - i,
        {
            let ghost so_far = self.entities@;
            let ghost here = entity_walk(node.children@[i as int], texts(context.current_scope@));
            let ghost rest = entity_walk_from(node.children@, i + 1, here.1);
            self.collect(&node.children[i], context);
            proof {
                let added = self.entities@.skip(so_far.len() as int);
                let all = self.entities@.skip(before.len() as int);
                let earlier = so_far.skip(before.len() as int);
                assert(self.entities@.take(before.len() as int) =~= so_far.take(
                    before.len() as int,
                ));
                assert(all =~= earlier + added) by {
                    assert(all.len() == earlier.len() + added.len());
                    assert forall|k: int| 0 <= k < all.len() implies all[k] == (earlier + added)[k] by {
                        if k < earlier.len() {
                            assert(self.entities@.take(so_far.len() as int)[before.len() + k]
                                == so_far[before.len() + k]);
                        }
                    }
                }
                assert(describe_all(all, own_sources + done + here.0)) by {
                    let sources = own_sources + done + here.0;
                    assert forall|k: int| 0 <= k < all.len() implies describes(
                        #[trigger] all[k],
                        sources[k].0,
                        sources[k].1,
                    ) by {
                        if k < earlier.len() {
                            assert(all[k] == earlier[k]);
                            assert(sources[k] == (own_sources + done)[k]);
                        } else {
                            assert(all[k] == added[k - earlier.len()]);
                            assert(sources[k] == here.0[k - earlier.len()]);
                        }
                    }
                }
                assert((done + here.0) + rest.0 =~= done + (here.0 + rest.0));
                assert(own_sources + done + here.0 =~= own_sources + (done + here.0));
                done = done + here.0;
            }
            i += 1;
        }
        proof {
            assert(done + Seq::<(ASTNode, EntityType)>::empty() =~= done);
            assert(own_sources + done =~= entity_walk(*node, scope0).0);
        }
        if scoped {
            let ghost prior = texts(context.current_scope@);
            let _left = context.pop_scope();
            proof {
                if prior.len() > 0 {
                    assert(texts(context.current_scope@) =~= prior.drop_last());
                }
            }
        }
    }
}

impl ASTVisitor for EntityExtractor {
    type Output = Vec<EntityInfo>;

    /// A visit of a tree never fails: it adds the entities of the tree to
    /// what was found, leaves the scope where the walk of the tree ends,
    /// and hands back copies of everything found so far.
    open spec fn visits_ast(
        &self,
        ast: SimplifiedAST,
        context: VisitorContext,
        after: &Self,
        left: VisitorContext,
        r: Result<Vec<EntityInfo>, CodeGraphError>,
    ) -> bool {
        &&& r matches Ok(v) && v@.len() == after.found().len() && forall|i: int|
            0 <= i < v@.len() ==> same_entity(#[trigger] after.found()[i], v@[i])
        &&& after.found().take(self.found().len() as int) == self.found()
        &&& describe_all(
            after.found().skip(self.found().len() as int),
            entity_walk(ast.root, texts(context.current_scope@)).0,
        )
        &&& texts(left.current_scope@) == entity_walk(ast.root, texts(context.current_scope@)).1
    }

    /// A visit of a node answers `Continue`: it adds the entities of the
    /// node and of everything below it to what was found, and leaves the
    /// scope where the walk of the node ends.
    open spec fn visits_node(
        &self,
        node: ASTNode,
        context: VisitorContext,
        after: &Self,
        left: VisitorContext,
        r: Result<VisitResult, CodeGraphError>,
    ) -> bool {
        &&& r == Ok::<VisitResult, CodeGraphError>(VisitResult::Continue)
        &&& after.found().take(self.found().len() as int) == self.found()
        &&& describe_all(
            after.found().skip(self.found().len() as int),
            entity_walk(node, texts(context.current_scope@)).0,
        )
        &&& texts(left.current_scope@) == entity_walk(node, texts(context.current_scope@)).1
    }

    /// Collects the entities of the whole tree and hands back copies of
    /// everything collected so far.
    fn visit_ast(&mut self, ast: &SimplifiedAST, context: &mut VisitorContext) -> (r: Result<
        Vec<EntityInfo>,
        CodeGraphError,
    >)
        ensures
            r matches Ok(v) && v@.len() == final(self).found().len() && forall|i: int|
                0 <= i < v@.len() ==> same_entity(#[trigger] final(self).found()[i], v@[i]),
            final(self).found().take(old(self).found().len() as int) == old(self).found(),
            describe_all(
                final(self).found().skip(old(self).found().len() as int),
                entity_walk(ast.root, texts(old(context).current_scope@)).0,
            ),
            texts(final(context).current_scope@) == entity_walk(
                ast.root,
                texts(old(context).current_scope@),
            ).1,
    {
        self.collect(&ast.root, context);
        Ok(copy_entities(&self.entities))
    }

    /// Collects the entities of a node and of everything below it.
    fn visit_node(&mut self, node: &ASTNode, context: &mut VisitorContext) -> (r: Result<
        VisitResult,
        CodeGraphError,
    >)
        ensures
            r == Ok::<VisitResult, CodeGraphError>(VisitResult::Continue),
            final(self).found().take(old(self).found().len() as int) == old(self).found(),
            describe_all(
                final(self).found().skip(old(self).found().len() as int),
                entity_walk(*node, texts(old(context).current_scope@)).0,
            ),
            texts(final(context).current_scope@) == entity_walk(
                *node,
                texts(old(context).current_scope@),
            ).1,
    {
        self.collect(node, context);
        Ok(VisitResult::Continue)
    }
}

/// Two entity records hold the same values.
pub open spec fn same_entity(a: EntityInfo, b: EntityInfo) -> bool {
    &&& a.name@ == b.name@
    &&& a.entity_type == b.entity_type
    &&& a.location == b.location
    &&& name_text(a.visibility) == name_text(b.visibility)
    &&& texts(a.modifiers@) == texts(b.modifiers@)
    &&& meta_pairs(a.metadata@) == meta_pairs(b.metadata@)
}

/// Copies a list of entities.
pub fn copy_entities(entities: &Vec<EntityInfo>) -> (r: Vec<EntityInfo>)
    ensures
        r@.len() == entities@.len(),
        forall|i: int| 0 <= i < r@.len() ==> same_entity(#[trigger] entities@[i], r@[i]),
{
    let mut out: Vec<EntityInfo> = Vec::new();
    let mut i: usize = 0;
    while i < entities.len()
        invariant
            i <= entities.len(),
            out@.len() == i,
            forall|k: int| 0 <= k < i ==> same_entity(#[trigger] entities@[k], out@[k]),
        decreases entities.len() - i,
    {
        let e = &entities[i];
        let visibility = match &e.visibility {
            Some(v) => Some(v.clone()),
            None => None,
        };
        out.push(
            EntityInfo {
                name: e.name.clone(),
                entity_type: e.entity_type,
                location: e.location,
                visibility,
                modifiers: crate::ast::clone_strings(&e.modifiers),
                metadata: clone_metadata(&e.metadata),
            },
        );
        i += 1;
    }
    out
}

} // verus!
