//! The class diagram of a tree, as Mermaid text.

use vstd::prelude::*;
use vstd::string::*;
use crate::ast::{lookup_text, ASTNode};
use crate::entity::text_at;
use crate::simplified::SimplifiedAST;
use crate::text::{str_eq, texts};

verus! {

/// The named class declarations among `kids[i..]` and below them, in
/// depth-first order.
pub open spec fn classes_from(kids: Seq<ASTNode>, i: int) -> Seq<ASTNode>
    decreases kids, kids.len() - i,
{
    if 0 <= i < kids.len() {
        classes_in(kids[i]) + classes_from(kids, i + 1)
    } else {
        Seq::empty()
    }
}

/// The named class declarations of a tree, its root included, in
/// depth-first order.
pub open spec fn classes_in(node: ASTNode) -> Seq<ASTNode>
    decreases node,
{
    (if node.node_type is ClassDeclaration && node.name is Some {
        seq![node]
    } else {
        Seq::empty()
    }) + classes_from(node.children@, 0)
}

/// The names of the classes, each once, in the order of first occurrence.
pub open spec fn class_names(classes: Seq<ASTNode>) -> Seq<Seq<char>>
    decreases classes.len(),
{
    if classes.len() == 0 {
        Seq::empty()
    } else {
        let front = class_names(classes.drop_last());
        match classes.last().name {
            Some(n) => if front.contains(n@) {
                front
            } else {
                front.push(n@)
            },
            None => front,
        }
    }
}

/// The `(parent, child)` pairs of the classes that extend another.
pub open spec fn class_inherits(classes: Seq<ASTNode>) -> Seq<(Seq<char>, Seq<char>)>
    decreases classes.len(),
{
    if classes.len() == 0 {
        Seq::empty()
    } else {
        let front = class_inherits(classes.drop_last());
        match (classes.last().name, text_at(classes.last().metadata@, "extends"@)) {
            (Some(n), Some(p)) => front.push((p, n@)),
            _ => front,
        }
    }
}

/// Whether a class is shown: always without a filter, else only if the
/// filter names it.
pub open spec fn is_shown(name: Seq<char>, filter: Option<Seq<Seq<char>>>) -> bool {
    match filter {
        Some(list) => list.contains(name),
        None => true,
    }
}

/// One `class` line for each shown class.
pub open spec fn class_lines(names: Seq<Seq<char>>, filter: Option<Seq<Seq<char>>>) -> Seq<char>
    decreases names.len(),
{
    if names.len() == 0 {
        Seq::empty()
    } else {
        class_lines(names.drop_last(), filter) + (if is_shown(names.last(), filter) {
            "class "@ + names.last() + "\n"@
        } else {
            Seq::empty()
        })
    }
}

/// One inheritance line for each pair of shown classes.
pub open spec fn inherit_lines(
    pairs: Seq<(Seq<char>, Seq<char>)>,
    filter: Option<Seq<Seq<char>>>,
) -> Seq<char>
    decreases pairs.len(),
{
    if pairs.len() == 0 {
        Seq::empty()
    } else {
        inherit_lines(pairs.drop_last(), filter) + (if is_shown(pairs.last().0, filter)
            && is_shown(pairs.last().1, filter) {
            pairs.last().0 + " <|-- "@ + pairs.last().1 + "\n"@
        } else {
            Seq::empty()
        })
    }
}

/// The diagram of a tree: the header, the shown classes, and the
/// inheritance between shown classes.
pub open spec fn diagram(root: ASTNode, filter: Option<Seq<Seq<char>>>) -> Seq<char> {
    "classDiagram\n"@ + class_lines(class_names(classes_in(root)), filter) + inherit_lines(
        class_inherits(classes_in(root)),
        filter,
    )
}

fn holds(list: &[String], word: &str) -> (r: bool)
    ensures
        r == texts(list@).contains(word@),
{
    let mut i: usize = 0;
    while i < list.len()
        invariant
            i <= list.len(),
            forall|k: int| 0 <= k < i ==> texts(list@)[k] != word@,
        decreases list.len() - i,
    {
        if str_eq(list[i].as_str(), word) {
            assert(texts(list@)[i as int] == word@);
            return true;
        }
        i += 1;
    }
    false
}

/// The view of a list of pairs of strings.
pub open spec fn pair_texts(pairs: Seq<(String, String)>) -> Seq<(Seq<char>, Seq<char>)> {
    pairs.map_values(|p: (String, String)| (p.0@, p.1@))
}

fn walk(
    node: &ASTNode,
    classes: &mut Vec<String>,
    inherits: &mut Vec<(String, String)>,
    Ghost(seen): Ghost<Seq<ASTNode>>,
)
    requires
        texts(old(classes)@) == class_names(seen),
        pair_texts(old(inherits)@) == class_inherits(seen),
    ensures
        texts(final(classes)@) == class_names(seen + classes_in(*node)),
        pair_texts(final(inherits)@) == class_inherits(seen + classes_in(*node)),
    decreases node,
{
    let is_class = match node.node_type {
        crate::node_type::ASTNodeType::ClassDeclaration => true,
        _ => false,
    };
    let ghost own = if node.node_type is ClassDeclaration && node.name is Some {
        seq![*node]
    } else {
        Seq::<ASTNode>::empty()
    };
    match &node.name {
        Some(name) => {
            if is_class {
                proof {
                    assert((seen + own).drop_last() =~= seen);
                    assert((seen + own).last() == *node);
                }
                let ghost prior = texts(classes@);
                if !holds(classes.as_slice(), name.as_str()) {
                    classes.push(name.clone());
                    assert(texts(classes@) =~= prior.push(name@));
                }
                match lookup_text(&node.metadata, "extends") {
                    Some(parent) => {
                        let ghost before = pair_texts(inherits@);
                        inherits.push((parent, name.clone()));
                        assert(pair_texts(inherits@) =~= before.push((parent@, name@)));
                    },
                    None => {},
                }
            }
        },
        None => {},
    }
    proof {
        if own.len() == 0 {
            assert(seen + own =~= seen);
        }
    }
    let ghost done: Seq<ASTNode> = Seq::empty();
    let mut i: usize = 0;
    assert(seen + own + done =~= seen + own);
    while i < node.children.len()
        invariant
            i <= node.children.len(),
            texts(classes@) == class_names(seen + own + done),
            pair_texts(inherits@) == class_inherits(seen + own + done),
            done + classes_from(node.children@, i as int) == classes_from(node.children@, 0),
        decreases node.children.len() - i,
    {
        let ghost here = classes_in(node.children@[i as int]);
        let ghost rest = classes_from(node.children@, i + 1);
        walk(&node.children[i], classes, inherits, Ghost(seen + own + done));
        proof {
            assert((done + here) + rest =~= done + (here + rest));
            assert(seen + own + done + here =~= seen + own + (done + here));
            done = done + here;
        }
        i += 1;
    }
    proof {
        assert(done + Seq::<ASTNode>::empty() =~= done);
        assert(seen + own + done =~= seen + classes_in(*node));
    }
}

/// The text of an optional filter.
pub open spec fn filter_texts(filter: Option<&[String]>) -> Option<Seq<Seq<char>>> {
    match filter {
        Some(list) => Some(texts(list@)),
        None => None,
    }
}

fn keep(name: &str, filter: Option<&[String]>) -> (r: bool)
    ensures
        r == is_shown(name@, filter_texts(filter)),
{
    match filter {
        Some(list) => holds(list, name),
        None => true,
    }
}

pub struct ClassDiagramExporter;

impl ClassDiagramExporter {
    /// The diagram of every class of a tree.
    pub fn from_ast(ast: &SimplifiedAST) -> (r: String)
        ensures
            r@ == diagram(ast.root, None),
    {
        Self::from_ast_with_filter(ast, None)
    }

    /// The diagram of the classes of a tree that the filter names, or of
    /// all of them where there is no filter.
    pub fn from_ast_with_filter(ast: &SimplifiedAST, filter: Option<&[String]>) -> (r: String)
        ensures
            r@ == diagram(ast.root, filter_texts(filter)),
    {
        let mut classes: Vec<String> = Vec::new();
        let mut inherits: Vec<(String, String)> = Vec::new();
        let ghost nothing = Seq::<ASTNode>::empty();
        assert(texts(classes@) =~= class_names(nothing));
        assert(pair_texts(inherits@) =~= class_inherits(nothing));
        walk(&ast.root, &mut classes, &mut inherits, Ghost(nothing));
        assert(nothing + classes_in(ast.root) =~= classes_in(ast.root));
        let ghost f = filter_texts(filter);
        let mut out = String::from_str("classDiagram\n");
        let ghost head = out@;
        let mut i: usize = 0;
        assert(texts(classes@).take(0) =~= Seq::<Seq<char>>::empty());
        assert(head + Seq::<char>::empty() =~= head);
        while i < classes.len()
            invariant
                i <= classes.len(),
                f == filter_texts(filter),
                out@ == head + class_lines(texts(classes@).take(i as int), f),
            decreases classes.len() - i,
        {
            let ghost prior = out@;
            proof {
                let t = texts(classes@).take(i + 1);
                assert(t.drop_last() =~= texts(classes@).take(i as int));
                assert(t.last() == classes@[i as int]@);
            }
            if keep(classes[i].as_str(), filter) {
                out.append("class ");
                out.append(classes[i].as_str());
                out.append("\n");
                assert(out@ =~= prior + ("class "@ + classes@[i as int]@ + "\n"@));
            } else {
                assert(prior + Seq::<char>::empty() =~= prior);
            }
            assert(out@ =~= head + class_lines(texts(classes@).take(i + 1), f));
            i += 1;
        }
        assert(texts(classes@).take(classes@.len() as int) =~= texts(classes@));
        let ghost body = out@;
        let mut j: usize = 0;
        assert(pair_texts(inherits@).take(0) =~= Seq::<(Seq<char>, Seq<char>)>::empty());
        assert(body + Seq::<char>::empty() =~= body);
        while j < inherits.len()
            invariant
                j <= inherits.len(),
                f == filter_texts(filter),
                out@ == body + inherit_lines(pair_texts(inherits@).take(j as int), f),
            decreases inherits.len() - j,
        {
            let ghost prior = out@;
            proof {
                let t = pair_texts(inherits@).take(j + 1);
                assert(t.drop_last() =~= pair_texts(inherits@).take(j as int));
                assert(t.last() == (inherits@[j as int].0@, inherits@[j as int].1@));
            }
            if keep(inherits[j].0.as_str(), filter) && keep(inherits[j].1.as_str(), filter) {
                out.append(inherits[j].0.as_str());
                out.append(" <|-- ");
                out.append(inherits[j].1.as_str());
                out.append("\n");
                assert(out@ =~= prior + (inherits@[j as int].0@ + " <|-- "@ + inherits@[j as int].1@
                    + "\n"@));
            } else {
                assert(prior + Seq::<char>::empty() =~= prior);
            }
            assert(out@ =~= body + inherit_lines(pair_texts(inherits@).take(j + 1), f));
            j += 1;
        }
        assert(pair_texts(inherits@).take(inherits@.len() as int) =~= pair_texts(inherits@));
        out
    }
}

} // verus!
