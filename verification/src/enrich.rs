//! The metadata that the lowering attaches to a node: what every node
//! gets, and what each language adds for its functions and classes.

use vstd::prelude::*;
use vstd::string::*;
use vstd::utf8::encode_utf8;
use crate::ast::{MetaValue, MetaView, meta_pairs};
use crate::extract::{
    any_of_kind, before_char, collect_texts, has_kind, kind_is_among, kinds_view, node_text,
    remove_all, take_before, text_of, texts_of_kinds, without_from,
};
use crate::syntax::SyntaxNode;
use crate::text::{chars_of, str_eq, string_of, texts, trim, trimmed};
use crate::types::Language;

verus! {

pub open spec fn decorator_kinds() -> Seq<Seq<char>> {
    seq!["decorator"@]
}

pub open spec fn argument_list_kinds() -> Seq<Seq<char>> {
    seq!["argument_list"@]
}

pub open spec fn identifier_kinds() -> Seq<Seq<char>> {
    seq!["identifier"@]
}

pub open spec fn super_interface_kinds() -> Seq<Seq<char>> {
    seq!["super_interfaces"@]
}

pub open spec fn class_heritage_kinds() -> Seq<Seq<char>> {
    seq!["class_heritage"@]
}

pub open spec fn java_type_kinds() -> Seq<Seq<char>> {
    seq!["type_identifier"@, "identifier"@]
}

pub open spec fn java_modifier_kinds() -> Seq<Seq<char>> {
    seq![
        "public"@,
        "private"@,
        "protected"@,
        "static"@,
        "final"@,
        "abstract"@,
        "synchronized"@,
    ]
}

/// The kinds of the Kotlin nodes and keywords whose text is a modifier.
pub open spec fn kotlin_modifier_kinds() -> Seq<Seq<char>> {
    seq![
        "visibility_modifier"@,
        "inheritance_modifier"@,
        "function_modifier"@,
        "modifiers"@,
        "modifier"@,
        "suspend"@,
        "inline"@,
        "private"@,
        "public"@,
        "protected"@,
        "internal"@,
        "abstract"@,
        "final"@,
        "open"@,
        "override"@,
        "data"@,
        "sealed"@,
        "inner"@,
        "enum"@,
        "annotation"@,
        "companion"@,
        "lateinit"@,
        "vararg"@,
    ]
}

pub open spec fn kotlin_parent_holder_kinds() -> Seq<Seq<char>> {
    seq!["delegation_specifiers"@, "supertype_list"@, "superclass"@]
}

pub open spec fn kotlin_parent_kinds() -> Seq<Seq<char>> {
    seq![
        "constructor_invocation"@,
        "user_type"@,
        "type_identifier"@,
        "simple_identifier"@,
        "identifier"@,
        "supertype"@,
    ]
}

pub open spec fn kotlin_nested_holder_kinds() -> Seq<Seq<char>> {
    seq!["constructor_invocation"@, "user_type"@]
}

pub open spec fn kotlin_nested_kinds() -> Seq<Seq<char>> {
    seq!["type_identifier"@, "simple_identifier"@]
}

fn decorator_kind_list() -> (r: Vec<&'static str>)
    ensures
        kinds_view(r@) == decorator_kinds(),
{
    let r: Vec<&'static str> = vec!["decorator"];
    assert(kinds_view(r@) =~= decorator_kinds());
    r
}

fn argument_list_kind_list() -> (r: Vec<&'static str>)
    ensures
        kinds_view(r@) == argument_list_kinds(),
{
    let r: Vec<&'static str> = vec!["argument_list"];
    assert(kinds_view(r@) =~= argument_list_kinds());
    r
}

fn identifier_kind_list() -> (r: Vec<&'static str>)
    ensures
        kinds_view(r@) == identifier_kinds(),
{
    let r: Vec<&'static str> = vec!["identifier"];
    assert(kinds_view(r@) =~= identifier_kinds());
    r
}

fn super_interface_kind_list() -> (r: Vec<&'static str>)
    ensures
        kinds_view(r@) == super_interface_kinds(),
{
    let r: Vec<&'static str> = vec!["super_interfaces"];
    assert(kinds_view(r@) =~= super_interface_kinds());
    r
}

fn class_heritage_kind_list() -> (r: Vec<&'static str>)
    ensures
        kinds_view(r@) == class_heritage_kinds(),
{
    let r: Vec<&'static str> = vec!["class_heritage"];
    assert(kinds_view(r@) =~= class_heritage_kinds());
    r
}

fn java_type_kind_list() -> (r: Vec<&'static str>)
    ensures
        kinds_view(r@) == java_type_kinds(),
{
    let r: Vec<&'static str> = vec!["type_identifier", "identifier"];
    assert(kinds_view(r@) =~= java_type_kinds());
    r
}

fn java_modifier_kind_list() -> (r: Vec<&'static str>)
    ensures
        kinds_view(r@) == java_modifier_kinds(),
{
    let r: Vec<&'static str> = vec![
        "public",
        "private",
        "protected",
        "static",
        "final",
        "abstract",
        "synchronized",
    ];
    assert(kinds_view(r@) =~= java_modifier_kinds());
    r
}

fn kotlin_modifier_kind_list() -> (r: Vec<&'static str>)
    ensures
        kinds_view(r@) == kotlin_modifier_kinds(),
{
    let r: Vec<&'static str> = vec![
        "visibility_modifier",
        "inheritance_modifier",
        "function_modifier",
        "modifiers",
        "modifier",
        "suspend",
        "inline",
        "private",
        "public",
        "protected",
        "internal",
        "abstract",
        "final",
        "open",
        "override",
        "data",
        "sealed",
        "inner",
        "enum",
        "annotation",
        "companion",
        "lateinit",
        "vararg",
    ];
    assert(kinds_view(r@) =~= kotlin_modifier_kinds());
    r
}

fn kotlin_parent_holder_kind_list() -> (r: Vec<&'static str>)
    ensures
        kinds_view(r@) == kotlin_parent_holder_kinds(),
{
    let r: Vec<&'static str> = vec!["delegation_specifiers", "supertype_list", "superclass"];
    assert(kinds_view(r@) =~= kotlin_parent_holder_kinds());
    r
}

fn kotlin_parent_kind_list() -> (r: Vec<&'static str>)
    ensures
        kinds_view(r@) == kotlin_parent_kinds(),
{
    let r: Vec<&'static str> = vec![
        "constructor_invocation",
        "user_type",
        "type_identifier",
        "simple_identifier",
        "identifier",
        "supertype",
    ];
    assert(kinds_view(r@) =~= kotlin_parent_kinds());
    r
}

fn kotlin_nested_holder_kind_list() -> (r: Vec<&'static str>)
    ensures
        kinds_view(r@) == kotlin_nested_holder_kinds(),
{
    let r: Vec<&'static str> = vec!["constructor_invocation", "user_type"];
    assert(kinds_view(r@) =~= kotlin_nested_holder_kinds());
    r
}

fn kotlin_nested_kind_list() -> (r: Vec<&'static str>)
    ensures
        kinds_view(r@) == kotlin_nested_kinds(),
{
    let r: Vec<&'static str> = vec!["type_identifier", "simple_identifier"];
    assert(kinds_view(r@) =~= kotlin_nested_kinds());
    r
}

/// The decorators of a Python function: the texts of its decorator
/// children or, where it has none and stands in a decorated definition,
/// those of the definition.
pub open spec fn python_decorators(
    n: SyntaxNode,
    parent: Option<SyntaxNode>,
    source: Seq<char>,
) -> Seq<Seq<char>> {
    let own = texts_of_kinds(n.children@, source, decorator_kinds());
    if own.len() > 0 {
        own
    } else {
        match parent {
            Some(p) => if p.kind@ == "decorated_definition"@ {
                texts_of_kinds(p.children@, source, decorator_kinds())
            } else {
                Seq::empty()
            },
            None => Seq::empty(),
        }
    }
}

pub fn extract_python_decorators(n: &SyntaxNode, parent: Option<&SyntaxNode>, source: &str) -> (r:
    Vec<String>)
    ensures
        texts(r@) == python_decorators(
            *n,
            match parent {
                Some(p) => Some(*p),
                None => None,
            },
            source@,
        ),
{
    let kinds = decorator_kind_list();
    let mut out: Vec<String> = Vec::new();
    collect_texts(&mut out, &n.children, source, &kinds);
    assert(texts(out@) =~= texts_of_kinds(n.children@, source@, decorator_kinds()));
    if out.len() == 0 {
        match parent {
            Some(p) => {
                if str_eq(p.kind.as_str(), "decorated_definition") {
                    collect_texts(&mut out, &p.children, source, &kinds);
                    assert(texts(out@) =~= texts_of_kinds(p.children@, source@, decorator_kinds()));
                }
            },
            None => {},
        }
    }
    out
}

/// The texts under the first node among `kids[i..]` that is of a holder
/// kind and has texts of the wanted kinds among its children.
pub open spec fn first_list_in(
    kids: Seq<SyntaxNode>,
    i: int,
    source: Seq<char>,
    holders: Seq<Seq<char>>,
    kinds: Seq<Seq<char>>,
) -> Option<Seq<Seq<char>>>
    decreases kids.len() - i,
{
    if 0 <= i < kids.len() {
        let found = texts_of_kinds(kids[i].children@, source, kinds);
        if holders.contains(kids[i].kind@) && found.len() > 0 {
            Some(found)
        } else {
            first_list_in(kids, i + 1, source, holders, kinds)
        }
    } else {
        None
    }
}

fn find_first_list(
    kids: &Vec<SyntaxNode>,
    source: &str,
    holders: &Vec<&'static str>,
    kinds: &Vec<&'static str>,
) -> (r: Option<Vec<String>>)
    ensures
        match r {
            Some(l) => first_list_in(kids@, 0, source@, kinds_view(holders@), kinds_view(kinds@))
                == Some(texts(l@)),
            None => first_list_in(kids@, 0, source@, kinds_view(holders@), kinds_view(kinds@))
                is None,
        },
{
    let mut i: usize = 0;
    while i < kids.len()
        invariant
            i <= kids.len(),
            first_list_in(kids@, i as int, source@, kinds_view(holders@), kinds_view(kinds@))
                == first_list_in(kids@, 0, source@, kinds_view(holders@), kinds_view(kinds@)),
        decreases kids.len() - i,
    {
        if kind_is_among(kids[i].kind.as_str(), holders) {
            let mut found: Vec<String> = Vec::new();
            collect_texts(&mut found, &kids[i].children, source, kinds);
            assert(texts(found@) =~= texts_of_kinds(
                kids@[i as int].children@,
                source@,
                kinds_view(kinds@),
            ));
            if found.len() > 0 {
                return Some(found);
            }
        }
        i += 1;
    }
    None
}

/// The base classes of a Python class: the identifiers of its first
/// argument list that has any.
pub open spec fn python_base_classes(n: SyntaxNode, source: Seq<char>) -> Option<Seq<Seq<char>>> {
    first_list_in(n.children@, 0, source, argument_list_kinds(), identifier_kinds())
}

pub fn extract_python_base_classes(n: &SyntaxNode, source: &str) -> (r: Option<Vec<String>>)
    ensures
        match r {
            Some(l) => python_base_classes(*n, source@) == Some(texts(l@)),
            None => python_base_classes(*n, source@) is None,
        },
{
    find_first_list(&n.children, source, &argument_list_kind_list(), &identifier_kind_list())
}

/// The modifiers of a Java method: the texts of its modifier keywords.
pub open spec fn java_modifiers(n: SyntaxNode, source: Seq<char>) -> Seq<Seq<char>> {
    texts_of_kinds(n.children@, source, java_modifier_kinds())
}

pub fn extract_java_modifiers(n: &SyntaxNode, source: &str) -> (r: Vec<String>)
    ensures
        texts(r@) == java_modifiers(*n, source@),
{
    let mut out: Vec<String> = Vec::new();
    collect_texts(&mut out, &n.children, source, &java_modifier_kind_list());
    assert(texts(out@) =~= java_modifiers(*n, source@));
    out
}

/// What one superclass node names: its first type identifier or, where it
/// has none, its own text, trimmed and without `extends `, where that is
/// not empty.
pub open spec fn java_superclass_name(k: SyntaxNode, source: Seq<char>) -> Option<Seq<char>> {
    let ids = texts_of_kinds(k.children@, source, java_type_kinds());
    if ids.len() > 0 {
        Some(ids[0])
    } else {
        match node_text(k, source) {
            Some(t) => {
                let clean = without_from(trimmed(t), "extends "@, 0);
                if clean.len() > 0 {
                    Some(clean)
                } else {
                    None
                }
            },
            None => None,
        }
    }
}

/// The class that a Java class extends: what the first superclass node
/// among `kids[i..]` that names anything names.
pub open spec fn java_extends_in(kids: Seq<SyntaxNode>, i: int, source: Seq<char>) -> Option<
    Seq<char>,
>
    decreases kids.len() - i,
{
    if 0 <= i < kids.len() {
        if kids[i].kind@ == "superclass"@ && java_superclass_name(kids[i], source) is Some {
            java_superclass_name(kids[i], source)
        } else {
            java_extends_in(kids, i + 1, source)
        }
    } else {
        None
    }
}

pub fn extract_java_extends(n: &SyntaxNode, source: &str) -> (r: Option<String>)
    ensures
        match r {
            Some(t) => java_extends_in(n.children@, 0, source@) == Some(t@),
            None => java_extends_in(n.children@, 0, source@) is None,
        },
{
    let kinds = java_type_kind_list();
    let word = chars_of("extends ");
    let mut i: usize = 0;
    while i < n.children.len()
        invariant
            i <= n.children.len(),
            kinds_view(kinds@) == java_type_kinds(),
            word@ == "extends "@,
            java_extends_in(n.children@, i as int, source@) == java_extends_in(
                n.children@,
                0,
                source@,
            ),
        decreases n.children.len() - i,
    {
        let child = &n.children[i];
        if str_eq(child.kind.as_str(), "superclass") {
            let mut ids: Vec<String> = Vec::new();
            collect_texts(&mut ids, &child.children, source, &kinds);
            assert(texts(ids@) =~= texts_of_kinds(child.children@, source@, java_type_kinds()));
            if ids.len() > 0 {
                assert(texts(ids@)[0] == ids@[0]@);
                return Some(ids[0].clone());
            }
            match text_of(child, source) {
                Some(t) => {
                    let c = chars_of(t);
                    let clean = remove_all(trim(c.as_slice()).as_slice(), word.as_slice());
                    if clean.len() > 0 {
                        return Some(string_of(clean.as_slice()));
                    }
                },
                None => {},
            }
        }
        i += 1;
    }
    None
}

/// The interfaces that a Java class implements: the type identifiers of
/// its first interface list that has any.
pub open spec fn java_implements(n: SyntaxNode, source: Seq<char>) -> Option<Seq<Seq<char>>> {
    first_list_in(n.children@, 0, source, super_interface_kinds(), java_type_kinds())
}

pub fn extract_java_implements(n: &SyntaxNode, source: &str) -> (r: Option<Vec<String>>)
    ensures
        match r {
            Some(l) => java_implements(*n, source@) == Some(texts(l@)),
            None => java_implements(*n, source@) is None,
        },
{
    find_first_list(&n.children, source, &super_interface_kind_list(), &java_type_kind_list())
}

/// What a JavaScript class extends: the text of its first heritage clause.
pub open spec fn js_extends(n: SyntaxNode, source: Seq<char>) -> Option<Seq<char>> {
    let found = texts_of_kinds(n.children@, source, class_heritage_kinds());
    if found.len() > 0 {
        Some(found[0])
    } else {
        None
    }
}

pub fn extract_js_extends(n: &SyntaxNode, source: &str) -> (r: Option<String>)
    ensures
        match r {
            Some(t) => js_extends(*n, source@) == Some(t@),
            None => js_extends(*n, source@) is None,
        },
{
    let mut found: Vec<String> = Vec::new();
    collect_texts(&mut found, &n.children, source, &class_heritage_kind_list());
    assert(texts(found@) =~= texts_of_kinds(n.children@, source@, class_heritage_kinds()));
    if found.len() > 0 {
        assert(texts(found@)[0] == found@[0]@);
        Some(found[0].clone())
    } else {
        None
    }
}

/// The texts of all the nodes among `kids`, leaving out those whose text
/// cannot be had.
pub open spec fn texts_of_all(kids: Seq<SyntaxNode>, source: Seq<char>) -> Seq<Seq<char>>
    decreases kids.len(),
{
    if kids.len() == 0 {
        Seq::empty()
    } else {
        let front = texts_of_all(kids.drop_last(), source);
        match node_text(kids.last(), source) {
            Some(t) => front.push(t),
            None => front,
        }
    }
}

fn collect_all_texts(out: &mut Vec<String>, kids: &Vec<SyntaxNode>, source: &str)
    ensures
        texts(final(out)@) == texts(old(out)@) + texts_of_all(kids@, source@),
{
    let ghost base = texts(out@);
    let mut i: usize = 0;
    assert(texts(out@) =~= base + texts_of_all(kids@.take(0), source@));
    while i < kids.len()
        invariant
            i <= kids.len(),
            texts(out@) == base + texts_of_all(kids@.take(i as int), source@),
        decreases kids.len() - i,
    {
        let ghost prior = texts(out@);
        proof {
            assert(kids@.take(i + 1).drop_last() =~= kids@.take(i as int));
            assert(kids@.take(i + 1).last() == kids@[i as int]);
        }
        match text_of(&kids[i], source) {
            Some(t) => {
                out.push(t.to_owned());
                assert(texts(out@) =~= prior.push(t@));
            },
            None => {},
        }
        assert(texts(out@) =~= base + texts_of_all(kids@.take(i + 1), source@));
        i += 1;
    }
    assert(kids@.take(kids@.len() as int) =~= kids@);
}

/// What one child adds to the modifiers of a Kotlin declaration: its own
/// text where it is a modifier node or keyword, then the texts of its
/// children where it is a modifier list.
pub open spec fn kotlin_modifiers_of(k: SyntaxNode, source: Seq<char>) -> Seq<Seq<char>> {
    (if kotlin_modifier_kinds().contains(k.kind@) {
        match node_text(k, source) {
            Some(t) => seq![t],
            None => Seq::empty(),
        }
    } else {
        Seq::empty()
    }) + (if k.kind@ == "modifiers"@ {
        texts_of_all(k.children@, source)
    } else {
        Seq::empty()
    })
}

/// The modifiers of a Kotlin declaration, child by child.
pub open spec fn kotlin_modifiers(kids: Seq<SyntaxNode>, source: Seq<char>) -> Seq<Seq<char>>
    decreases kids.len(),
{
    if kids.len() == 0 {
        Seq::empty()
    } else {
        kotlin_modifiers(kids.drop_last(), source) + kotlin_modifiers_of(kids.last(), source)
    }
}

pub fn extract_kotlin_modifiers(n: &SyntaxNode, source: &str) -> (r: Vec<String>)
    ensures
        texts(r@) == kotlin_modifiers(n.children@, source@),
{
    let kinds = kotlin_modifier_kind_list();
    let kids = &n.children;
    let mut out: Vec<String> = Vec::new();
    let mut i: usize = 0;
    assert(texts(out@) =~= kotlin_modifiers(kids@.take(0), source@));
    while i < kids.len()
        invariant
            i <= kids.len(),
            kinds_view(kinds@) == kotlin_modifier_kinds(),
            texts(out@) == kotlin_modifiers(kids@.take(i as int), source@),
        decreases kids.len() - i,
    {
        let ghost prior = texts(out@);
        let child = &kids[i];
        proof {
            assert(kids@.take(i + 1).drop_last() =~= kids@.take(i as int));
            assert(kids@.take(i + 1).last() == kids@[i as int]);
        }
        if kind_is_among(child.kind.as_str(), &kinds) {
            match text_of(child, source) {
                Some(t) => {
                    out.push(t.to_owned());
                    assert(texts(out@) =~= prior.push(t@));
                },
                None => {},
            }
        }
        let ghost mid = texts(out@);
        if str_eq(child.kind.as_str(), "modifiers") {
            collect_all_texts(&mut out, &child.children, source);
        }
        proof {
            assert(texts(out@) =~= prior + kotlin_modifiers_of(kids@[i as int], source@));
        }
        i += 1;
    }
    assert(kids@.take(kids@.len() as int) =~= kids@);
    out
}

/// What one node under a supertype list adds to the parents of a Kotlin
/// class: its own text up to the first `(`, trimmed, where it is of a
/// parent kind and that is not empty; then the type identifiers among its
/// children where it is a constructor invocation or a user type.
pub open spec fn kotlin_parents_of(g: SyntaxNode, source: Seq<char>) -> Seq<Seq<char>> {
    (if kotlin_parent_kinds().contains(g.kind@) {
        match node_text(g, source) {
            Some(t) => {
                let clean = trimmed(before_char(t, '('));
                if clean.len() > 0 {
                    seq![clean]
                } else {
                    Seq::empty()
                }
            },
            None => Seq::empty(),
        }
    } else {
        Seq::empty()
    }) + (if kotlin_nested_holder_kinds().contains(g.kind@) {
        texts_of_kinds(g.children@, source, kotlin_nested_kinds())
    } else {
        Seq::empty()
    })
}

/// The parents named by the nodes of one supertype list.
pub open spec fn kotlin_parents_under(grand: Seq<SyntaxNode>, source: Seq<char>) -> Seq<Seq<char>>
    decreases grand.len(),
{
    if grand.len() == 0 {
        Seq::empty()
    } else {
        kotlin_parents_under(grand.drop_last(), source) + kotlin_parents_of(grand.last(), source)
    }
}

/// The parents of a Kotlin class, over all its supertype lists.
pub open spec fn kotlin_parents(kids: Seq<SyntaxNode>, source: Seq<char>) -> Seq<Seq<char>>
    decreases kids.len(),
{
    if kids.len() == 0 {
        Seq::empty()
    } else {
        kotlin_parents(kids.drop_last(), source) + (if kotlin_parent_holder_kinds().contains(
            kids.last().kind@,
        ) {
            kotlin_parents_under(kids.last().children@, source)
        } else {
            Seq::empty()
        })
    }
}

fn collect_kotlin_parents_under(out: &mut Vec<String>, grand: &Vec<SyntaxNode>, source: &str)
    ensures
        texts(final(out)@) == texts(old(out)@) + kotlin_parents_under(grand@, source@),
{
    let parent_kinds = kotlin_parent_kind_list();
    let holder_kinds = kotlin_nested_holder_kind_list();
    let nested_kinds = kotlin_nested_kind_list();
    let ghost base = texts(out@);
    let mut i: usize = 0;
    assert(texts(out@) =~= base + kotlin_parents_under(grand@.take(0), source@));
    while i < grand.len()
        invariant
            i <= grand.len(),
            kinds_view(parent_kinds@) == kotlin_parent_kinds(),
            kinds_view(holder_kinds@) == kotlin_nested_holder_kinds(),
            kinds_view(nested_kinds@) == kotlin_nested_kinds(),
            texts(out@) == base + kotlin_parents_under(grand@.take(i as int), source@),
        decreases grand.len() - i,
    {
        let ghost prior = texts(out@);
        let g = &grand[i];
        proof {
            assert(grand@.take(i + 1).drop_last() =~= grand@.take(i as int));
            assert(grand@.take(i + 1).last() == grand@[i as int]);
        }
        if kind_is_among(g.kind.as_str(), &parent_kinds) {
            match text_of(g, source) {
                Some(t) => {
                    let c = chars_of(t);
                    let clean = trim(take_before(c.as_slice(), '(').as_slice());
                    if clean.len() > 0 {
                        out.push(string_of(clean.as_slice()));
                        assert(texts(out@) =~= prior.push(clean@));
                    }
                },
                None => {},
            }
        }
        if kind_is_among(g.kind.as_str(), &holder_kinds) {
            collect_texts(out, &g.children, source, &nested_kinds);
        }
        proof {
            assert(texts(out@) =~= prior + kotlin_parents_of(grand@[i as int], source@));
            assert(texts(out@) =~= base + kotlin_parents_under(grand@.take(i + 1), source@));
        }
        i += 1;
    }
    assert(grand@.take(grand@.len() as int) =~= grand@);
}

pub fn extract_kotlin_parents(n: &SyntaxNode, source: &str) -> (r: Option<Vec<String>>)
    ensures
        match r {
            Some(l) => l@.len() > 0 && texts(l@) == kotlin_parents(n.children@, source@),
            None => kotlin_parents(n.children@, source@).len() == 0,
        },
{
    let holders = kotlin_parent_holder_kind_list();
    let kids = &n.children;
    let mut out: Vec<String> = Vec::new();
    let mut i: usize = 0;
    assert(texts(out@) =~= kotlin_parents(kids@.take(0), source@));
    while i < kids.len()
        invariant
            i <= kids.len(),
            kinds_view(holders@) == kotlin_parent_holder_kinds(),
            texts(out@) == kotlin_parents(kids@.take(i as int), source@),
        decreases kids.len() - i,
    {
        let ghost prior = texts(out@);
        proof {
            assert(kids@.take(i + 1).drop_last() =~= kids@.take(i as int));
            assert(kids@.take(i + 1).last() == kids@[i as int]);
        }
        if kind_is_among(kids[i].kind.as_str(), &holders) {
            collect_kotlin_parents_under(&mut out, &kids[i].children, source);
        } else {
            assert(prior + Seq::<Seq<char>>::empty() =~= prior);
        }
        i += 1;
    }
    assert(kids@.take(kids@.len() as int) =~= kids@);
    if out.len() > 0 {
        Some(out)
    } else {
        None
    }
}

/// The metadata that every node gets: its grammar kind, whether the
/// grammar names it, its language, and its text where that is shorter than
/// a hundred bytes.
pub open spec fn common_metadata(n: SyntaxNode, source: Seq<char>, language: Language) -> Seq<
    (Seq<char>, MetaView),
> {
    seq![
        ("kind"@, MetaView::Text(n.kind@)),
        ("is_named"@, MetaView::Bool(n.is_named)),
        ("language"@, MetaView::Text(language.name_text())),
    ] + (match node_text(n, source) {
        Some(t) => if encode_utf8(t).len() < 100 {
            seq![("text"@, MetaView::Text(t))]
        } else {
            Seq::empty()
        },
        None => Seq::empty(),
    })
}

pub open spec fn python_metadata(n: SyntaxNode, parent: Option<SyntaxNode>, source: Seq<char>) -> Seq<
    (Seq<char>, MetaView),
> {
    if n.kind@ == "function_definition"@ {
        let d = python_decorators(n, parent, source);
        if d.len() > 0 {
            seq![("decorators"@, MetaView::List(d))]
        } else {
            Seq::empty()
        }
    } else if n.kind@ == "class_definition"@ {
        match python_base_classes(n, source) {
            Some(l) => seq![("base_classes"@, MetaView::List(l))],
            None => Seq::empty(),
        }
    } else {
        Seq::empty()
    }
}

pub open spec fn java_metadata(n: SyntaxNode, source: Seq<char>) -> Seq<(Seq<char>, MetaView)> {
    if n.kind@ == "method_declaration"@ || n.kind@ == "constructor_declaration"@ {
        let m = java_modifiers(n, source);
        if m.len() > 0 {
            seq![("modifiers"@, MetaView::List(m))]
        } else {
            Seq::empty()
        }
    } else if n.kind@ == "class_declaration"@ {
        (match java_extends_in(n.children@, 0, source) {
            Some(e) => seq![("extends"@, MetaView::Text(e))],
            None => Seq::empty(),
        }) + (match java_implements(n, source) {
            Some(l) => seq![("implements"@, MetaView::List(l))],
            None => Seq::empty(),
        })
    } else {
        Seq::empty()
    }
}

pub open spec fn javascript_metadata(n: SyntaxNode, source: Seq<char>) -> Seq<
    (Seq<char>, MetaView),
> {
    if n.kind@ == "function_declaration"@ || n.kind@ == "method_definition"@ {
        (if has_kind(n.children@, "async"@) {
            seq![("async"@, MetaView::Bool(true))]
        } else {
            Seq::empty()
        }) + (if has_kind(n.children@, "*"@) {
            seq![("generator"@, MetaView::Bool(true))]
        } else {
            Seq::empty()
        })
    } else if n.kind@ == "class_declaration"@ {
        match js_extends(n, source) {
            Some(e) => seq![("extends"@, MetaView::Text(e))],
            None => Seq::empty(),
        }
    } else {
        Seq::empty()
    }
}

pub open spec fn kotlin_metadata(n: SyntaxNode, source: Seq<char>) -> Seq<(Seq<char>, MetaView)> {
    if n.kind@ == "function_declaration"@ {
        let m = kotlin_modifiers(n.children@, source);
        if m.len() > 0 {
            seq![("modifiers"@, MetaView::List(m))]
        } else {
            Seq::empty()
        }
    } else if n.kind@ == "class_declaration"@ || n.kind@ == "object_declaration"@ {
        let m = kotlin_modifiers(n.children@, source);
        let p = kotlin_parents(n.children@, source);
        (if m.len() > 0 {
            seq![("modifiers"@, MetaView::List(m))]
        } else {
            Seq::empty()
        }) + (if p.len() > 0 {
            seq![("parents"@, MetaView::List(p))]
        } else {
            Seq::empty()
        })
    } else {
        Seq::empty()
    }
}

/// The metadata of a lowered node, in the order it is attached.
pub open spec fn lowered_metadata(
    n: SyntaxNode,
    parent: Option<SyntaxNode>,
    source: Seq<char>,
    language: Language,
) -> Seq<(Seq<char>, MetaView)> {
    common_metadata(n, source, language) + (match language {
        Language::Python => python_metadata(n, parent, source),
        Language::Java => java_metadata(n, source),
        Language::JavaScript => javascript_metadata(n, source),
        Language::Kotlin => kotlin_metadata(n, source),
        _ => Seq::empty(),
    })
}

fn put(meta: &mut Vec<(String, MetaValue)>, key: &str, value: MetaValue)
    ensures
        meta_pairs(final(meta)@) == meta_pairs(old(meta)@).push((key@, value@)),
{
    let ghost prior = meta_pairs(meta@);
    meta.push((key.to_owned(), value));
    assert(meta_pairs(meta@) =~= prior.push((key@, value@)));
}

fn add_python_metadata(
    meta: &mut Vec<(String, MetaValue)>,
    n: &SyntaxNode,
    parent: Option<&SyntaxNode>,
    source: &str,
)
    ensures
        meta_pairs(final(meta)@) == meta_pairs(old(meta)@) + python_metadata(
            *n,
            match parent {
                Some(p) => Some(*p),
                None => None,
            },
            source@,
        ),
{
    let ghost base = meta_pairs(meta@);
    if str_eq(n.kind.as_str(), "function_definition") {
        let d = extract_python_decorators(n, parent, source);
        if d.len() > 0 {
            put(meta, "decorators", MetaValue::List(d));
        }
    } else if str_eq(n.kind.as_str(), "class_definition") {
        match extract_python_base_classes(n, source) {
            Some(l) => {
                put(meta, "base_classes", MetaValue::List(l));
            },
            None => {},
        }
    }
    assert(meta_pairs(meta@) =~= base + python_metadata(
        *n,
        match parent {
            Some(p) => Some(*p),
            None => None,
        },
        source@,
    ));
}

fn add_java_metadata(meta: &mut Vec<(String, MetaValue)>, n: &SyntaxNode, source: &str)
    ensures
        meta_pairs(final(meta)@) == meta_pairs(old(meta)@) + java_metadata(*n, source@),
{
    let ghost base = meta_pairs(meta@);
    if str_eq(n.kind.as_str(), "method_declaration") || str_eq(
        n.kind.as_str(),
        "constructor_declaration",
    ) {
        let m = extract_java_modifiers(n, source);
        if m.len() > 0 {
            put(meta, "modifiers", MetaValue::List(m));
        }
    } else if str_eq(n.kind.as_str(), "class_declaration") {
        match extract_java_extends(n, source) {
            Some(e) => {
                put(meta, "extends", MetaValue::Text(e));
            },
            None => {},
        }
        match extract_java_implements(n, source) {
            Some(l) => {
                put(meta, "implements", MetaValue::List(l));
            },
            None => {},
        }
    }
    assert(meta_pairs(meta@) =~= base + java_metadata(*n, source@));
}

fn add_javascript_metadata(meta: &mut Vec<(String, MetaValue)>, n: &SyntaxNode, source: &str)
    ensures
        meta_pairs(final(meta)@) == meta_pairs(old(meta)@) + javascript_metadata(*n, source@),
{
    let ghost base = meta_pairs(meta@);
    if str_eq(n.kind.as_str(), "function_declaration") || str_eq(
        n.kind.as_str(),
        "method_definition",
    ) {
        if any_of_kind(&n.children, "async") {
            put(meta, "async", MetaValue::Bool(true));
        }
        if any_of_kind(&n.children, "*") {
            put(meta, "generator", MetaValue::Bool(true));
        }
    } else if str_eq(n.kind.as_str(), "class_declaration") {
        match extract_js_extends(n, source) {
            Some(e) => {
                put(meta, "extends", MetaValue::Text(e));
            },
            None => {},
        }
    }
    assert(meta_pairs(meta@) =~= base + javascript_metadata(*n, source@));
}

fn add_kotlin_metadata(meta: &mut Vec<(String, MetaValue)>, n: &SyntaxNode, source: &str)
    ensures
        meta_pairs(final(meta)@) == meta_pairs(old(meta)@) + kotlin_metadata(*n, source@),
{
    let ghost base = meta_pairs(meta@);
    if str_eq(n.kind.as_str(), "function_declaration") {
        let m = extract_kotlin_modifiers(n, source);
        if m.len() > 0 {
            put(meta, "modifiers", MetaValue::List(m));
        }
    } else if str_eq(n.kind.as_str(), "class_declaration") || str_eq(
        n.kind.as_str(),
        "object_declaration",
    ) {
        let m = extract_kotlin_modifiers(n, source);
        if m.len() > 0 {
            put(meta, "modifiers", MetaValue::List(m));
        }
        match extract_kotlin_parents(n, source) {
            Some(p) => {
                put(meta, "parents", MetaValue::List(p));
            },
            None => {},
        }
    }
    assert(meta_pairs(meta@) =~= base + kotlin_metadata(*n, source@));
}

/// The metadata of a lowered node.
pub fn node_metadata(n: &SyntaxNode, parent: Option<&SyntaxNode>, source: &str, language: Language) -> (meta:
    Vec<(String, MetaValue)>)
    ensures
        meta_pairs(meta@) == lowered_metadata(
            *n,
            match parent {
                Some(p) => Some(*p),
                None => None,
            },
            source@,
            language,
        ),
{
    let mut meta: Vec<(String, MetaValue)> = Vec::new();
    put(&mut meta, "kind", MetaValue::Text(n.kind.clone()));
    put(&mut meta, "is_named", MetaValue::Bool(n.is_named));
    put(&mut meta, "language", MetaValue::Text(String::from_str(language.name())));
    match text_of(n, source) {
        Some(t) => {
            if t.as_bytes().len() < 100 {
                put(&mut meta, "text", MetaValue::Text(t.to_owned()));
            }
        },
        None => {},
    }
    assert(meta_pairs(meta@) =~= common_metadata(*n, source@, language));
    match language {
        Language::Python => add_python_metadata(&mut meta, n, parent, source),
        Language::Java => add_java_metadata(&mut meta, n, source),
        Language::JavaScript => add_javascript_metadata(&mut meta, n, source),
        Language::Kotlin => add_kotlin_metadata(&mut meta, n, source),
        _ => {
            assert(meta_pairs(meta@) + Seq::<(Seq<char>, MetaView)>::empty() =~= meta_pairs(meta@));
        },
    }
    meta
}

} // verus!
