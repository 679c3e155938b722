//! What the lowering reads off a parse tree: the text of nodes, names of
//! declarations and imports, and the lists and flags that become metadata.

use vstd::prelude::*;
use vstd::string::*;
use crate::syntax::SyntaxNode;
use crate::text::{
    byte_span, chars_of, is_text, matches_at, occurs_at, slice_of, span_text, str_eq, string_of,
    texts,
};

verus! {

/// The source text that a node spans, if its byte range lies within the
/// source and cuts no character in two.
pub open spec fn node_text(n: SyntaxNode, source: Seq<char>) -> Option<Seq<char>> {
    span_text(source, n.start_byte as int, n.end_byte as int)
}

/// The texts of a list of kinds.
pub open spec fn kinds_view(kinds: Seq<&'static str>) -> Seq<Seq<char>> {
    kinds.map_values(|s: &'static str| s@)
}

/// The source text that a node spans.
pub fn text_of<'a>(n: &SyntaxNode, source: &'a str) -> (r: Option<&'a str>)
    ensures
        match r {
            Some(t) => node_text(*n, source@) == Some(t@),
            None => node_text(*n, source@) is None,
        },
{
    byte_span(source, n.start_byte, n.end_byte)
}

/// Whether a kind is one of the given kinds.
pub fn kind_is_among(kind: &str, kinds: &Vec<&'static str>) -> (r: bool)
    ensures
        r == kinds_view(kinds@).contains(kind@),
{
    let k = chars_of(kind);
    let mut i: usize = 0;
    while i < kinds.len()
        invariant
            i <= kinds.len(),
            k@ == kind@,
            forall|j: int| 0 <= j < i ==> kinds_view(kinds@)[j] != kind@,
        decreases kinds.len() - i,
    {
        if is_text(k.as_slice(), kinds[i]) {
            assert(kinds_view(kinds@)[i as int] == kind@);
            return true;
        }
        i += 1;
    }
    false
}

/// The texts of the nodes among `kids` whose kind is one of `kinds`, in
/// order, leaving out those whose text cannot be had.
pub open spec fn texts_of_kinds(kids: Seq<SyntaxNode>, source: Seq<char>, kinds: Seq<Seq<char>>) -> Seq<
    Seq<char>,
>
    decreases kids.len(),
{
    if kids.len() == 0 {
        Seq::empty()
    } else {
        let front = texts_of_kinds(kids.drop_last(), source, kinds);
        let k = kids.last();
        if kinds.contains(k.kind@) {
            match node_text(k, source) {
                Some(t) => front.push(t),
                None => front,
            }
        } else {
            front
        }
    }
}

/// Appends the texts of the nodes among `kids` whose kind is one of `kinds`.
pub fn collect_texts(
    out: &mut Vec<String>,
    kids: &Vec<SyntaxNode>,
    source: &str,
    kinds: &Vec<&'static str>,
)
    ensures
        texts(final(out)@) == texts(old(out)@) + texts_of_kinds(
            kids@,
            source@,
            kinds_view(kinds@),
        ),
{
    let ghost base = texts(out@);
    let mut i: usize = 0;
    assert(texts(out@) =~= base + texts_of_kinds(kids@.take(0), source@, kinds_view(kinds@)));
    while i < kids.len()
        invariant
            i <= kids.len(),
            texts(out@) == base + texts_of_kinds(kids@.take(i as int), source@, kinds_view(kinds@)),
        decreases kids.len() - i,
    {
        let ghost prior = texts(out@);
        proof {
            assert(kids@.take(i + 1).drop_last() =~= kids@.take(i as int));
            assert(kids@.take(i + 1).last() == kids@[i as int]);
        }
        if kind_is_among(kids[i].kind.as_str(), kinds) {
            match text_of(&kids[i], source) {
                Some(t) => {
                    out.push(t.to_owned());
                    assert(texts(out@) =~= prior.push(t@));
                },
                None => {},
            }
        }
        assert(texts(out@) =~= base + texts_of_kinds(
            kids@.take(i + 1),
            source@,
            kinds_view(kinds@),
        ));
        i += 1;
    }
    assert(kids@.take(kids@.len() as int) =~= kids@);
}

/// Whether some node among `kids` has the given kind.
pub open spec fn has_kind(kids: Seq<SyntaxNode>, kind: Seq<char>) -> bool {
    exists|i: int| 0 <= i < kids.len() && (#[trigger] kids[i]).kind@ == kind
}

/// Whether some node among `kids` has the given kind.
pub fn any_of_kind(kids: &Vec<SyntaxNode>, kind: &str) -> (r: bool)
    ensures
        r == has_kind(kids@, kind@),
{
    let mut i: usize = 0;
    while i < kids.len()
        invariant
            i <= kids.len(),
            forall|j: int| 0 <= j < i ==> (#[trigger] kids@[j]).kind@ != kind@,
        decreases kids.len() - i,
    {
        if str_eq(kids[i].kind.as_str(), kind) {
            return true;
        }
        i += 1;
    }
    false
}

/// The kinds of the nodes that carry a declaration's name.
pub open spec fn name_kinds() -> Seq<Seq<char>> {
    seq!["identifier"@, "name"@, "type_identifier"@, "simple_identifier"@]
}

pub fn name_kind_list() -> (r: Vec<&'static str>)
    ensures
        kinds_view(r@) == name_kinds(),
{
    let r: Vec<&'static str> = vec!["identifier", "name", "type_identifier", "simple_identifier"];
    assert(kinds_view(r@) =~= name_kinds());
    r
}

/// The first name among `kids[i..]` and below them, depth first: the text
/// of the first node of a name kind whose text can be had.
pub open spec fn name_in(kids: Seq<SyntaxNode>, i: int, source: Seq<char>) -> Option<Seq<char>>
    decreases kids, kids.len() - i,
{
    if 0 <= i < kids.len() {
        let direct = if name_kinds().contains(kids[i].kind@) {
            node_text(kids[i], source)
        } else {
            None
        };
        match direct {
            Some(t) => Some(t),
            None => match name_below(kids[i], source) {
                Some(t) => Some(t),
                None => name_in(kids, i + 1, source),
            },
        }
    } else {
        None
    }
}

/// The first name below a node, depth first.
pub open spec fn name_below(n: SyntaxNode, source: Seq<char>) -> Option<Seq<char>>
    decreases n,
{
    name_in(n.children@, 0, source)
}

/// The first name below a node, depth first.
pub fn find_name_child(n: &SyntaxNode, source: &str) -> (r: Option<String>)
    ensures
        match r {
            Some(t) => name_below(*n, source@) == Some(t@),
            None => name_below(*n, source@) is None,
        },
    decreases n,
{
    let kinds = name_kind_list();
    let mut i: usize = 0;
    while i < n.children.len()
        invariant
            i <= n.children.len(),
            kinds_view(kinds@) == name_kinds(),
            name_in(n.children@, i as int, source@) == name_in(n.children@, 0, source@),
        decreases n.children.len() - i,
    {
        let child = &n.children[i];
        if kind_is_among(child.kind.as_str(), &kinds) {
            match text_of(child, source) {
                Some(t) => {
                    return Some(t.to_owned());
                },
                None => {},
            }
        }
        match find_name_child(child, source) {
            Some(t) => {
                return Some(t);
            },
            None => {},
        }
        i += 1;
    }
    None
}

/// The first position at or after `i` that does not hold `c`.
pub open spec fn skip_char(s: Seq<char>, c: char, i: int) -> int
    decreases s.len() - i,
{
    if 0 <= i < s.len() && s[i] == c {
        skip_char(s, c, i + 1)
    } else {
        i
    }
}

/// The end of the text once every trailing `c` is cut, never below `lo`.
pub open spec fn cut_char(s: Seq<char>, c: char, lo: int, j: int) -> int
    decreases j,
{
    if 0 <= lo < j <= s.len() && s[j - 1] == c {
        cut_char(s, c, lo, j - 1)
    } else {
        j
    }
}

/// A text without the `c`s at its start and end.
pub open spec fn strip_char(s: Seq<char>, c: char) -> Seq<char> {
    let a = skip_char(s, c, 0);
    s.subrange(a, cut_char(s, c, a, s.len() as int))
}

/// Cuts every `c` from the start and the end of a text.
pub fn strip(s: &[char], c: char) -> (r: Vec<char>)
    ensures
        r@ == strip_char(s@, c),
{
    let mut a: usize = 0;
    while a < s.len() && s[a] == c
        invariant
            a <= s.len(),
            skip_char(s@, c, 0) == skip_char(s@, c, a as int),
        decreases s.len() - a,
    {
        a += 1;
    }
    let mut b: usize = s.len();
    while a < b && s[b - 1] == c
        invariant
            a <= b <= s.len(),
            cut_char(s@, c, a as int, s@.len() as int) == cut_char(s@, c, a as int, b as int),
        decreases b,
    {
        b -= 1;
    }
    slice_of(s, a, b)
}

/// The kinds of the nodes whose text names an imported module.
pub open spec fn import_text_kinds() -> Seq<Seq<char>> {
    seq!["dotted_name"@, "module_name"@, "identifier"@, "string_literal"@]
}

pub fn import_text_kind_list() -> (r: Vec<&'static str>)
    ensures
        kinds_view(r@) == import_text_kinds(),
{
    let r: Vec<&'static str> = vec!["dotted_name", "module_name", "identifier", "string_literal"];
    assert(kinds_view(r@) =~= import_text_kinds());
    r
}

/// The name of what the first telling child among `kids[i..]` imports: the
/// text of a module-name node without the quotes around it, or the first
/// name below a scoped identifier.
pub open spec fn import_name_in(kids: Seq<SyntaxNode>, i: int, source: Seq<char>) -> Option<
    Seq<char>,
>
    decreases kids.len() - i,
{
    if 0 <= i < kids.len() {
        let k = kids[i];
        if import_text_kinds().contains(k.kind@) && node_text(k, source) is Some {
            Some(strip_char(strip_char(node_text(k, source)->0, '"'), '\''))
        } else if k.kind@ == "scoped_identifier"@ && name_below(k, source) is Some {
            name_below(k, source)
        } else {
            import_name_in(kids, i + 1, source)
        }
    } else {
        None
    }
}

/// The name of what an import node imports.
pub fn extract_import_name(n: &SyntaxNode, source: &str) -> (r: Option<String>)
    ensures
        match r {
            Some(t) => import_name_in(n.children@, 0, source@) == Some(t@),
            None => import_name_in(n.children@, 0, source@) is None,
        },
{
    let kinds = import_text_kind_list();
    let mut i: usize = 0;
    while i < n.children.len()
        invariant
            i <= n.children.len(),
            kinds_view(kinds@) == import_text_kinds(),
            import_name_in(n.children@, i as int, source@) == import_name_in(
                n.children@,
                0,
                source@,
            ),
        decreases n.children.len() - i,
    {
        let child = &n.children[i];
        if kind_is_among(child.kind.as_str(), &kinds) {
            match text_of(child, source) {
                Some(t) => {
                    let c = chars_of(t);
                    let unquoted = strip(strip(c.as_slice(), '"').as_slice(), '\'');
                    return Some(string_of(unquoted.as_slice()));
                },
                None => {},
            }
        }
        if str_eq(child.kind.as_str(), "scoped_identifier") {
            match find_name_child(child, source) {
                Some(t) => {
                    return Some(t);
                },
                None => {},
            }
        }
        i += 1;
    }
    None
}

/// A text with every occurrence of `pattern` taken out, scanning from
/// position `i` to the right.
pub open spec fn without_from(s: Seq<char>, pattern: Seq<char>, i: int) -> Seq<char>
    decreases s.len() - i,
{
    if i < 0 || i >= s.len() {
        Seq::empty()
    } else if pattern.len() > 0 && occurs_at(s, pattern, i) {
        without_from(s, pattern, i + pattern.len())
    } else {
        seq![s[i]] + without_from(s, pattern, i + 1)
    }
}

/// Takes every occurrence of `pattern` out of a text.
pub fn remove_all(s: &[char], pattern: &[char]) -> (r: Vec<char>)
    ensures
        r@ == without_from(s@, pattern@, 0),
{
    let mut out: Vec<char> = Vec::new();
    let mut i: usize = 0;
    assert(out@ + without_from(s@, pattern@, 0) =~= without_from(s@, pattern@, 0));
    while i < s.len()
        invariant
            i <= s.len(),
            out@ + without_from(s@, pattern@, i as int) == without_from(s@, pattern@, 0),
        decreases s.len() - i,
    {
        if pattern.len() > 0 && matches_at(s, pattern, i) {
            i += pattern.len();
        } else {
            let ghost prior = out@;
            out.push(s[i]);
            proof {
                let rest = without_from(s@, pattern@, i + 1);
                assert(prior.push(s@[i as int]) + rest =~= prior + (seq![s@[i as int]] + rest));
            }
            i += 1;
        }
    }
    assert(out@ + Seq::<char>::empty() =~= out@);
    out
}

/// The part of a text before its first `c`, or all of it.
pub open spec fn before_char(s: Seq<char>, c: char) -> Seq<char> {
    s.subrange(0, until_char(s, c, 0))
}

/// The first position at or after `i` that holds `c`, or the end of the text.
pub open spec fn until_char(s: Seq<char>, c: char, i: int) -> int
    decreases s.len() - i,
{
    if 0 <= i < s.len() && s[i] != c {
        until_char(s, c, i + 1)
    } else {
        i
    }
}

/// The part of a text before its first `c`.
pub fn take_before(s: &[char], c: char) -> (r: Vec<char>)
    ensures
        r@ == before_char(s@, c),
{
    let mut e: usize = 0;
    while e < s.len() && s[e] != c
        invariant
            e <= s.len(),
            until_char(s@, c, 0) == until_char(s@, c, e as int),
        decreases s.len() - e,
    {
        e += 1;
    }
    slice_of(s, 0, e)
}

} // verus!
