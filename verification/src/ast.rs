//! The nodes of the simplified syntax tree: type, optional name, location,
//! children and metadata.

use vstd::prelude::*;
use vstd::string::*;
use vstd::utf8::encode_utf8;
use crate::hash::digest_hex;
use crate::node_type::{kind_label, ASTNodeType, NodeKind};
use crate::text::{byte_span, decimal, decimal_of, span_text, string_of, texts};

verus! {

/// Where a node stands in its source: lines from one, columns from zero,
/// and both byte offsets.
#[derive(Debug, Clone, Copy, PartialEq, Eq, Structural)]
pub struct NodeLocation {
    pub start_line: u32,
    pub start_column: u32,
    pub end_line: u32,
    pub end_column: u32,
    pub start_byte: u32,
    pub end_byte: u32,
}

impl NodeLocation {
    pub fn new(
        start_line: u32,
        start_column: u32,
        end_line: u32,
        end_column: u32,
        start_byte: u32,
        end_byte: u32,
    ) -> (r: Self)
        ensures
            r == (NodeLocation {
                start_line,
                start_column,
                end_line,
                end_column,
                start_byte,
                end_byte,
            }),
    {
        NodeLocation { start_line, start_column, end_line, end_column, start_byte, end_byte }
    }

    /// The byte range of `other` lies within the byte range of `self`.
    pub open spec fn spec_contains(self, other: NodeLocation) -> bool {
        self.start_byte <= other.start_byte && other.end_byte <= self.end_byte
    }

    /// The byte ranges of `self` and `other` share at least one byte.
    pub open spec fn spec_overlaps(self, other: NodeLocation) -> bool {
        !(self.end_byte <= other.start_byte || other.end_byte <= self.start_byte)
    }

    /// Whether the byte range of `other` lies within that of `self`.
    pub fn contains(&self, other: &NodeLocation) -> (r: bool)
        ensures
            r == self.spec_contains(*other),
    {
        self.start_byte <= other.start_byte && other.end_byte <= self.end_byte
    }

    /// Whether the byte ranges of `self` and `other` overlap.
    pub fn overlaps(&self, other: &NodeLocation) -> (r: bool)
        ensures
            r == self.spec_overlaps(*other),
    {
        !(self.end_byte <= other.start_byte || other.end_byte <= self.start_byte)
    }
}

/// A value attached to a node under a key.
#[derive(Debug, Clone, PartialEq, Eq)]
pub enum MetaValue {
    Bool(bool),
    Number(u64),
    Text(String),
    List(Vec<String>),
}

/// A metadata value as a plain value.
pub enum MetaView {
    Bool(bool),
    Number(u64),
    Text(Seq<char>),
    List(Seq<Seq<char>>),
}

impl View for MetaValue {
    type V = MetaView;

    open spec fn view(&self) -> MetaView {
        match self {
            MetaValue::Bool(b) => MetaView::Bool(*b),
            MetaValue::Number(n) => MetaView::Number(*n),
            MetaValue::Text(s) => MetaView::Text(s@),
            MetaValue::List(l) => MetaView::List(texts(l@)),
        }
    }
}

/// Copies a list of strings.
pub fn clone_strings(v: &Vec<String>) -> (r: Vec<String>)
    ensures
        texts(r@) == texts(v@),
{
    let mut out: Vec<String> = Vec::new();
    let mut i: usize = 0;
    while i < v.len()
        invariant
            i <= v.len(),
            texts(out@) == texts(v@).take(i as int),
        decreases v.len() - i,
    {
        let ghost prior = texts(out@);
        out.push(v[i].clone());
        assert(texts(out@) =~= prior.push(v@[i as int]@));
        assert(texts(out@) =~= texts(v@).take(i + 1));
        i += 1;
    }
    assert(texts(v@).take(v@.len() as int) =~= texts(v@));
    out
}

impl MetaValue {
    /// A copy that holds the same value.
    pub fn duplicate(&self) -> (r: MetaValue)
        ensures
            r@ == self@,
    {
        match self {
            MetaValue::Bool(b) => MetaValue::Bool(*b),
            MetaValue::Number(n) => MetaValue::Number(*n),
            MetaValue::Text(s) => MetaValue::Text(s.clone()),
            MetaValue::List(l) => MetaValue::List(clone_strings(l)),
        }
    }
}

/// The metadata as `(key, value)` pairs of plain values.
pub open spec fn meta_pairs(entries: Seq<(String, MetaValue)>) -> Seq<(Seq<char>, MetaView)> {
    entries.map_values(|e: (String, MetaValue)| (e.0@, e.1@))
}

/// The value of the first pair with the given key.
pub open spec fn pair_lookup(pairs: Seq<(Seq<char>, MetaView)>, key: Seq<char>) -> Option<
    MetaView,
>
    decreases pairs.len(),
{
    if pairs.len() == 0 {
        None
    } else if pairs[0].0 == key {
        Some(pairs[0].1)
    } else {
        pair_lookup(pairs.drop_first(), key)
    }
}

/// The value that the metadata holds under a key.
pub open spec fn meta_lookup(entries: Seq<(String, MetaValue)>, key: Seq<char>) -> Option<MetaView> {
    pair_lookup(meta_pairs(entries), key)
}

/// The lookup finds the first pair with the key, and nothing when no pair has it.
pub proof fn lemma_pair_lookup(pairs: Seq<(Seq<char>, MetaView)>, key: Seq<char>, i: int)
    requires
        0 <= i <= pairs.len(),
        forall|j: int| 0 <= j < i ==> (#[trigger] pairs[j]).0 != key,
        i < pairs.len() ==> pairs[i].0 == key,
    ensures
        pair_lookup(pairs, key) == (if i < pairs.len() {
            Some(pairs[i].1)
        } else {
            None
        }),
    decreases pairs.len(),
{
    if pairs.len() > 0 {
        if i == 0 {
        } else {
            assert(pairs[0].0 != key);
            let rest = pairs.drop_first();
            assert forall|j: int| 0 <= j < i - 1 implies (#[trigger] rest[j]).0 != key by {
                assert(rest[j] == pairs[j + 1]);
            }
            lemma_pair_lookup(rest, key, i - 1);
        }
    }
}

/// Changing the value at a key's position, or adding the key at the end
/// when it is absent, changes no other key's value.
pub proof fn lemma_pair_lookup_other(
    pairs: Seq<(Seq<char>, MetaView)>,
    after: Seq<(Seq<char>, MetaView)>,
    key: Seq<char>,
    other: Seq<char>,
)
    requires
        other != key,
        after.len() == pairs.len() || after.len() == pairs.len() + 1,
        forall|j: int|
            0 <= j < pairs.len() ==> (#[trigger] after[j]) == pairs[j] || (pairs[j].0 == key
                && after[j].0 == key),
        after.len() == pairs.len() + 1 ==> after[pairs.len() as int].0 == key,
    ensures
        pair_lookup(after, other) == pair_lookup(pairs, other),
    decreases pairs.len(),
{
    if pairs.len() == 0 {
        if after.len() == 1 {
            assert(after.drop_first().len() == 0);
        }
    } else {
        let p0 = pairs.drop_first();
        let a0 = after.drop_first();
        assert(after[0] == pairs[0] || (pairs[0].0 == key && after[0].0 == key));
        assert forall|j: int| 0 <= j < p0.len() implies (#[trigger] a0[j]) == p0[j] || (p0[j].0
            == key && a0[j].0 == key) by {
            assert(a0[j] == after[j + 1] && p0[j] == pairs[j + 1]);
        }
        if after.len() == pairs.len() + 1 {
            assert(a0[p0.len() as int] == after[pairs.len() as int]);
        }
        lemma_pair_lookup_other(p0, a0, key, other);
    }
}

/// Records a value under a key, in place of what the key held before.
pub fn upsert_meta(entries: &mut Vec<(String, MetaValue)>, key: &str, value: MetaValue)
    ensures
        meta_lookup(final(entries)@, key@) == Some(value@),
        forall|other: Seq<char>|
            other != key@ ==> meta_lookup(final(entries)@, other) == meta_lookup(
                old(entries)@,
                other,
            ),
        final(entries)@.len() == (if meta_lookup(old(entries)@, key@) is Some {
            old(entries)@.len()
        } else {
            old(entries)@.len() + 1
        }),
{
    let ghost before = meta_pairs(entries@);
    let mut i: usize = 0;
    while i < entries.len()
        invariant
            i <= entries.len(),
            *entries == *old(entries),
            before == meta_pairs(entries@),
            forall|j: int| 0 <= j < i ==> (#[trigger] before[j]).0 != key@,
        ensures
            i <= entries.len(),
            *entries == *old(entries),
            before == meta_pairs(entries@),
            forall|j: int| 0 <= j < i ==> (#[trigger] before[j]).0 != key@,
            i < entries.len() ==> before[i as int].0 == key@,
        decreases entries.len() - i,
    {
        if crate::text::str_eq(entries[i].0.as_str(), key) {
            assert(before[i as int].0 == key@);
            break;
        }
        i += 1;
    }
    proof {
        lemma_pair_lookup(before, key@, i as int);
    }
    let entry = (key.to_owned(), value);
    if i < entries.len() {
        entries.set(i, entry);
    } else {
        entries.push(entry);
    }
    proof {
        let after = meta_pairs(entries@);
        assert(after[i as int] == (key@, value@));
        assert forall|j: int| 0 <= j < i implies (#[trigger] after[j]).0 != key@ by {
            assert(after[j] == before[j]);
        }
        lemma_pair_lookup(after, key@, i as int);
        assert forall|other: Seq<char>| other != key@ implies meta_lookup(entries@, other)
            == meta_lookup(old(entries)@, other) by {
            assert forall|j: int| 0 <= j < before.len() implies (#[trigger] after[j]) == before[j]
                || (before[j].0 == key@ && after[j].0 == key@) by {
                if j != i {
                    assert(after[j] == before[j]);
                }
            }
            lemma_pair_lookup_other(before, after, key@, other);
        }
    }
}

/// The value recorded under a key.
pub fn lookup_meta<'a>(entries: &'a Vec<(String, MetaValue)>, key: &str) -> (r: Option<
    &'a MetaValue,
>)
    ensures
        match r {
            Some(v) => meta_lookup(entries@, key@) == Some(v@),
            None => meta_lookup(entries@, key@) is None,
        },
{
    let ghost pairs = meta_pairs(entries@);
    let mut i: usize = 0;
    while i < entries.len()
        invariant
            i <= entries.len(),
            pairs == meta_pairs(entries@),
            forall|j: int| 0 <= j < i ==> (#[trigger] pairs[j]).0 != key@,
        decreases entries.len() - i,
    {
        if crate::text::str_eq(entries[i].0.as_str(), key) {
            proof {
                assert(pairs[i as int] == (entries@[i as int].0@, entries@[i as int].1@));
                lemma_pair_lookup(pairs, key@, i as int);
            }
            return Some(&entries[i].1);
        }
        i += 1;
    }
    proof {
        lemma_pair_lookup(pairs, key@, i as int);
    }
    None
}

/// The text recorded under a key, if the key holds a text.
pub fn lookup_text(entries: &Vec<(String, MetaValue)>, key: &str) -> (r: Option<String>)
    ensures
        match r {
            Some(s) => meta_lookup(entries@, key@) == Some(MetaView::Text(s@)),
            None => !(meta_lookup(entries@, key@) matches Some(MetaView::Text(_))),
        },
{
    match lookup_meta(entries, key) {
        Some(MetaValue::Text(s)) => Some(s.clone()),
        _ => None,
    }
}

/// The list recorded under a key, if the key holds a list.
pub fn lookup_list(entries: &Vec<(String, MetaValue)>, key: &str) -> (r: Option<Vec<String>>)
    ensures
        match r {
            Some(l) => meta_lookup(entries@, key@) == Some(MetaView::List(texts(l@))),
            None => !(meta_lookup(entries@, key@) matches Some(MetaView::List(_))),
        },
{
    match lookup_meta(entries, key) {
        Some(MetaValue::List(l)) => Some(clone_strings(l)),
        _ => None,
    }
}

/// The truth value recorded under a key, if the key holds one.
pub fn lookup_bool(entries: &Vec<(String, MetaValue)>, key: &str) -> (r: Option<bool>)
    ensures
        match r {
            Some(b) => meta_lookup(entries@, key@) == Some(MetaView::Bool(b)),
            None => !(meta_lookup(entries@, key@) matches Some(MetaView::Bool(_))),
        },
{
    match lookup_meta(entries, key) {
        Some(MetaValue::Bool(b)) => Some(*b),
        _ => None,
    }
}

/// A node of the simplified syntax tree.
#[derive(Debug, PartialEq)]
pub struct ASTNode {
    pub id: crate::hash::Hash,
    pub node_type: ASTNodeType,
    pub name: Option<String>,
    pub location: NodeLocation,
    pub children: Vec<ASTNode>,
    pub metadata: Vec<(String, MetaValue)>,
}

/// The text of an optional name.
pub open spec fn name_text(name: Option<String>) -> Option<Seq<char>> {
    match name {
        Some(s) => Some(s@),
        None => None,
    }
}

/// The text that identifies a node: its type, its name or nothing, and the
/// line and column where it starts, with colons between.
pub open spec fn identity_text(kind: NodeKind, name: Option<Seq<char>>, location: NodeLocation) -> Seq<
    char,
> {
    kind_label(kind) + ":"@ + (match name {
        Some(n) => n,
        None => Seq::empty(),
    }) + ":"@ + decimal(location.start_line as nat) + ":"@ + decimal(location.start_column as nat)
}

/// The nodes of the given type among `kids[i..]` and below them, in the
/// order a depth-first walk meets them.
pub open spec fn matching_from(kids: Seq<ASTNode>, i: int, kind: NodeKind) -> Seq<ASTNode>
    decreases kids, kids.len() - i,
{
    if 0 <= i < kids.len() {
        (if kids[i].node_type@ == kind {
            seq![kids[i]]
        } else {
            Seq::empty()
        }) + matching(kids[i], kind) + matching_from(kids, i + 1, kind)
    } else {
        Seq::empty()
    }
}

/// The nodes of the given type below a node, in depth-first order.
pub open spec fn matching(node: ASTNode, kind: NodeKind) -> Seq<ASTNode>
    decreases node,
{
    matching_from(node.children@, 0, kind)
}

/// The first node with the given name among `kids[i..]` and below them, in
/// depth-first order.
pub open spec fn named_from(kids: Seq<ASTNode>, i: int, name: Seq<char>) -> Option<ASTNode>
    decreases kids, kids.len() - i,
{
    if 0 <= i < kids.len() {
        if name_text(kids[i].name) == Some(name) {
            Some(kids[i])
        } else {
            match named(kids[i], name) {
                Some(n) => Some(n),
                None => named_from(kids, i + 1, name),
            }
        }
    } else {
        None
    }
}

/// The first node with the given name below a node, in depth-first order.
pub open spec fn named(node: ASTNode, name: Seq<char>) -> Option<ASTNode>
    decreases node,
{
    named_from(node.children@, 0, name)
}

/// Two trees hold the same values, node for node.
pub open spec fn same_tree(a: ASTNode, b: ASTNode) -> bool
    decreases a,
{
    &&& a.id@ == b.id@
    &&& a.node_type@ == b.node_type@
    &&& name_text(a.name) == name_text(b.name)
    &&& a.location == b.location
    &&& meta_pairs(a.metadata@) == meta_pairs(b.metadata@)
    &&& a.children@.len() == b.children@.len()
    &&& forall|i: int|
        0 <= i < a.children@.len() ==> same_tree(#[trigger] a.children@[i], b.children@[i])
}

/// Copies the metadata of a node.
pub fn clone_metadata(entries: &Vec<(String, MetaValue)>) -> (r: Vec<(String, MetaValue)>)
    ensures
        meta_pairs(r@) == meta_pairs(entries@),
{
    let mut out: Vec<(String, MetaValue)> = Vec::new();
    let mut i: usize = 0;
    while i < entries.len()
        invariant
            i <= entries.len(),
            meta_pairs(out@) == meta_pairs(entries@).take(i as int),
        decreases entries.len() - i,
    {
        let ghost prior = meta_pairs(out@);
        let key = entries[i].0.clone();
        let value = entries[i].1.duplicate();
        out.push((key, value));
        assert(meta_pairs(out@) =~= prior.push((entries@[i as int].0@, entries@[i as int].1@)));
        assert(meta_pairs(out@) =~= meta_pairs(entries@).take(i + 1));
        i += 1;
    }
    assert(meta_pairs(entries@).take(entries@.len() as int) =~= meta_pairs(entries@));
    out
}

impl Clone for ASTNode {
    fn clone(&self) -> (r: Self)
        ensures
            same_tree(*self, r),
        decreases self,
    {
        let mut children: Vec<ASTNode> = Vec::new();
        let mut i: usize = 0;
        while i < self.children.len()
            invariant
                i <= self.children.len(),
                children@.len() == i,
                forall|k: int|
                    0 <= k < i ==> same_tree(#[trigger] self.children@[k], children@[k]),
            decreases self.children.len() - i,
        {
            let copy = self.children[i].clone();
            children.push(copy);
            i += 1;
        }
        let name = match &self.name {
            Some(n) => Some(n.clone()),
            None => None,
        };
        ASTNode {
            id: self.id.clone(),
            node_type: self.node_type.duplicate(),
            name,
            location: self.location,
            children,
            metadata: clone_metadata(&self.metadata),
        }
    }
}

/// The nodes that a sequence of references points to.
pub open spec fn pointees(refs: Seq<&ASTNode>) -> Seq<ASTNode> {
    refs.map_values(|n: &ASTNode| *n)
}

impl ASTNode {
    /// A node without children or metadata. Its id is the digest of its
    /// identity text.
    pub fn new(node_type: ASTNodeType, name: Option<String>, location: NodeLocation) -> (r: Self)
        ensures
            r.id@ == digest_hex(encode_utf8(identity_text(node_type@, name_text(name), location))),
            r.node_type == node_type,
            r.name == name,
            r.location == location,
            r.children@.len() == 0,
            r.metadata@.len() == 0,
    {
        let mut content = node_type.label();
        content.append(":");
        match &name {
            Some(n) => {
                content.append(n.as_str());
            },
            None => {
                assert(content@ + Seq::<char>::empty() =~= content@);
            },
        }
        content.append(":");
        content.append(string_of(decimal_of(location.start_line as u64).as_slice()).as_str());
        content.append(":");
        content.append(string_of(decimal_of(location.start_column as u64).as_slice()).as_str());
        let id = crate::hash::Hash::from_string(content.as_str());
        ASTNode { id, node_type, name, location, children: Vec::new(), metadata: Vec::new() }
    }

    /// Appends a child.
    pub fn add_child(&mut self, child: ASTNode)
        ensures
            final(self).children@ == old(self).children@.push(child),
            final(self).id == old(self).id,
            final(self).node_type == old(self).node_type,
            final(self).name == old(self).name,
            final(self).location == old(self).location,
            final(self).metadata == old(self).metadata,
    {
        self.children.push(child);
    }

    /// Records a value under a key, in place of what the key held before.
    pub fn add_metadata(&mut self, key: &str, value: MetaValue)
        ensures
            meta_lookup(final(self).metadata@, key@) == Some(value@),
            forall|other: Seq<char>|
                other != key@ ==> meta_lookup(final(self).metadata@, other) == meta_lookup(
                    old(self).metadata@,
                    other,
                ),
            final(self).metadata@.len() == (if meta_lookup(old(self).metadata@, key@) is Some {
                old(self).metadata@.len()
            } else {
                old(self).metadata@.len() + 1
            }),
            final(self).id == old(self).id,
            final(self).node_type == old(self).node_type,
            final(self).name == old(self).name,
            final(self).location == old(self).location,
            final(self).children == old(self).children,
    {
        upsert_meta(&mut self.metadata, key, value);
    }

    /// The value recorded under a key.
    pub fn get_metadata(&self, key: &str) -> (r: Option<&MetaValue>)
        ensures
            match r {
                Some(v) => meta_lookup(self.metadata@, key@) == Some(v@),
                None => meta_lookup(self.metadata@, key@) is None,
            },
    {
        lookup_meta(&self.metadata, key)
    }

    /// The text recorded under a key, if the key holds a text.
    pub fn get_text(&self, key: &str) -> (r: Option<String>)
        ensures
            match r {
                Some(s) => meta_lookup(self.metadata@, key@) == Some(MetaView::Text(s@)),
                None => !(meta_lookup(self.metadata@, key@) matches Some(MetaView::Text(_))),
            },
    {
        lookup_text(&self.metadata, key)
    }

    /// The list recorded under a key, if the key holds a list.
    pub fn get_list(&self, key: &str) -> (r: Option<Vec<String>>)
        ensures
            match r {
                Some(l) => meta_lookup(self.metadata@, key@) == Some(MetaView::List(texts(l@))),
                None => !(meta_lookup(self.metadata@, key@) matches Some(MetaView::List(_))),
            },
    {
        lookup_list(&self.metadata, key)
    }

    /// The truth value recorded under a key, if the key holds one.
    pub fn get_bool(&self, key: &str) -> (r: Option<bool>)
        ensures
            match r {
                Some(b) => meta_lookup(self.metadata@, key@) == Some(MetaView::Bool(b)),
                None => !(meta_lookup(self.metadata@, key@) matches Some(MetaView::Bool(_))),
            },
    {
        lookup_bool(&self.metadata, key)
    }

    /// The nodes of the given type below this one, in depth-first order.
    pub fn find_children_by_type<'a>(&'a self, node_type: &ASTNodeType) -> (r: Vec<&'a ASTNode>)
        ensures
            pointees(r@) == matching(*self, node_type@),
        decreases self,
    {
        let mut result: Vec<&'a ASTNode> = Vec::new();
        let mut i: usize = 0;
        while i < self.children.len()
            invariant
                i <= self.children.len(),
                pointees(result@) + matching_from(self.children@, i as int, node_type@)
                    == matching_from(self.children@, 0, node_type@),
            decreases self.children.len() - i,
        {
            let child = &self.children[i];
            let ghost prior = pointees(result@);
            let ghost rest = matching_from(self.children@, i + 1, node_type@);
            if child.node_type.same(node_type) {
                result.push(child);
            }
            let ghost mid = pointees(result@);
            let mut below = child.find_children_by_type(node_type);
            result.append(&mut below);
            proof {
                let head = if child.node_type@ == node_type@ {
                    seq![*child]
                } else {
                    Seq::<ASTNode>::empty()
                };
                assert(mid =~= prior + head);
                assert(pointees(result@) =~= mid + matching(*child, node_type@));
                assert(pointees(result@) + rest =~= prior + (head + matching(*child, node_type@)
                    + rest));
            }
            i += 1;
        }
        assert(pointees(result@) + Seq::<ASTNode>::empty() =~= pointees(result@));
        result
    }

    /// The first node with the given name below this one, in depth-first order.
    pub fn find_child_by_name<'a>(&'a self, name: &str) -> (r: Option<&'a ASTNode>)
        ensures
            match r {
                Some(n) => named(*self, name@) == Some(*n),
                None => named(*self, name@) is None,
            },
        decreases self,
    {
        let mut i: usize = 0;
        while i < self.children.len()
            invariant
                i <= self.children.len(),
                named_from(self.children@, i as int, name@) == named_from(self.children@, 0, name@),
            decreases self.children.len() - i,
        {
            let child = &self.children[i];
            let is_named = match &child.name {
                Some(n) => crate::text::str_eq(n.as_str(), name),
                None => false,
            };
            if is_named {
                return Some(child);
            }
            match child.find_child_by_name(name) {
                Some(found) => {
                    return Some(found);
                },
                None => {},
            }
            i += 1;
        }
        None
    }

    /// The source text that the node spans, or nothing where its byte range
    /// does not lie within the source on character boundaries.
    pub fn get_text_content<'a>(&self, source: &'a str) -> (r: &'a str)
        ensures
            r@ == (if self.location.start_byte < encode_utf8(source@).len() {
                match span_text(
                    source@,
                    self.location.start_byte as int,
                    self.location.end_byte as int,
                ) {
                    Some(t) => t,
                    None => Seq::empty(),
                }
            } else {
                Seq::empty()
            }),
    {
        let start = self.location.start_byte as usize;
        let end = self.location.end_byte as usize;
        if start < source.as_bytes().len() {
            match byte_span(source, start, end) {
                Some(t) => {
                    return t;
                },
                None => {},
            }
        }
        let nothing = byte_span(source, 0, 0);
        proof {
            assert(encode_utf8(source@).subrange(0, 0) =~= Seq::<u8>::empty());
            assert(vstd::utf8::decode_utf8(Seq::<u8>::empty()) =~= Seq::<char>::empty());
        }
        nothing.unwrap()
    }

    /// Whether the node declares something.
    pub fn is_declaration(&self) -> (r: bool)
        ensures
            r == (self.node_type is ClassDeclaration || self.node_type is FunctionDeclaration
                || self.node_type is MethodDeclaration || self.node_type is VariableDeclaration
                || self.node_type is TypeDeclaration || self.node_type is InterfaceDeclaration
                || self.node_type is EnumDeclaration),
    {
        match self.node_type {
            ASTNodeType::ClassDeclaration
            | ASTNodeType::FunctionDeclaration
            | ASTNodeType::MethodDeclaration
            | ASTNodeType::VariableDeclaration
            | ASTNodeType::TypeDeclaration
            | ASTNodeType::InterfaceDeclaration
            | ASTNodeType::EnumDeclaration => true,
            _ => false,
        }
    }

    /// Whether the node is an expression.
    pub fn is_expression(&self) -> (r: bool)
        ensures
            r == (self.node_type is CallExpression || self.node_type is MemberExpression
                || self.node_type is Identifier || self.node_type is Literal
                || self.node_type is AssignmentExpression || self.node_type is BinaryExpression
                || self.node_type is UnaryExpression),
    {
        match self.node_type {
            ASTNodeType::CallExpression
            | ASTNodeType::MemberExpression
            | ASTNodeType::Identifier
            | ASTNodeType::Literal
            | ASTNodeType::AssignmentExpression
            | ASTNodeType::BinaryExpression
            | ASTNodeType::UnaryExpression => true,
            _ => false,
        }
    }
}

} // verus!
