//! The Merkle tree over file paths: a builder that keeps `(path, bytes)` pairs
//! in path order, the root computed from the leaf digests, and the diff of two
//! trees.

use vstd::prelude::*;
use vstd::string::*;
use vstd::utf8::encode_utf8;
use crate::hash::{digest_hex, digest_of, is_digest_text};
use crate::keyed::{
    as_map, has_key, keys_sorted, lemma_as_map_at, lemma_insert_new_key, lemma_replace_value,
    lemma_sorted_unique,
};
use crate::text::{
    chars_of, less_than, texts, lemma_text_lt_asymmetric, lemma_text_lt_irreflexive, lemma_text_lt_total,
    lemma_text_lt_transitive, same_text, text_lt,
};

verus! {

/// The UTF-8 bytes of the digests `level[from..to]`, one after the other.
pub open spec fn group_bytes(level: Seq<Seq<char>>, from: int, to: int) -> Seq<u8>
    decreases to - from,
{
    if from >= to {
        Seq::empty()
    } else {
        group_bytes(level, from, to - 1) + encode_utf8(level[to - 1])
    }
}

/// Where the group that starts at `from` ends: `fanout` digests further, or
/// at the end of the level.
pub open spec fn group_end(len: int, fanout: int, from: int) -> int {
    if len - from > fanout {
        from + fanout
    } else {
        len
    }
}

/// The level above `level[from..]`: one digest per group of up to `fanout`
/// consecutive digests, each the digest of the group's concatenated hex text.
pub open spec fn next_level(level: Seq<Seq<char>>, fanout: int, from: int) -> Seq<Seq<char>>
    decreases level.len() - from,
{
    if from < 0 || from >= level.len() || fanout < 1 {
        Seq::empty()
    } else {
        let to = group_end(level.len() as int, fanout, from);
        seq![digest_hex(group_bytes(level, from, to))] + next_level(level, fanout, to)
    }
}

/// A level of two or more digests collapses to a strictly shorter one.
pub proof fn lemma_next_level_len(level: Seq<Seq<char>>, fanout: int, from: int)
    requires
        fanout >= 2,
        0 <= from <= level.len(),
    ensures
        next_level(level, fanout, from).len() <= level.len() - from,
        level.len() - from >= 1 ==> next_level(level, fanout, from).len() >= 1,
        level.len() - from >= 2 ==> next_level(level, fanout, from).len() < level.len() - from,
    decreases level.len() - from,
{
    if from < level.len() {
        let to = group_end(level.len() as int, fanout, from);
        lemma_next_level_len(level, fanout, to);
    }
}

/// The root over a sequence of leaf digests: the digest of nothing when there
/// are no leaves, else the one digest left after collapsing level by level.
pub open spec fn merkle_root(level: Seq<Seq<char>>, fanout: int) -> Seq<char>
    decreases level.len(),
{
    if level.len() == 0 {
        digest_hex(Seq::empty())
    } else if level.len() == 1 || fanout < 2 {
        level[0]
    } else {
        proof {
            lemma_next_level_len(level, fanout, 0);
        }
        merkle_root(next_level(level, fanout, 0), fanout)
    }
}

/// The leaf list of a set of entries: each path with the digest of its bytes.
pub open spec fn leaves_of(entries: Seq<(Seq<char>, Seq<u8>)>) -> Seq<(Seq<char>, Seq<char>)> {
    entries.map_values(|e: (Seq<char>, Seq<u8>)| (e.0, digest_hex(e.1)))
}

/// The digests of a leaf list, in order.
pub open spec fn digests_of(leaves: Seq<(Seq<char>, Seq<char>)>) -> Seq<Seq<char>> {
    leaves.map_values(|l: (Seq<char>, Seq<char>)| l.1)
}

/// The paths that a linear merge of two leaf lists reports, from positions
/// `i` and `j` on: each path that only one side holds, and each path that
/// both hold with different digests, in merge order.
pub open spec fn merge_changes(
    a: Seq<(Seq<char>, Seq<char>)>,
    b: Seq<(Seq<char>, Seq<char>)>,
    i: int,
    j: int,
) -> Seq<Seq<char>>
    decreases a.len() - i + b.len() - j,
{
    if i < 0 || j < 0 || i > a.len() || j > b.len() {
        Seq::empty()
    } else if i == a.len() && j == b.len() {
        Seq::empty()
    } else if i == a.len() {
        seq![b[j].0] + merge_changes(a, b, i, j + 1)
    } else if j == b.len() {
        seq![a[i].0] + merge_changes(a, b, i + 1, j)
    } else if a[i].0 == b[j].0 {
        if a[i].1 != b[j].1 {
            seq![a[i].0] + merge_changes(a, b, i + 1, j + 1)
        } else {
            merge_changes(a, b, i + 1, j + 1)
        }
    } else if text_lt(a[i].0, b[j].0) {
        seq![a[i].0] + merge_changes(a, b, i + 1, j)
    } else {
        seq![b[j].0] + merge_changes(a, b, i, j + 1)
    }
}

struct Entry {
    path: String,
    bytes: Vec<u8>,
}

struct Leaf {
    path: String,
    digest: String,
}

/// Accumulates `(path, bytes)` pairs, one per path, in path order.
pub struct MerkleBuilder {
    fanout: usize,
    entries: Vec<Entry>,
}

/// The leaves of a built tree, sorted by path, and its root digest.
pub struct MerkleTree {
    fanout: usize,
    leaves: Vec<Leaf>,
    root: String,
}

/// The paths in which two trees differ.
#[derive(Debug, Clone, PartialEq, Eq)]
pub struct Diff {
    pub changed_paths: Vec<String>,
}

impl View for MerkleBuilder {
    type V = Map<Seq<char>, Seq<u8>>;

    /// The bytes recorded for each path.
    closed spec fn view(&self) -> Map<Seq<char>, Seq<u8>> {
        as_map(self.entry_seq())
    }
}

impl MerkleBuilder {
    /// The entries as `(path, bytes)` pairs, in the order they are kept.
    pub closed spec fn entry_seq(self) -> Seq<(Seq<char>, Seq<u8>)> {
        self.entries@.map_values(|e: Entry| (e.path@, e.bytes@))
    }

    /// The fanout in force.
    pub closed spec fn fanout_value(self) -> int {
        self.fanout as int
    }

    /// A builder is valid when its fanout is at least two and its entries
    /// stand in strictly increasing path order.
    pub closed spec fn wf(self) -> bool {
        &&& self.fanout >= 2
        &&& keys_sorted(self.entry_seq())
    }

    /// The leaf list that `build` produces.
    pub open spec fn built_leaves(self) -> Seq<(Seq<char>, Seq<char>)> {
        leaves_of(self.entry_seq())
    }

    /// The root that `build` produces.
    pub open spec fn built_root(self) -> Seq<char> {
        merkle_root(digests_of(self.built_leaves()), self.fanout_value())
    }

    /// An empty builder with fanout 2.
    pub fn new() -> (r: Self)
        ensures
            r@ == Map::<Seq<char>, Seq<u8>>::empty(),
            r.fanout_value() == 2,
            r.wf(),
    {
        let r = MerkleBuilder { fanout: 2, entries: Vec::new() };
        assert(r@ =~= Map::<Seq<char>, Seq<u8>>::empty()) by {
            assert forall|k: Seq<char>| !has_key(r.entry_seq(), k) by {}
        }
        r
    }

    /// Sets the fanout if it is at least two, else leaves it as it was.
    pub fn fanout(self, fanout: usize) -> (r: Self)
        requires
            self.wf(),
        ensures
            r@ == self@,
            r.entry_seq() == self.entry_seq(),
            r.fanout_value() == (if fanout >= 2 { fanout as int } else { self.fanout_value() }),
            r.wf(),
    {
        if fanout >= 2 {
            MerkleBuilder { fanout, entries: self.entries }
        } else {
            self
        }
    }

    /// Records `bytes` under `path`, in place of what the path held before.
    pub fn add(&mut self, path: &str, bytes: &[u8])
        requires
            old(self).wf(),
        ensures
            final(self)@ == old(self)@.insert(path@, bytes@),
            final(self).fanout_value() == old(self).fanout_value(),
            final(self).wf(),
    {
        let key = chars_of(path);
        let ghost before = self.entry_seq();
        let mut k: usize = 0;
        let mut found: bool = false;
        while k < self.entries.len()
            invariant_except_break
                !found,
            invariant
                k <= self.entries.len(),
                key@ == path@,
                self.entry_seq() == before,
                *self == *old(self),
                keys_sorted(before),
                forall|i: int| 0 <= i < k ==> text_lt((#[trigger] before[i]).0, key@),
            ensures
                k <= self.entries.len(),
                key@ == path@,
                self.entry_seq() == before,
                *self == *old(self),
                forall|i: int| 0 <= i < k ==> text_lt((#[trigger] before[i]).0, key@),
                found ==> k < self.entries.len() && before[k as int].0 == key@,
                !found ==> forall|i: int|
                    k <= i < before.len() ==> text_lt(key@, (#[trigger] before[i]).0),
            decreases self.entries.len() - k,
        {
            let here = chars_of(self.entries[k].path.as_str());
            assert(here@ == before[k as int].0);
            if same_text(here.as_slice(), key.as_slice()) {
                found = true;
                break;
            }
            if !less_than(here.as_slice(), key.as_slice()) {
                proof {
                    lemma_text_lt_total(here@, key@);
                    assert forall|i: int| k <= i < before.len() implies text_lt(
                        key@,
                        (#[trigger] before[i]).0,
                    ) by {
                        if k < i {
                            assert(text_lt(before[k as int].0, before[i].0));
                            lemma_text_lt_transitive(key@, before[k as int].0, before[i].0);
                        }
                    }
                }
                break;
            }
            k += 1;
        }
        let entry = Entry { path: path.to_owned(), bytes: slice_to_vec(bytes) };
        if found {
            proof {
                lemma_replace_value(before, k as int, bytes@);
                assert(self.entries@.update(k as int, entry).map_values(
                    |e: Entry| (e.path@, e.bytes@),
                ) =~= before.update(k as int, (before[k as int].0, bytes@)));
            }
            self.entries.set(k, entry);
        } else {
            proof {
                lemma_insert_new_key(before, k as int, path@, bytes@);
                assert(self.entries@.insert(k as int, entry).map_values(
                    |e: Entry| (e.path@, e.bytes@),
                ) =~= before.insert(k as int, (path@, bytes@)));
            }
            self.entries.insert(k, entry);
        }
    }

    /// Builds the tree: the leaves in path order, each with the digest of its
    /// bytes, and the root over the leaf digests.
    pub fn build(self) -> (tree: MerkleTree)
        requires
            self.wf(),
        ensures
            tree.leaf_seq() == self.built_leaves(),
            tree.root_text() == self.built_root(),
            is_digest_text(tree.root_text()),
            tree.wf(),
    {
        let mut leaves: Vec<Leaf> = Vec::new();
        let mut digests: Vec<String> = Vec::new();
        let mut i: usize = 0;
        while i < self.entries.len()
            invariant
                i <= self.entries.len(),
                leaves.len() == i,
                digests.len() == i,
                forall|x: int|
                    0 <= x < i ==> (#[trigger] leaves@[x]).path@ == self.entries@[x].path@
                        && leaves@[x].digest@ == digest_hex(self.entries@[x].bytes@),
                forall|x: int|
                    0 <= x < i ==> (#[trigger] digests@[x])@ == digest_hex(self.entries@[x].bytes@),
                forall|x: int| 0 <= x < i ==> is_digest_text(#[trigger] digests@[x]@),
            decreases self.entries.len() - i,
        {
            let d = digest_of(self.entries[i].bytes.as_slice());
            digests.push(d.clone());
            leaves.push(Leaf { path: self.entries[i].path.clone(), digest: d });
            i += 1;
        }
        let ghost leaf_view = leaves@.map_values(|l: Leaf| (l.path@, l.digest@));
        assert(leaf_view =~= self.built_leaves());
        assert(texts(digests@) =~= digests_of(self.built_leaves()));
        assert(keys_sorted(leaf_view)) by {
            assert forall|x: int, y: int| 0 <= x < y < leaf_view.len() implies text_lt(
                #[trigger] leaf_view[x].0,
                #[trigger] leaf_view[y].0,
            ) by {
                assert(leaf_view[x].0 == self.entry_seq()[x].0);
                assert(leaf_view[y].0 == self.entry_seq()[y].0);
            }
        }
        let root = compute_root(self.fanout, &digests);
        MerkleTree { fanout: self.fanout, leaves, root }
    }
}

/// Copies a slice of bytes into a vector.
fn slice_to_vec(bytes: &[u8]) -> (r: Vec<u8>)
    ensures
        r@ == bytes@,
{
    let mut out: Vec<u8> = Vec::new();
    out.extend_from_slice(bytes);
    out
}

/// Collapses one level into the next.
fn collapse_level(level: &Vec<String>, fanout: usize) -> (next: Vec<String>)
    requires
        fanout >= 2,
    ensures
        texts(next@) == next_level(texts(level@), fanout as int, 0),
        forall|i: int| 0 <= i < next@.len() ==> is_digest_text(#[trigger] next@[i]@),
{
    let ghost model = texts(level@);
    let mut next: Vec<String> = Vec::new();
    let mut from: usize = 0;
    while from < level.len()
        invariant
            from <= level.len(),
            fanout >= 2,
            model == texts(level@),
            texts(next@) + next_level(model, fanout as int, from as int) == next_level(
                model,
                fanout as int,
                0,
            ),
            forall|i: int| 0 <= i < next@.len() ==> is_digest_text(#[trigger] next@[i]@),
        decreases level.len() - from,
    {
        let to: usize = if level.len() - from > fanout {
            from + fanout
        } else {
            level.len()
        };
        let mut buf: Vec<u8> = Vec::new();
        let mut k: usize = from;
        while k < to
            invariant
                from <= k <= to <= level.len(),
                model == texts(level@),
                buf@ == group_bytes(model, from as int, k as int),
            decreases to - k,
        {
            let piece = level[k].as_str().as_bytes();
            assert(piece@ == encode_utf8(model[k as int]));
            buf.extend_from_slice(piece);
            k += 1;
        }
        let d = digest_of(buf.as_slice());
        proof {
            let rest = next_level(model, fanout as int, to as int);
            assert(texts(next@.push(d)) =~= texts(next@).push(d@));
            assert(texts(next@).push(d@) + rest =~= texts(next@) + (seq![d@] + rest));
        }
        next.push(d);
        from = to;
    }
    assert(texts(next@) + Seq::<Seq<char>>::empty() =~= texts(next@));
    next
}

/// The root over the given leaf digests.
fn compute_root(fanout: usize, items: &Vec<String>) -> (r: String)
    requires
        fanout >= 2,
        forall|i: int| 0 <= i < items@.len() ==> is_digest_text(#[trigger] items@[i]@),
    ensures
        r@ == merkle_root(texts(items@), fanout as int),
        is_digest_text(r@),
{
    if items.len() == 0 {
        let nothing: Vec<u8> = Vec::new();
        assert(nothing@ =~= Seq::<u8>::empty());
        return digest_of(nothing.as_slice());
    }
    if items.len() == 1 {
        return items[0].clone();
    }
    let mut level: Vec<String> = collapse_level(items, fanout);
    proof {
        lemma_next_level_len(texts(items@), fanout as int, 0);
    }
    while level.len() > 1
        invariant
            fanout >= 2,
            level.len() >= 1,
            merkle_root(texts(items@), fanout as int) == merkle_root(texts(level@), fanout as int),
            forall|i: int| 0 <= i < level@.len() ==> is_digest_text(#[trigger] level@[i]@),
        decreases level.len(),
    {
        proof {
            lemma_next_level_len(texts(level@), fanout as int, 0);
        }
        level = collapse_level(&level, fanout);
    }
    level[0].clone()
}

impl MerkleTree {
    /// The leaves as `(path, digest)` pairs, in path order.
    pub closed spec fn leaf_seq(self) -> Seq<(Seq<char>, Seq<char>)> {
        self.leaves@.map_values(|l: Leaf| (l.path@, l.digest@))
    }

    /// The root digest as text.
    pub closed spec fn root_text(self) -> Seq<char> {
        self.root@
    }

    /// A tree is valid when its leaves stand in strictly increasing path order.
    pub closed spec fn wf(self) -> bool {
        keys_sorted(self.leaf_seq())
    }

    /// The invariant of the type: the root has the shape of a digest.
    /// `build` establishes it and `root` hands it on.
    #[verifier::type_invariant]
    spec fn root_is_digest(self) -> bool {
        is_digest_text(self.root@)
    }

    /// The root digest: 64 lowercase hex characters.
    pub fn root(&self) -> (r: String)
        ensures
            r@ == self.root_text(),
            is_digest_text(r@),
    {
        proof {
            use_type_invariant(self);
        }
        self.root.clone()
    }

    /// The number of leaves.
    pub fn leaf_count(&self) -> (n: usize)
        ensures
            n == self.leaf_seq().len(),
    {
        self.leaves.len()
    }

    /// The paths in which this tree and `other` differ, in merge order.
    pub fn diff(&self, other: &MerkleTree) -> (d: Diff)
        ensures
            texts(d.changed_paths@) == merge_changes(self.leaf_seq(), other.leaf_seq(), 0, 0),
    {
        let ghost a = self.leaf_seq();
        let ghost b = other.leaf_seq();
        let mut changed: Vec<String> = Vec::new();
        let mut i: usize = 0;
        let mut j: usize = 0;
        while i < self.leaves.len() || j < other.leaves.len()
            invariant
                i <= self.leaves.len(),
                j <= other.leaves.len(),
                a == self.leaf_seq(),
                b == other.leaf_seq(),
                texts(changed@) + merge_changes(a, b, i as int, j as int) == merge_changes(
                    a,
                    b,
                    0,
                    0,
                ),
            decreases self.leaves.len() - i + other.leaves.len() - j,
        {
            let ghost rest_before = merge_changes(a, b, i as int, j as int);
            let ghost prior = texts(changed@);
            if i == self.leaves.len() {
                changed.push(other.leaves[j].path.clone());
                j += 1;
            } else if j == other.leaves.len() {
                changed.push(self.leaves[i].path.clone());
                i += 1;
            } else {
                let p1 = chars_of(self.leaves[i].path.as_str());
                let p2 = chars_of(other.leaves[j].path.as_str());
                assert(p1@ == a[i as int].0 && p2@ == b[j as int].0);
                if same_text(p1.as_slice(), p2.as_slice()) {
                    let same_digest = self.leaves[i].digest == other.leaves[j].digest;
                    assert(same_digest == (a[i as int].1 == b[j as int].1));
                    if !same_digest {
                        changed.push(self.leaves[i].path.clone());
                    }
                    i += 1;
                    j += 1;
                } else if less_than(p1.as_slice(), p2.as_slice()) {
                    changed.push(self.leaves[i].path.clone());
                    i += 1;
                } else {
                    changed.push(other.leaves[j].path.clone());
                    j += 1;
                }
            }
            proof {
                let rest_after = merge_changes(a, b, i as int, j as int);
                if changed@.len() > prior.len() {
                    let p = changed@.last()@;
                    assert(texts(changed@) =~= prior.push(p));
                    assert(rest_before == seq![p] + rest_after);
                    assert(prior.push(p) + rest_after =~= prior + (seq![p] + rest_after));
                } else {
                    assert(texts(changed@) =~= prior);
                }
            }
        }
        assert(texts(changed@) + Seq::<Seq<char>>::empty() =~= texts(changed@));
        Diff { changed_paths: changed }
    }
}


/// The map that a run of `add` calls leaves, starting from `m`.
pub open spec fn after_adds(m: Map<Seq<char>, Seq<u8>>, pairs: Seq<(Seq<char>, Seq<u8>)>) -> Map<
    Seq<char>,
    Seq<u8>,
>
    decreases pairs.len(),
{
    if pairs.len() == 0 {
        m
    } else {
        after_adds(m, pairs.drop_last()).insert(pairs.last().0, pairs.last().1)
    }
}

/// No path occurs twice among the pairs.
pub open spec fn distinct_paths(pairs: Seq<(Seq<char>, Seq<u8>)>) -> bool {
    forall|i: int, j: int|
        0 <= i < j < pairs.len() ==> (#[trigger] pairs[i]).0 != (#[trigger] pairs[j]).0
}

/// After adding pairs with distinct paths to an empty builder, the map holds
/// exactly those pairs.
pub proof fn lemma_after_adds_holds_pairs(pairs: Seq<(Seq<char>, Seq<u8>)>)
    requires
        distinct_paths(pairs),
    ensures
        forall|k: Seq<char>|
            after_adds(Map::empty(), pairs).dom().contains(k) <==> exists|i: int|
                0 <= i < pairs.len() && (#[trigger] pairs[i]).0 == k,
        forall|i: int|
            0 <= i < pairs.len() ==> after_adds(Map::empty(), pairs)[(#[trigger] pairs[i]).0]
                == pairs[i].1,
    decreases pairs.len(),
{
    if pairs.len() > 0 {
        let front = pairs.drop_last();
        let n = pairs.len() - 1;
        assert forall|i: int, j: int| 0 <= i < j < front.len() implies (#[trigger] front[i]).0 != (
        #[trigger] front[j]).0 by {
            assert(front[i] == pairs[i] && front[j] == pairs[j]);
        }
        lemma_after_adds_holds_pairs(front);
        let m0 = after_adds(Map::empty(), front);
        let m1 = after_adds(Map::empty(), pairs);
        assert forall|k: Seq<char>| m1.dom().contains(k) <==> exists|i: int|
            0 <= i < pairs.len() && (#[trigger] pairs[i]).0 == k by {
            if m1.dom().contains(k) {
                if k == pairs[n].0 {
                } else {
                    assert(m0.dom().contains(k));
                    let i = choose|i: int| 0 <= i < front.len() && (#[trigger] front[i]).0 == k;
                    assert(pairs[i].0 == k);
                }
            }
            if exists|i: int| 0 <= i < pairs.len() && (#[trigger] pairs[i]).0 == k {
                let i = choose|i: int| 0 <= i < pairs.len() && (#[trigger] pairs[i]).0 == k;
                if i < n {
                    assert(front[i].0 == k);
                }
            }
        }
        assert forall|i: int| 0 <= i < pairs.len() implies m1[(#[trigger] pairs[i]).0]
            == pairs[i].1 by {
            if i < n {
                assert(front[i] == pairs[i]);
                assert(pairs[i].0 != pairs[n].0);
            }
        }
    }
}

/// Merkle determinism, over the order of insertion: two runs of `add` on an
/// empty builder that insert the same pairs, each path once, in whatever
/// order, leave the same map.
pub proof fn lemma_adds_in_any_order(
    first: Seq<(Seq<char>, Seq<u8>)>,
    second: Seq<(Seq<char>, Seq<u8>)>,
)
    requires
        distinct_paths(first),
        distinct_paths(second),
        first.to_set() == second.to_set(),
    ensures
        after_adds(Map::empty(), first) == after_adds(Map::empty(), second),
{
    lemma_after_adds_holds_pairs(first);
    lemma_after_adds_holds_pairs(second);
    let m1 = after_adds(Map::empty(), first);
    let m2 = after_adds(Map::empty(), second);
    assert forall|k: Seq<char>| m1.dom().contains(k) implies m2.dom().contains(k) && m1[k]
        == m2[k] by {
        let i = choose|i: int| 0 <= i < first.len() && (#[trigger] first[i]).0 == k;
        assert(first.to_set().contains(first[i]));
        assert(second.contains(first[i]));
        let j = choose|j: int| 0 <= j < second.len() && second[j] == first[i];
        assert(second[j].0 == k);
    }
    assert forall|k: Seq<char>| m2.dom().contains(k) implies m1.dom().contains(k) by {
        let i = choose|i: int| 0 <= i < second.len() && (#[trigger] second[i]).0 == k;
        assert(second.to_set().contains(second[i]));
        assert(first.contains(second[i]));
        let j = choose|j: int| 0 <= j < first.len() && first[j] == second[i];
        assert(first[j].0 == k);
    }
    assert(m1 =~= m2);
}

/// What a valid builder keeps: its entries stand in path order and stand
/// for the map of the builder.
pub proof fn lemma_entries_stand_for_view(b: MerkleBuilder)
    requires
        b.wf(),
    ensures
        keys_sorted(b.entry_seq()),
        as_map(b.entry_seq()) == b@,
        b.fanout_value() >= 2,
{
}

/// Merkle determinism, over the builder: two valid builders that hold the
/// same bytes under the same paths, with the same fanout, build the same
/// leaves and the same root.
pub proof fn lemma_build_is_deterministic(b1: MerkleBuilder, b2: MerkleBuilder)
    requires
        b1.wf(),
        b2.wf(),
        b1@ == b2@,
        b1.fanout_value() == b2.fanout_value(),
    ensures
        b1.built_leaves() == b2.built_leaves(),
        b1.built_root() == b2.built_root(),
{
    lemma_sorted_unique(b1.entry_seq(), b2.entry_seq());
}

/// The path `p` stands in `s` at or after position `i`.
pub open spec fn key_from<V>(s: Seq<(Seq<char>, V)>, p: Seq<char>, i: int) -> bool {
    exists|x: int| i <= x < s.len() && (#[trigger] s[x]).0 == p
}

/// A position at or after `i` where `p` stands.
pub open spec fn position_from<V>(s: Seq<(Seq<char>, V)>, p: Seq<char>, i: int) -> int {
    choose|x: int| i <= x < s.len() && (#[trigger] s[x]).0 == p
}

/// The value paired with `p` at or after position `i`.
pub open spec fn value_from<V>(s: Seq<(Seq<char>, V)>, p: Seq<char>, i: int) -> V {
    s[position_from(s, p, i)].1
}

/// Two leaf lists differ in `p`, looking from positions `i` and `j` on.
pub open spec fn differs_from(
    a: Seq<(Seq<char>, Seq<char>)>,
    b: Seq<(Seq<char>, Seq<char>)>,
    p: Seq<char>,
    i: int,
    j: int,
) -> bool {
    ||| key_from(a, p, i) && !key_from(b, p, j)
    ||| !key_from(a, p, i) && key_from(b, p, j)
    ||| key_from(a, p, i) && key_from(b, p, j) && value_from(a, p, i) != value_from(b, p, j)
}

/// Two leaf lists differ in `p`: one side alone holds it, or both hold it
/// with different digests.
pub open spec fn differs_in(
    a: Seq<(Seq<char>, Seq<char>)>,
    b: Seq<(Seq<char>, Seq<char>)>,
    p: Seq<char>,
) -> bool {
    ||| has_key(a, p) && !has_key(b, p)
    ||| !has_key(a, p) && has_key(b, p)
    ||| has_key(a, p) && has_key(b, p) && as_map(a)[p] != as_map(b)[p]
}

proof fn lemma_value_from<V>(s: Seq<(Seq<char>, V)>, p: Seq<char>, i: int, x: int)
    requires
        keys_sorted(s),
        0 <= i <= x < s.len(),
        s[x].0 == p,
    ensures
        key_from(s, p, i),
        value_from(s, p, i) == s[x].1,
{
    assert(key_from(s, p, i));
    let y = position_from(s, p, i);
    crate::keyed::lemma_key_position_unique(s, x, y);
}

proof fn lemma_key_from_step<V>(s: Seq<(Seq<char>, V)>, p: Seq<char>, i: int)
    requires
        keys_sorted(s),
        0 <= i < s.len(),
    ensures
        s[i].0 == p ==> key_from(s, p, i) && !key_from(s, p, i + 1) && value_from(s, p, i)
            == s[i].1,
        s[i].0 != p ==> key_from(s, p, i) == key_from(s, p, i + 1),
        s[i].0 != p && key_from(s, p, i + 1) ==> value_from(s, p, i) == value_from(s, p, i + 1),
{
    if s[i].0 == p {
        lemma_value_from(s, p, i, i);
        if key_from(s, p, i + 1) {
            let y = position_from(s, p, i + 1);
            crate::keyed::lemma_key_position_unique(s, i, y);
        }
    } else {
        if key_from(s, p, i) {
            let y = position_from(s, p, i);
            assert(i + 1 <= y);
        }
        if key_from(s, p, i + 1) {
            let y = position_from(s, p, i + 1);
            lemma_value_from(s, p, i, y);
            lemma_value_from(s, p, i + 1, y);
        }
    }
}

proof fn lemma_key_from_beyond<V>(s: Seq<(Seq<char>, V)>, p: Seq<char>, j: int)
    requires
        keys_sorted(s),
        0 <= j < s.len(),
        text_lt(p, s[j].0),
    ensures
        !key_from(s, p, j),
{
    if key_from(s, p, j) {
        let y = position_from(s, p, j);
        if y == j {
            lemma_text_lt_irreflexive(p);
        } else {
            assert(text_lt(s[j].0, s[y].0));
            lemma_text_lt_asymmetric(p, s[j].0);
        }
    }
}

proof fn lemma_head_contains(x: Seq<char>, rest: Seq<Seq<char>>, p: Seq<char>)
    ensures
        (seq![x] + rest).contains(p) <==> (x == p || rest.contains(p)),
{
    let all = seq![x] + rest;
    if all.contains(p) {
        let k = choose|k: int| 0 <= k < all.len() && all[k] == p;
        if k > 0 {
            assert(rest[k - 1] == p);
        }
    }
    if x == p {
        assert(all[0] == p);
    }
    if rest.contains(p) {
        let k = choose|k: int| 0 <= k < rest.len() && rest[k] == p;
        assert(all[k + 1] == p);
    }
}

/// The merge from positions `i` and `j` reports exactly the paths in which
/// the two lists differ from there on.
pub proof fn lemma_merge_changes_from(
    a: Seq<(Seq<char>, Seq<char>)>,
    b: Seq<(Seq<char>, Seq<char>)>,
    i: int,
    j: int,
    p: Seq<char>,
)
    requires
        keys_sorted(a),
        keys_sorted(b),
        0 <= i <= a.len(),
        0 <= j <= b.len(),
    ensures
        merge_changes(a, b, i, j).contains(p) <==> differs_from(a, b, p, i, j),
    decreases a.len() - i + b.len() - j,
{
    if i == a.len() && j == b.len() {
    } else if i == a.len() {
        lemma_merge_changes_from(a, b, i, j + 1, p);
        lemma_key_from_step(b, p, j);
        lemma_head_contains(b[j].0, merge_changes(a, b, i, j + 1), p);
    } else if j == b.len() {
        lemma_merge_changes_from(a, b, i + 1, j, p);
        lemma_key_from_step(a, p, i);
        lemma_head_contains(a[i].0, merge_changes(a, b, i + 1, j), p);
    } else if a[i].0 == b[j].0 {
        lemma_merge_changes_from(a, b, i + 1, j + 1, p);
        lemma_key_from_step(a, p, i);
        lemma_key_from_step(b, p, j);
        lemma_head_contains(a[i].0, merge_changes(a, b, i + 1, j + 1), p);
    } else if text_lt(a[i].0, b[j].0) {
        lemma_merge_changes_from(a, b, i + 1, j, p);
        lemma_key_from_step(a, p, i);
        lemma_head_contains(a[i].0, merge_changes(a, b, i + 1, j), p);
        if a[i].0 == p {
            lemma_key_from_beyond(b, p, j);
        }
    } else {
        lemma_text_lt_total(a[i].0, b[j].0);
        lemma_merge_changes_from(a, b, i, j + 1, p);
        lemma_key_from_step(b, p, j);
        lemma_head_contains(b[j].0, merge_changes(a, b, i, j + 1), p);
        if b[j].0 == p {
            lemma_key_from_beyond(a, p, i);
        }
    }
}

/// What `diff` reports, as a set: the paths that one tree alone holds, and
/// the paths that both hold with different digests.
pub proof fn lemma_diff_reports_differences(t1: MerkleTree, t2: MerkleTree, p: Seq<char>)
    requires
        t1.wf(),
        t2.wf(),
    ensures
        merge_changes(t1.leaf_seq(), t2.leaf_seq(), 0, 0).contains(p) <==> differs_in(
            t1.leaf_seq(),
            t2.leaf_seq(),
            p,
        ),
{
    let a = t1.leaf_seq();
    let b = t2.leaf_seq();
    lemma_merge_changes_from(a, b, 0, 0, p);
    if has_key(a, p) {
        let x = crate::keyed::index_of_key(a, p);
        lemma_value_from(a, p, 0, x);
        lemma_as_map_at(a, x);
    }
    if has_key(b, p) {
        let x = crate::keyed::index_of_key(b, p);
        lemma_value_from(b, p, 0, x);
        lemma_as_map_at(b, x);
    }
    if key_from(a, p, 0) {
        let x = position_from(a, p, 0);
        assert(a[x].0 == p);
        assert(has_key(a, p));
    }
    if key_from(b, p, 0) {
        let x = position_from(b, p, 0);
        assert(b[x].0 == p);
        assert(has_key(b, p));
    }
}

/// Merkle sensitivity: a path that two builders both hold, with bytes whose
/// digests differ, is among the changed paths of the trees they build.
pub proof fn lemma_changed_bytes_are_reported(b1: MerkleBuilder, b2: MerkleBuilder, p: Seq<char>)
    requires
        b1.wf(),
        b2.wf(),
        b1@.dom().contains(p),
        b2@.dom().contains(p),
        digest_hex(b1@[p]) != digest_hex(b2@[p]),
    ensures
        merge_changes(b1.built_leaves(), b2.built_leaves(), 0, 0).contains(p),
{
    let e1 = b1.entry_seq();
    let e2 = b2.entry_seq();
    let a = b1.built_leaves();
    let b = b2.built_leaves();
    lemma_leaves_sorted(e1);
    lemma_leaves_sorted(e2);
    let x = crate::keyed::index_of_key(e1, p);
    let y = crate::keyed::index_of_key(e2, p);
    lemma_as_map_at(e1, x);
    lemma_as_map_at(e2, y);
    assert(a[x].0 == p && b[y].0 == p);
    lemma_value_from(a, p, 0, x);
    lemma_value_from(b, p, 0, y);
    lemma_merge_changes_from(a, b, 0, 0, p);
}

/// The leaf list keeps the path order of the entries.
pub proof fn lemma_leaves_sorted(entries: Seq<(Seq<char>, Seq<u8>)>)
    requires
        keys_sorted(entries),
    ensures
        keys_sorted(leaves_of(entries)),
{
    let l = leaves_of(entries);
    assert forall|x: int, y: int| 0 <= x < y < l.len() implies text_lt(
        #[trigger] l[x].0,
        #[trigger] l[y].0,
    ) by {
        assert(l[x].0 == entries[x].0 && l[y].0 == entries[y].0);
    }
}

} // verus!
