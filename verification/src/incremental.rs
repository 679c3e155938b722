//! A cache of parsed sources by file, so that an unchanged source is not
//! parsed again.

use vstd::prelude::*;
use vstd::string::*;
use crate::ast::same_tree;
use crate::error::CodeGraphError;
use crate::hash::digest_hex;
use crate::registry::{is_grammar_parse_of, ParserRegistry};
use crate::simplified::SimplifiedAST;
use crate::types::Language;

verus! {

/// A parsed source with the digest of the source and the time of the parse.
pub struct CacheEntry {
    pub source_hash: crate::hash::Hash,
    pub ast: SimplifiedAST,
    pub timestamp: u64,
}

struct Slot {
    key: crate::hash::Hash,
    entry: CacheEntry,
}

/// The parsed sources, one per key.
pub struct ParseCache {
    slots: Vec<Slot>,
}

/// How full a cache is.
#[derive(Debug, Clone, Copy, PartialEq, Eq, Structural)]
pub struct CacheStats {
    pub total_entries: usize,
    pub max_capacity: usize,
}

/// A copy of a tree.
pub fn copy_ast(ast: &SimplifiedAST) -> (r: SimplifiedAST)
    ensures
        same_tree(ast.root, r.root),
        r.language == ast.language,
        r.source_hash@ == ast.source_hash@,
{
    SimplifiedAST {
        root: ast.root.clone(),
        language: ast.language,
        source_hash: ast.source_hash.clone(),
    }
}

/// Whether an entry of the given time is too old at the time `now`. An
/// entry from after `now` is never too old.
pub open spec fn is_expired(timestamp: u64, now: u64, max_age: u64) -> bool {
    timestamp <= now && now - timestamp > max_age
}

/// Nothing that `after` still holds is older than anything that it no
/// longer holds of `before`.
pub open spec fn oldest_went(
    after: Map<Seq<char>, CacheEntry>,
    before: Map<Seq<char>, CacheEntry>,
) -> bool {
    forall|kept: Seq<char>, dropped: Seq<char>|
        #[trigger] after.dom().contains(kept) && #[trigger] before.dom().contains(dropped)
            && !after.dom().contains(dropped) ==> before[dropped].timestamp
            <= before[kept].timestamp
}

/// Whether an entry is the one that is kept for a tree parsed at the time
/// `now` from a source with the given digest: it holds a copy of the tree.
pub open spec fn is_entry_for(
    entry: CacheEntry,
    ast: SimplifiedAST,
    source_digest: Seq<char>,
    now: u64,
) -> bool {
    &&& entry.source_hash@ == source_digest
    &&& entry.timestamp == now
    &&& same_tree(ast.root, entry.ast.root)
    &&& entry.ast.language == ast.language
    &&& entry.ast.source_hash@ == ast.source_hash@
}

impl ParseCache {
    /// The keys of the cache, in the order of insertion.
    pub closed spec fn keys(self) -> Seq<Seq<char>> {
        self.slots@.map_values(|s: Slot| s.key@)
    }

    /// No key occurs twice.
    pub closed spec fn wf(self) -> bool {
        self.keys().no_duplicates()
    }

    spec fn index_of(self, key: Seq<char>) -> int {
        choose|i: int| 0 <= i < self.slots@.len() && (#[trigger] self.slots@[i]).key@ == key
    }

    /// The entry held under each key.
    pub closed spec fn held(self) -> Map<Seq<char>, CacheEntry> {
        Map::new(
            |k: Seq<char>| self.keys().contains(k),
            |k: Seq<char>| self.slots@[self.index_of(k)].entry,
        )
    }

    /// How many entries the cache holds.
    pub closed spec fn count(self) -> nat {
        self.slots@.len()
    }

    proof fn lemma_held_at(self, i: int)
        requires
            self.wf(),
            0 <= i < self.slots@.len(),
        ensures
            self.held().dom().contains(self.slots@[i].key@),
            self.held()[self.slots@[i].key@] == self.slots@[i].entry,
    {
        let k = self.slots@[i].key@;
        assert(self.keys()[i] == k);
        let j = self.index_of(k);
        assert(self.keys()[j] == k);
    }

    proof fn lemma_held_dom(self, k: Seq<char>)
        ensures
            self.held().dom().contains(k) <==> exists|i: int|
                0 <= i < self.slots@.len() && (#[trigger] self.slots@[i]).key@ == k,
    {
        if self.keys().contains(k) {
            let i = choose|i: int| 0 <= i < self.keys().len() && self.keys()[i] == k;
            assert(self.slots@[i].key@ == k);
        }
        if exists|i: int| 0 <= i < self.slots@.len() && (#[trigger] self.slots@[i]).key@ == k {
            let i = choose|i: int| 0 <= i < self.slots@.len() && (#[trigger] self.slots@[i]).key@ == k;
            assert(self.keys()[i] == k);
        }
    }

    /// Taking the slot at a position out takes its key out of what is held
    /// and leaves the rest as it was.
    proof fn lemma_without_slot(before: ParseCache, after: ParseCache, i: int)
        requires
            before.wf(),
            0 <= i < before.slots@.len(),
            after.slots@ == before.slots@.remove(i),
        ensures
            after.wf(),
            after.held() == before.held().remove(before.slots@[i].key@),
    {
        let gone = before.slots@[i].key@;
        assert(after.keys() =~= before.keys().remove(i));
        assert forall|a: int, b: int|
            0 <= a < after.keys().len() && 0 <= b < after.keys().len() && a != b implies after.keys()[a]
            != after.keys()[b] by {
            let oa = if a < i { a } else { a + 1 };
            let ob = if b < i { b } else { b + 1 };
            assert(after.keys()[a] == before.keys()[oa] && after.keys()[b] == before.keys()[ob]);
        }
        assert forall|k: Seq<char>| after.held().dom().contains(k) <==> before.held().remove(
            gone,
        ).dom().contains(k) by {
            after.lemma_held_dom(k);
            before.lemma_held_dom(k);
            if after.held().dom().contains(k) {
                let j = choose|j: int|
                    0 <= j < after.slots@.len() && (#[trigger] after.slots@[j]).key@ == k;
                let oj = if j < i { j } else { j + 1 };
                assert(before.slots@[oj].key@ == k);
                assert(before.keys()[oj] == k && before.keys()[i] == gone);
            }
            if before.held().dom().contains(k) && k != gone {
                let j = choose|j: int|
                    0 <= j < before.slots@.len() && (#[trigger] before.slots@[j]).key@ == k;
                let nj = if j < i { j } else { j - 1 };
                assert(after.slots@[nj].key@ == k);
            }
        }
        assert forall|k: Seq<char>| after.held().dom().contains(k) implies after.held()[k]
            == before.held().remove(gone)[k] by {
            after.lemma_held_dom(k);
            let j = choose|j: int|
                0 <= j < after.slots@.len() && (#[trigger] after.slots@[j]).key@ == k;
            let oj = if j < i { j } else { j + 1 };
            assert(before.slots@[oj] == after.slots@[j]);
            after.lemma_held_at(j);
            before.lemma_held_at(oj);
        }
        assert(after.held() =~= before.held().remove(gone));
    }

    pub fn new() -> (r: Self)
        ensures
            r.wf(),
            r.held() == Map::<Seq<char>, CacheEntry>::empty(),
            r.count() == 0,
    {
        let r = ParseCache { slots: Vec::new() };
        assert(r.held() =~= Map::<Seq<char>, CacheEntry>::empty());
        r
    }

    fn position(&self, key: &crate::hash::Hash) -> (r: Option<usize>)
        ensures
            match r {
                Some(i) => i < self.slots@.len() && self.slots@[i as int].key@ == key@,
                None => !self.held().dom().contains(key@),
            },
    {
        let mut i: usize = 0;
        while i < self.slots.len()
            invariant
                i <= self.slots.len(),
                forall|k: int| 0 <= k < i ==> (#[trigger] self.slots@[k]).key@ != key@,
            decreases self.slots.len() - i,
        {
            if self.slots[i].key.same(key) {
                return Some(i);
            }
            i += 1;
        }
        proof {
            self.lemma_held_dom(key@);
        }
        None
    }

    /// The entry under a key.
    pub fn get(&self, key: &crate::hash::Hash) -> (r: Option<&CacheEntry>)
        requires
            self.wf(),
        ensures
            match r {
                Some(e) => self.held().dom().contains(key@) && *e == self.held()[key@],
                None => !self.held().dom().contains(key@),
            },
    {
        match self.position(key) {
            Some(i) => {
                proof {
                    self.lemma_held_at(i as int);
                }
                Some(&self.slots[i].entry)
            },
            None => None,
        }
    }

    /// Puts an entry under a key, in place of what the key held before.
    pub fn insert(&mut self, key: crate::hash::Hash, entry: CacheEntry)
        requires
            old(self).wf(),
        ensures
            final(self).wf(),
            final(self).held() == old(self).held().insert(key@, entry),
            final(self).count() == (if old(self).held().dom().contains(key@) {
                old(self).count()
            } else {
                old(self).count() + 1
            }),
    {
        let ghost before = *self;
        let ghost k = key@;
        let found = self.position(&key);
        let i = match found {
            Some(i) => {
                self.slots.set(i, Slot { key, entry });
                assert(self.keys() =~= before.keys());
                i
            },
            None => {
                self.slots.push(Slot { key, entry });
                assert(self.keys() =~= before.keys().push(k));
                proof {
                    before.lemma_held_dom(k);
                    assert forall|a: int, b: int|
                        0 <= a < self.keys().len() && 0 <= b < self.keys().len() && a
                            != b implies self.keys()[a] != self.keys()[b] by {
                        if a < before.keys().len() && b < before.keys().len() {
                            assert(self.keys()[a] == before.keys()[a]);
                            assert(self.keys()[b] == before.keys()[b]);
                        } else if a < before.keys().len() {
                            assert(before.slots@[a].key@ == self.keys()[a]);
                        } else {
                            assert(before.slots@[b].key@ == self.keys()[b]);
                        }
                    }
                }
                self.slots.len() - 1
            },
        };
        proof {
            before.lemma_held_dom(k);
            assert(self.slots@[i as int].key@ == k);
            assert forall|q: Seq<char>| self.held().dom().contains(q) <==> before.held().insert(
                k,
                entry,
            ).dom().contains(q) by {
                self.lemma_held_dom(q);
                before.lemma_held_dom(q);
                if self.held().dom().contains(q) && q != k {
                    let j = choose|j: int|
                        0 <= j < self.slots@.len() && (#[trigger] self.slots@[j]).key@ == q;
                    assert(before.slots@[j].key@ == q);
                }
                if before.held().dom().contains(q) {
                    let j = choose|j: int|
                        0 <= j < before.slots@.len() && (#[trigger] before.slots@[j]).key@ == q;
                    assert(self.slots@[j].key@ == q);
                }
            }
            assert forall|q: Seq<char>| self.held().dom().contains(q) implies self.held()[q]
                == before.held().insert(k, entry)[q] by {
                self.lemma_held_dom(q);
                let j = choose|j: int|
                    0 <= j < self.slots@.len() && (#[trigger] self.slots@[j]).key@ == q;
                self.lemma_held_at(j);
                if q == k {
                    assert(self.keys()[j] == k && self.keys()[i as int] == k);
                } else {
                    assert(before.slots@[j] == self.slots@[j]);
                    before.lemma_held_at(j);
                }
            }
            assert(self.held() =~= before.held().insert(k, entry));
        }
    }

    pub fn contains_key(&self, key: &crate::hash::Hash) -> (r: bool)
        ensures
            r == self.held().dom().contains(key@),
    {
        match self.position(key) {
            Some(i) => {
                proof {
                    self.lemma_held_dom(key@);
                }
                true
            },
            None => false,
        }
    }

    /// Takes the entry under a key out of the cache.
    pub fn remove(&mut self, key: &crate::hash::Hash) -> (r: Option<CacheEntry>)
        requires
            old(self).wf(),
        ensures
            final(self).wf(),
            final(self).held() == old(self).held().remove(key@),
            r == (if old(self).held().dom().contains(key@) {
                Some(old(self).held()[key@])
            } else {
                None
            }),
            final(self).count() == old(self).count() - (if r is Some {
                1int
            } else {
                0int
            }),
    {
        let ghost before = *self;
        match self.position(key) {
            Some(i) => {
                proof {
                    before.lemma_held_at(i as int);
                }
                let slot = self.slots.remove(i);
                proof {
                    Self::lemma_without_slot(before, *self, i as int);
                }
                Some(slot.entry)
            },
            None => {
                assert(self.held() =~= before.held().remove(key@));
                None
            },
        }
    }

    pub fn clear(&mut self)
        ensures
            final(self).wf(),
            final(self).held() == Map::<Seq<char>, CacheEntry>::empty(),
            final(self).count() == 0,
    {
        self.slots.clear();
        assert(self.held() =~= Map::<Seq<char>, CacheEntry>::empty());
    }

    pub fn len(&self) -> (r: usize)
        ensures
            r == self.count(),
    {
        self.slots.len()
    }

    /// Drops every entry that is too old at the time `now`, and no other.
    pub fn cleanup_expired(&mut self, now: u64, max_age: u64)
        requires
            old(self).wf(),
        ensures
            final(self).wf(),
            final(self).count() <= old(self).count(),
            forall|k: Seq<char>|
                final(self).held().dom().contains(k) <==> old(self).held().dom().contains(k)
                    && !is_expired(old(self).held()[k].timestamp, now, max_age),
            final(self).held().submap_of(old(self).held()),
    {
        let mut i: usize = 0;
        while i < self.slots.len()
            invariant
                i <= self.slots.len(),
                self.wf(),
                self.count() <= old(self).count(),
                forall|j: int|
                    0 <= j < i ==> !is_expired(
                        (#[trigger] self.slots@[j]).entry.timestamp,
                        now,
                        max_age,
                    ),
                self.held().submap_of(old(self).held()),
                forall|k: Seq<char>|
                    old(self).held().dom().contains(k) && !is_expired(
                        old(self).held()[k].timestamp,
                        now,
                        max_age,
                    ) ==> self.held().dom().contains(k),
            decreases self.slots.len() - i,
        {
            let t = self.slots[i].entry.timestamp;
            if t <= now && now - t > max_age {
                let ghost before = *self;
                proof {
                    before.lemma_held_at(i as int);
                }
                let _gone = self.slots.remove(i);
                proof {
                    Self::lemma_without_slot(before, *self, i as int);
                    assert(self.held().submap_of(before.held()));
                    assert(before.held().submap_of(old(self).held()));
                    assert(self.held().submap_of(old(self).held())) by {
                        assert forall|k: Seq<char>| #[trigger] self.held().dom().contains(k) implies old(self).held().dom().contains(k) && self.held()[k] == old(self).held()[k] by {
                            assert(before.held().dom().contains(k));
                        }
                    }
                    assert forall|k: Seq<char>|
                        old(self).held().dom().contains(k) && !is_expired(
                            old(self).held()[k].timestamp,
                            now,
                            max_age,
                        ) implies self.held().dom().contains(k) by {
                        assert(before.held().dom().contains(k));
                        assert(before.held()[k] == old(self).held()[k]);
                    }
                    assert forall|j: int| 0 <= j < i implies !is_expired(
                        (#[trigger] self.slots@[j]).entry.timestamp,
                        now,
                        max_age,
                    ) by {
                        assert(self.slots@[j] == before.slots@[j]);
                    }
                }
            } else {
                i += 1;
            }
        }
        proof {
            assert forall|k: Seq<char>| self.held().dom().contains(k) implies !is_expired(
                old(self).held()[k].timestamp,
                now,
                max_age,
            ) by {
                self.lemma_held_dom(k);
                let j = choose|j: int|
                    0 <= j < self.slots@.len() && (#[trigger] self.slots@[j]).key@ == k;
                self.lemma_held_at(j);
                assert(old(self).held().dom().contains(k));
                assert(self.held()[k] == old(self).held()[k]);
                assert(!is_expired(self.slots@[j].entry.timestamp, now, max_age));
            }
        }
    }

    /// Drops the oldest entries until no more than `max` are left. Of
    /// entries of the same age, those put in first go first. What is left
    /// is held as before, and nothing that is left is older than anything
    /// that was dropped.
    pub fn shrink_to(&mut self, max: usize)
        requires
            old(self).wf(),
        ensures
            final(self).wf(),
            final(self).count() == (if old(self).count() > max {
                max as nat
            } else {
                old(self).count()
            }),
            final(self).held().submap_of(old(self).held()),
            oldest_went(final(self).held(), old(self).held()),
    {
        while self.slots.len() > max
            invariant
                self.wf(),
                self.count() <= old(self).count(),
                old(self).count() <= max ==> self.count() == old(self).count(),
                old(self).count() > max ==> self.count() >= max,
                self.held().submap_of(old(self).held()),
                oldest_went(self.held(), old(self).held()),
            decreases self.slots.len(),
        {
            let mut oldest: usize = 0;
            let mut i: usize = 1;
            while i < self.slots.len()
                invariant
                    1 <= i <= self.slots.len(),
                    oldest < i,
                    forall|j: int|
                        0 <= j < i ==> self.slots@[oldest as int].entry.timestamp <= (
                        #[trigger] self.slots@[j]).entry.timestamp,
                decreases self.slots.len() - i,
            {
                if self.slots[i].entry.timestamp < self.slots[oldest].entry.timestamp {
                    oldest = i;
                }
                i += 1;
            }
            let ghost before = *self;
            proof {
                before.lemma_held_at(oldest as int);
            }
            let _gone = self.slots.remove(oldest);
            proof {
                Self::lemma_without_slot(before, *self, oldest as int);
                let gone = before.slots@[oldest as int].key@;
                let first = old(self).held();
                assert forall|k: Seq<char>| #[trigger] self.held().dom().contains(k) implies (
                #[trigger] first.dom().contains(k)) && self.held()[k] == first[k] by {
                    assert(before.held().dom().contains(k));
                    assert(self.held()[k] == before.held()[k]);
                    assert(first.dom().contains(k) && before.held()[k] == first[k]);
                }
                assert forall|kept: Seq<char>, dropped: Seq<char>|
                    #[trigger] self.held().dom().contains(kept) && #[trigger] first.dom().contains(
                        dropped,
                    ) && !self.held().dom().contains(dropped) implies first[dropped].timestamp
                    <= first[kept].timestamp by {
                    assert(before.held().dom().contains(kept));
                    assert(first.dom().contains(kept) && before.held()[kept] == first[kept]);
                    if before.held().dom().contains(dropped) {
                        // Only the entry just taken out is held before and not after.
                        assert(dropped == gone);
                        assert(first.dom().contains(gone) && before.held()[gone] == first[gone]);
                        before.lemma_held_dom(kept);
                        let j = choose|j: int|
                            0 <= j < before.slots@.len() && (#[trigger] before.slots@[j]).key@
                                == kept;
                        before.lemma_held_at(j);
                    } else {
                        assert(oldest_went(before.held(), first));
                    }
                }
            }
        }
    }
}

/// A parser that keeps what it parsed, by file.
pub struct IncrementalParser {
    cache: ParseCache,
    max_cache_size: usize,
}

impl IncrementalParser {
    pub closed spec fn entries(self) -> nat {
        self.cache.count()
    }

    pub closed spec fn capacity(self) -> usize {
        self.max_cache_size
    }

    /// The entry kept under the digest of each file path.
    pub closed spec fn kept(self) -> Map<Seq<char>, CacheEntry> {
        self.cache.held()
    }

    /// Whether the tree kept for a file was made from the given source.
    pub open spec fn serves(self, file_path: &str, source: &str) -> bool {
        let key = digest_hex(file_path.spec_bytes());
        self.kept().dom().contains(key) && self.kept()[key].source_hash@ == digest_hex(
            source.spec_bytes(),
        )
    }

    pub closed spec fn wf(self) -> bool {
        self.cache.wf()
    }

    /// Whether `after` is this parser once it has taken in a new tree under
    /// a key: with the entry for the tree put under the key, the oldest
    /// entries went until no more than the capacity were left, and what
    /// is left is held as it was.
    pub open spec fn takes_in(
        self,
        after: Self,
        key: Seq<char>,
        ast: SimplifiedAST,
        source_digest: Seq<char>,
        now: u64,
    ) -> bool {
        exists|entry: CacheEntry| #[trigger]
            is_entry_for(entry, ast, source_digest, now) && {
                let grown = self.kept().insert(key, entry);
                let grown_count = if self.kept().dom().contains(key) {
                    self.entries()
                } else {
                    self.entries() + 1
                };
                &&& after.kept().submap_of(grown)
                &&& oldest_went(after.kept(), grown)
                &&& after.entries() == (if grown_count > self.capacity() {
                    self.capacity() as nat
                } else {
                    grown_count
                })
            }
    }

    /// A parser with room for a thousand files.
    pub fn new() -> (r: Self)
        ensures
            r.wf(),
            r.entries() == 0,
            r.capacity() == 1000,
    {
        IncrementalParser { cache: ParseCache::new(), max_cache_size: 1000 }
    }

    pub fn with_cache_size(max_cache_size: usize) -> (r: Self)
        ensures
            r.wf(),
            r.entries() == 0,
            r.capacity() == max_cache_size,
    {
        IncrementalParser { cache: ParseCache::new(), max_cache_size }
    }

    /// Parses the source of a file, or hands back a copy of the tree kept
    /// for the file where its source is the same as at the time it was
    /// kept. A new tree is kept under the file with the time `now`, and the
    /// oldest trees make room for it. A source that does not parse leaves
    /// everything as it was.
    pub fn parse_incremental(
        &mut self,
        source: &str,
        language: Language,
        file_path: &str,
        now: u64,
    ) -> (r: Result<SimplifiedAST, CodeGraphError>)
        requires
            old(self).wf(),
        ensures
            final(self).wf(),
            final(self).capacity() == old(self).capacity(),
            r matches Ok(ast) ==> ast.source_hash@ == digest_hex(source.spec_bytes()),
            old(self).serves(file_path, source) ==> final(self).kept() == old(self).kept() && (
            r matches Ok(ast) && same_tree(
                old(self).kept()[digest_hex(file_path.spec_bytes())].ast.root,
                ast.root,
            ) && ast.language == old(self).kept()[digest_hex(
                file_path.spec_bytes(),
            )].ast.language),
            !old(self).serves(file_path, source) ==> is_grammar_parse_of(r, source@, language),
            !old(self).serves(file_path, source) && r is Err ==> final(self).kept() == old(
                self,
            ).kept(),
            !old(self).serves(file_path, source) ==> (r matches Ok(ast) ==> old(self).takes_in(
                *final(self),
                digest_hex(file_path.spec_bytes()),
                ast,
                digest_hex(source.spec_bytes()),
                now,
            )),
    {
        let file_hash = crate::hash::Hash::from_string(file_path);
        let source_hash = crate::hash::Hash::from_string(source);
        match self.cache.get(&file_hash) {
            Some(cached) => {
                if cached.source_hash.same(&source_hash) {
                    return Ok(
                        SimplifiedAST {
                            root: cached.ast.root.clone(),
                            language: cached.ast.language,
                            source_hash,
                        },
                    );
                }
            },
            None => {},
        }
        let registry = ParserRegistry::new();
        match registry.parse(source, language) {
            Ok(ast) => {
                let entry = CacheEntry { source_hash, ast: copy_ast(&ast), timestamp: now };
                assert(is_entry_for(entry, ast, digest_hex(source.spec_bytes()), now));
                self.cache.insert(file_hash, entry);
                self.cache.shrink_to(self.max_cache_size);
                Ok(ast)
            },
            Err(e) => Err(e),
        }
    }

    /// Forgets what is kept for a file.
    pub fn invalidate_file(&mut self, file_path: &str)
        requires
            old(self).wf(),
        ensures
            final(self).wf(),
            final(self).capacity() == old(self).capacity(),
            final(self).kept() == old(self).kept().remove(digest_hex(file_path.spec_bytes())),
            final(self).entries() <= old(self).entries(),
    {
        let file_hash = crate::hash::Hash::from_string(file_path);
        let _gone = self.cache.remove(&file_hash);
    }

    pub fn clear_cache(&mut self)
        ensures
            final(self).wf(),
            final(self).capacity() == old(self).capacity(),
            final(self).kept() == Map::<Seq<char>, CacheEntry>::empty(),
            final(self).entries() == 0,
    {
        self.cache.clear();
    }

    pub fn cache_stats(&self) -> (r: CacheStats)
        ensures
            r.total_entries == self.entries(),
            r.max_capacity == self.capacity(),
    {
        CacheStats { total_entries: self.cache.len(), max_capacity: self.max_cache_size }
    }

    /// Drops every kept tree that is older than `max_age` at the time `now`.
    pub fn cleanup_expired_entries(&mut self, now: u64, max_age: u64)
        requires
            old(self).wf(),
        ensures
            final(self).wf(),
            final(self).capacity() == old(self).capacity(),
            final(self).entries() <= old(self).entries(),
            final(self).kept().submap_of(old(self).kept()),
            forall|k: Seq<char>|
                final(self).kept().dom().contains(k) <==> old(self).kept().dom().contains(k)
                    && !is_expired(old(self).kept()[k].timestamp, now, max_age),
    {
        self.cache.cleanup_expired(now, max_age);
    }
}

} // verus!
