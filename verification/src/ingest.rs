//! The decisions of the ingestion driver: which entries of a tree are
//! walked, which files are kept, what is counted and recorded for each kept
//! file, and the snapshot record at the end.

use vstd::prelude::*;
use vstd::string::*;
use crate::detector::{language_of_file_extension, LanguageDetector};
use crate::hash::{digest_hex, digest_of, is_digest_text};
use crate::merkle::{MerkleBuilder, MerkleTree};
use crate::paths::{is_unix_form, last_of, path_to_unix, unix_form};
use crate::snapshot::{FileEntry, SnapshotMeta};
use crate::types::Language;
use crate::text::{
    chars_of, decimal, decimal_of, ends_with, has_suffix, is_text, lowercase, same_text, slice_of,
    string_of, texts, to_lowercase, trim, trimmed,
};

verus! {

/// Whether a name matches one ignore pattern. A pattern is trimmed first;
/// an empty pattern matches nothing; a pattern that begins with `*` matches
/// every name that ends with the rest of it; any other pattern matches the
/// name equal to it.
pub open spec fn pattern_matches(name: Seq<char>, pattern: Seq<char>) -> bool {
    let p = trimmed(pattern);
    if p.len() == 0 {
        false
    } else if p[0] == '*' {
        has_suffix(name, p.subrange(1, p.len() as int))
    } else {
        name == p
    }
}

/// Whether a name matches any of the ignore patterns.
pub open spec fn should_ignore(name: Seq<char>, patterns: Seq<Seq<char>>) -> bool {
    exists|i: int| 0 <= i < patterns.len() && pattern_matches(name, #[trigger] patterns[i])
}

/// The language that a name of the allow-list, in lower case, stands for.
pub open spec fn language_named(name: Seq<char>) -> Language {
    if name == "python"@ {
        Language::Python
    } else if name == "java"@ {
        Language::Java
    } else if name == "kotlin"@ {
        Language::Kotlin
    } else if name == "javascript"@ || name == "js"@ {
        Language::JavaScript
    } else if name == "typescript"@ || name == "ts"@ {
        Language::TypeScript
    } else {
        Language::Unknown
    }
}

/// Whether a name of the allow-list, in lower case, admits a detected
/// language: the name stands for a language, and it is that one.
pub open spec fn name_admits(name: Seq<char>, detected: Language) -> bool {
    language_named(name) != Language::Unknown && language_named(name) == detected
}

/// Whether a name of the allow-list, in lower case, admits an extension:
/// the extension maps to the language that the name stands for.
pub open spec fn language_admits(language: Seq<char>, ext: Seq<char>) -> bool {
    name_admits(language, language_of_file_extension(Some(ext)))
}

/// Whether some language of the allow-list admits an extension.
pub open spec fn is_allowed(ext: Seq<char>, allowed: Seq<Seq<char>>) -> bool {
    exists|i: int| 0 <= i < allowed.len() && language_admits(lowercase(#[trigger] allowed[i]), ext)
}

/// Whether a name matches one ignore pattern.
pub fn matches_pattern(name: &[char], pattern: &str) -> (r: bool)
    ensures
        r == pattern_matches(name@, pattern@),
{
    let raw = chars_of(pattern);
    let p = trim(raw.as_slice());
    if p.len() == 0 {
        false
    } else if p[0] == '*' {
        let suffix = slice_of(p.as_slice(), 1, p.len());
        ends_with(name, suffix.as_slice())
    } else {
        same_text(name, p.as_slice())
    }
}

fn ignores(name: &[char], patterns: &[String]) -> (r: bool)
    ensures
        r == should_ignore(name@, texts(patterns@)),
{
    let mut i: usize = 0;
    while i < patterns.len()
        invariant
            i <= patterns.len(),
            forall|k: int| 0 <= k < i ==> !pattern_matches(name@, #[trigger] texts(patterns@)[k]),
        decreases patterns.len() - i,
    {
        if matches_pattern(name, patterns[i].as_str()) {
            assert(pattern_matches(name@, texts(patterns@)[i as int]));
            return true;
        }
        i += 1;
    }
    false
}

/// Whether a file or directory name matches any of the ignore patterns.
pub fn should_ignore_name(name: &str, patterns: &[String]) -> (r: bool)
    ensures
        r == should_ignore(name@, texts(patterns@)),
{
    let n = chars_of(name);
    ignores(n.as_slice(), patterns)
}

/// The language that a name of the allow-list stands for, where the name
/// is in lower case already.
pub fn language_for_name(name: &str) -> (r: Language)
    ensures
        r == language_named(name@),
{
    let n = chars_of(name);
    if is_text(n.as_slice(), "python") {
        Language::Python
    } else if is_text(n.as_slice(), "java") {
        Language::Java
    } else if is_text(n.as_slice(), "kotlin") {
        Language::Kotlin
    } else if is_text(n.as_slice(), "javascript") || is_text(n.as_slice(), "js") {
        Language::JavaScript
    } else if is_text(n.as_slice(), "typescript") || is_text(n.as_slice(), "ts") {
        Language::TypeScript
    } else {
        Language::Unknown
    }
}

/// Whether a name of the allow-list, in lower case already, admits a
/// detected language.
pub fn admits_language(name: &str, detected: Language) -> (r: bool)
    ensures
        r == name_admits(name@, detected),
{
    let named = language_for_name(name);
    named != Language::Unknown && named == detected
}

/// Whether the allow-list of languages admits a file extension: whether
/// the extension maps to a language that the list names.
pub fn is_allowed_extension(ext: &str, allowed_langs: &[String]) -> (r: bool)
    ensures
        r == is_allowed(ext@, texts(allowed_langs@)),
{
    let detected = LanguageDetector::detect_from_extension(Some(ext));
    let mut i: usize = 0;
    while i < allowed_langs.len()
        invariant
            i <= allowed_langs.len(),
            detected == language_of_file_extension(Some(ext@)),
            forall|k: int|
                0 <= k < i ==> !language_admits(lowercase(#[trigger] texts(allowed_langs@)[k]), ext@),
        decreases allowed_langs.len() - i,
    {
        let lower = to_lowercase(allowed_langs[i].as_str());
        assert(lower@ == lowercase(texts(allowed_langs@)[i as int]));
        if admits_language(lower.as_str(), detected) {
            return true;
        }
        i += 1;
    }
    false
}

/// The first slash at or after `i`, or the end of the text.
pub open spec fn segment_end(s: Seq<char>, i: int) -> int
    decreases s.len() - i,
{
    if 0 <= i < s.len() && s[i] != '/' {
        segment_end(s, i + 1)
    } else {
        i
    }
}

/// The segments of a path from position `from` on: what stands between
/// its slashes.
pub open spec fn segments(s: Seq<char>, from: int) -> Seq<Seq<char>>
    decreases s.len() - from,
{
    if from < 0 || from > s.len() {
        Seq::empty()
    } else {
        let e = segment_end(s, from);
        if from <= e < s.len() {
            seq![s.subrange(from, e)] + segments(s, e + 1)
        } else {
            seq![s.subrange(from, e)]
        }
    }
}

/// A name that the walk never enters or keeps: the workspace directory, or
/// a name that matches an ignore pattern.
pub open spec fn name_is_skipped(name: Seq<char>, patterns: Seq<Seq<char>>) -> bool {
    name == ".ccg"@ || should_ignore(name, patterns)
}

/// A path that the walk never reaches: one of its segments is skipped.
pub open spec fn path_is_skipped(path: Seq<char>, patterns: Seq<Seq<char>>) -> bool {
    exists|i: int|
        0 <= i < segments(path, 0).len() && name_is_skipped(
            #[trigger] segments(path, 0)[i],
            patterns,
        )
}

/// The last segment of a path: what stands behind its last slash.
pub open spec fn last_segment(path: Seq<char>) -> Seq<char> {
    path.subrange(last_of(path, '/', path.len() as int) + 1, path.len() as int)
}

/// The last slash before a position is where a slash stands with none
/// between it and the position; there is none where no slash stands
/// before the position.
proof fn lemma_last_slash(path: Seq<char>, at: int, upto: int)
    requires
        -1 <= at < upto <= path.len(),
        at >= 0 ==> path[at] == '/',
        forall|j: int| at < j < upto ==> path[j] != '/',
    ensures
        last_of(path, '/', upto) == at,
    decreases upto,
{
    if upto > 0 && at < upto - 1 {
        lemma_last_slash(path, at, upto - 1);
    }
}

/// The greatest size in bytes of a file that is kept.
pub open spec fn size_limit(max_file_size_kb: usize) -> int {
    max_file_size_kb as int * 1024
}

fn skips_name(name: &[char], patterns: &[String]) -> (r: bool)
    ensures
        r == name_is_skipped(name@, texts(patterns@)),
{
    is_text(name, ".ccg") || ignores(name, patterns)
}

/// Whether some segment of the path is skipped.
pub fn skips_path(path: &[char], patterns: &[String]) -> (r: bool)
    ensures
        r == path_is_skipped(path@, texts(patterns@)),
        !r ==> !name_is_skipped(last_segment(path@), texts(patterns@)),
{
    let ghost all = segments(path@, 0);
    let ghost done: Seq<Seq<char>> = Seq::empty();
    let mut i: usize = 0;
    loop
        invariant
            i <= path.len(),
            i == 0 || path@[i - 1] == '/',
            all == segments(path@, 0),
            done + segments(path@, i as int) == all,
            forall|k: int| 0 <= k < done.len() ==> !name_is_skipped(#[trigger] done[k], texts(patterns@)),
        decreases path.len() - i,
    {
        let mut e: usize = i;
        while e < path.len() && path[e] != '/'
            invariant
                i <= e <= path.len(),
                segment_end(path@, i as int) == segment_end(path@, e as int),
                forall|j: int| i <= j < e ==> path@[j] != '/',
            decreases path.len() - e,
        {
            e += 1;
        }
        let name = slice_of(path, i, e);
        if skips_name(name.as_slice(), patterns) {
            assert(all[done.len() as int] == name@);
            return true;
        }
        proof {
            let rest = if e < path.len() {
                segments(path@, e + 1)
            } else {
                Seq::<Seq<char>>::empty()
            };
            assert(segments(path@, i as int) =~= seq![name@] + rest);
            assert(done.push(name@) + rest =~= done + (seq![name@] + rest));
            done = done.push(name@);
        }
        if e < path.len() {
            i = e + 1;
        } else {
            proof {
                assert(done + Seq::<Seq<char>>::empty() =~= done);
                lemma_last_slash(path@, i - 1, path@.len() as int);
            }
            return false;
        }
    }
}

/// The last segment of a path.
fn final_segment(path: &[char]) -> (r: Vec<char>)
    ensures
        r@ == last_segment(path@),
{
    let mut from: usize = path.len();
    while from > 0 && path[from - 1] != '/'
        invariant
            from <= path.len(),
            forall|j: int| from <= j < path.len() ==> path@[j] != '/',
        decreases from,
    {
        from -= 1;
    }
    proof {
        lemma_last_slash(path@, from - 1, path@.len() as int);
    }
    slice_of(path, from, path.len())
}

/// What the driver is configured with.
#[derive(Debug, Clone)]
pub struct IngestOptions {
    /// Patterns for the names of files and directories that are left out.
    pub ignore_patterns: Vec<String>,
    /// The greatest size of a kept file, in units of 1024 bytes.
    pub max_file_size_kb: usize,
    /// The languages whose files are kept; every file where there is no list.
    pub languages: Option<Vec<String>>,
}

/// The languages in force for a run over a tree: those asked for, or the
/// configured ones where none were asked for.
pub open spec fn languages_in_force(
    requested: Option<Vec<String>>,
    configured: Vec<String>,
) -> Vec<String> {
    match requested {
        Some(l) => l,
        None => configured,
    }
}

impl IngestOptions {
    /// The options of a run. A run over a tree ignores the configured
    /// patterns and keeps the languages in force. A run over a single file
    /// ignores no name and keeps every language: the file was named. The
    /// size limit is the configured one in both.
    pub fn for_run(
        single_file: bool,
        ignore_patterns: Vec<String>,
        max_file_size_kb: usize,
        requested: Option<Vec<String>>,
        configured: Vec<String>,
    ) -> (r: Self)
        ensures
            r.max_file_size_kb == max_file_size_kb,
            single_file ==> r.ignore_patterns@.len() == 0 && r.languages is None,
            !single_file ==> r.ignore_patterns == ignore_patterns && r.languages == Some(
                languages_in_force(requested, configured),
            ),
    {
        if single_file {
            IngestOptions { ignore_patterns: Vec::new(), max_file_size_kb, languages: None }
        } else {
            let languages = match requested {
                Some(l) => l,
                None => configured,
            };
            IngestOptions { ignore_patterns, max_file_size_kb, languages: Some(languages) }
        }
    }
}

/// Whether the options keep a file with the given extension.
pub open spec fn extension_is_kept(ext: Option<Seq<char>>, languages: Option<Vec<String>>) -> bool {
    match languages {
        None => true,
        Some(l) => match ext {
            Some(e) => is_allowed(e, texts(l@)),
            None => false,
        },
    }
}

/// The state of one ingestion run: the Merkle builder, the counters, and
/// the file entries recorded so far.
pub struct Ingestion {
    options: IngestOptions,
    builder: MerkleBuilder,
    files_indexed: usize,
    total_bytes: u64,
    files: Vec<FileEntry>,
    pending: Option<FileEntry>,
}

/// What indexing hands back for a kept file.
#[derive(Debug, Clone)]
pub struct IndexedFile {
    /// The path under which the file is recorded.
    pub path: String,
    /// The digest of its content.
    pub digest: String,
}

impl Ingestion {
    pub closed spec fn patterns(self) -> Seq<Seq<char>> {
        texts(self.options.ignore_patterns@)
    }

    pub closed spec fn limit(self) -> int {
        size_limit(self.options.max_file_size_kb)
    }

    pub closed spec fn languages(self) -> Option<Vec<String>> {
        self.options.languages
    }

    /// The content held for each indexed path.
    pub closed spec fn contents(self) -> Map<Seq<char>, Seq<u8>> {
        self.builder@
    }

    pub closed spec fn indexed_count(self) -> nat {
        self.files_indexed as nat
    }

    pub closed spec fn byte_count(self) -> nat {
        self.total_bytes as nat
    }

    /// The entries recorded so far.
    pub closed spec fn entries(self) -> Seq<FileEntry> {
        self.files@
    }

    /// The entry of the file indexed last, until its blob is confirmed.
    pub closed spec fn awaiting(self) -> Option<FileEntry> {
        self.pending
    }

    pub closed spec fn built_leaves(self) -> Seq<(Seq<char>, Seq<char>)> {
        self.builder.built_leaves()
    }

    pub closed spec fn built_root(self) -> Seq<char> {
        self.builder.built_root()
    }

    /// An entry as the run may hold it: its path is in recorded form and
    /// the name of its file matches no ignore pattern; its content is
    /// held, and is no longer than the limit; its digest has the digest
    /// shape.
    pub open spec fn entry_is_sound(self, e: FileEntry) -> bool {
        &&& is_unix_form(e.path@)
        &&& !should_ignore(last_segment(e.path@), self.patterns())
        &&& self.contents().dom().contains(e.path@)
        &&& self.contents()[e.path@].len() <= self.limit()
        &&& is_digest_text(e.hash@)
    }

    /// The run is valid: every entry is sound, every held content fits the
    /// limit, and no more entries are recorded than files were indexed.
    pub closed spec fn wf(self) -> bool {
        &&& self.builder.wf()
        &&& self.builder.fanout_value() == 2
        &&& forall|i: int| 0 <= i < self.files@.len() ==> self.entry_is_sound(#[trigger] self.files@[i])
        &&& forall|p: Seq<char>| #[trigger]
            self.builder@.dom().contains(p) ==> self.builder@[p].len() <= self.limit()
        &&& match self.pending {
            Some(e) => self.entry_is_sound(e) && self.files@.len() < self.files_indexed,
            None => self.files@.len() <= self.files_indexed,
        }
    }

    /// What the run builds: the leaves of the contents in path order, and
    /// the root over them with fanout two.
    pub proof fn lemma_built_from_contents(self)
        requires
            self.wf(),
        ensures
            exists|entries: Seq<(Seq<char>, Seq<u8>)>|
                crate::keyed::keys_sorted(entries) && #[trigger] crate::keyed::as_map(entries)
                    == self.contents() && self.built_leaves() == crate::merkle::leaves_of(entries)
                    && self.built_root() == crate::merkle::merkle_root(
                    crate::merkle::digests_of(crate::merkle::leaves_of(entries)),
                    2,
                ),
    {
        crate::merkle::lemma_entries_stand_for_view(self.builder);
        let entries = self.builder.entry_seq();
        assert(crate::keyed::as_map(entries) == self.contents());
    }

    /// What `wf` says of the entries.
    pub proof fn lemma_entries_are_sound(self)
        requires
            self.wf(),
        ensures
            forall|i: int|
                0 <= i < self.entries().len() ==> self.entry_is_sound(#[trigger] self.entries()[i]),
            self.entries().len() <= self.indexed_count(),
    {
    }

    /// A run that has indexed nothing.
    pub fn new(options: IngestOptions) -> (r: Self)
        ensures
            r.wf(),
            r.patterns() == texts(options.ignore_patterns@),
            r.limit() == size_limit(options.max_file_size_kb),
            r.languages() == options.languages,
            r.contents() == Map::<Seq<char>, Seq<u8>>::empty(),
            r.indexed_count() == 0,
            r.byte_count() == 0,
            r.entries().len() == 0,
            r.awaiting() is None,
    {
        Ingestion {
            options,
            builder: MerkleBuilder::new(),
            files_indexed: 0,
            total_bytes: 0,
            files: Vec::new(),
            pending: None,
        }
    }

    /// Whether the walk enters or keeps an entry of the given name: not the
    /// workspace directory, and no match of an ignore pattern.
    pub fn admits_name(&self, name: &str) -> (r: bool)
        ensures
            r == !name_is_skipped(name@, self.patterns()),
    {
        let n = chars_of(name);
        !skips_name(n.as_slice(), self.options.ignore_patterns.as_slice())
    }

    /// Whether a file of the given size is read at all.
    pub fn admits_size(&self, size: u64) -> (r: bool)
        ensures
            r == (size <= self.limit()),
    {
        (size as u128) <= (self.options.max_file_size_kb as u128) * 1024
    }

    /// Whether a file with the given extension is kept by the language
    /// allow-list.
    pub fn admits_extension(&self, ext: Option<&str>) -> (r: bool)
        ensures
            r == extension_is_kept(
                match ext {
                    Some(e) => Some(e@),
                    None => None,
                },
                self.languages(),
            ),
    {
        match &self.options.languages {
            None => true,
            Some(allow) => match ext {
                Some(e) => is_allowed_extension(e, allow.as_slice()),
                None => false,
            },
        }
    }

    /// Whether the run has room for a file: its content fits the limit,
    /// and the counters can take it.
    pub open spec fn fits(self, bytes: Seq<u8>) -> bool {
        &&& bytes.len() <= self.limit()
        &&& self.indexed_count() < usize::MAX
        &&& self.byte_count() + bytes.len() <= u64::MAX
    }

    /// Whether the run keeps a file that the walk reached by the given
    /// path below the root: no segment of the path is skipped, and the run
    /// has room for the file.
    pub open spec fn keeps(self, path: Seq<char>, bytes: Seq<u8>) -> bool {
        &&& !path_is_skipped(unix_form(path), self.patterns())
        &&& self.fits(bytes)
    }

    /// Whether the run keeps a file of the walk. With a path below the
    /// root, every segment of that path counts. Without one the file is
    /// known by its full path alone, and only its own name counts: what
    /// stands above the root was never walked.
    pub open spec fn keeps_entry(
        self,
        below_root: Option<Seq<char>>,
        full: Seq<char>,
        bytes: Seq<u8>,
    ) -> bool {
        match below_root {
            Some(path) => self.keeps(path, bytes),
            None => !name_is_skipped(last_segment(unix_form(full)), self.patterns()) && self.fits(
                bytes,
            ),
        }
    }

    /// Whether the run keeps a file that is itself the root of the run: no
    /// directory was walked to reach it, so only its own name is held
    /// against the patterns of the run, and the run must have room for it.
    pub open spec fn keeps_root(self, path: Seq<char>, bytes: Seq<u8>) -> bool {
        &&& !should_ignore(last_segment(unix_form(path)), self.patterns())
        &&& self.fits(bytes)
    }

    /// What taking a file in does to the run, where `kept` says whether
    /// the file is kept and `recorded` is the path it is recorded under. A
    /// kept file is counted, its content goes into the Merkle builder
    /// under the recorded path, and its entry waits for `confirm_stored`;
    /// what comes back is the recorded path and the digest of the
    /// content. A file that is not kept changes nothing.
    pub open spec fn indexes(
        self,
        after: Self,
        kept: bool,
        recorded: Seq<char>,
        bytes: Seq<u8>,
        r: Option<IndexedFile>,
    ) -> bool {
        &&& after.patterns() == self.patterns()
        &&& after.limit() == self.limit()
        &&& after.languages() == self.languages()
        &&& after.entries() == self.entries()
        &&& match r {
            Some(f) => {
                &&& kept
                &&& f.path@ == recorded
                &&& f.digest@ == digest_hex(bytes)
                &&& after.contents() == self.contents().insert(recorded, bytes)
                &&& after.indexed_count() == self.indexed_count() + 1
                &&& after.byte_count() == self.byte_count() + bytes.len()
                &&& after.awaiting() matches Some(e) && e.path@ == recorded && e.hash@ == f.digest@
            },
            None => {
                &&& !kept
                &&& after.contents() == self.contents()
                &&& after.indexed_count() == self.indexed_count()
                &&& after.byte_count() == self.byte_count()
                &&& after.awaiting() == self.awaiting()
            },
        }
    }

    /// Takes in a file under the path it is recorded by, where the run has
    /// room for it.
    fn take_in(&mut self, recorded: String, bytes: &[u8]) -> (r: Option<IndexedFile>)
        requires
            old(self).wf(),
            is_unix_form(recorded@),
            !should_ignore(last_segment(recorded@), old(self).patterns()),
        ensures
            final(self).wf(),
            old(self).indexes(*final(self), old(self).fits(bytes@), recorded@, bytes@, r),
    {
        if (bytes.len() as u128) > (self.options.max_file_size_kb as u128) * 1024 {
            return None;
        }
        if self.files_indexed == usize::MAX {
            return None;
        }
        if (bytes.len() as u128) > (u64::MAX - self.total_bytes) as u128 {
            return None;
        }
        let digest = digest_of(bytes);
        let ghost before = *self;
        self.builder.add(recorded.as_str(), bytes);
        self.files_indexed = self.files_indexed + 1;
        self.total_bytes = self.total_bytes + bytes.len() as u64;
        let entry = FileEntry { path: recorded.clone(), hash: digest.clone() };
        self.pending = Some(entry);
        proof {
            assert forall|i: int| 0 <= i < self.files@.len() implies self.entry_is_sound(
                #[trigger] self.files@[i],
            ) by {
                assert(before.entry_is_sound(before.files@[i]));
            }
        }
        Some(IndexedFile { path: recorded, digest })
    }

    /// Takes in a file that the walk reached by the given path below the
    /// root. The file is kept where no segment of the path is skipped and
    /// the run has room for it; it is recorded under the path in recorded
    /// form. What the bytes hold plays no part.
    pub fn index_file(&mut self, path: &str, bytes: &[u8]) -> (r: Option<IndexedFile>)
        requires
            old(self).wf(),
        ensures
            final(self).wf(),
            old(self).indexes(
                *final(self),
                old(self).keeps(path@, bytes@),
                unix_form(path@),
                bytes@,
                r,
            ),
    {
        let recorded = path_to_unix(path);
        let p = chars_of(recorded.as_str());
        if skips_path(p.as_slice(), self.options.ignore_patterns.as_slice()) {
            return None;
        }
        self.take_in(recorded, bytes)
    }

    /// Takes in a file of the walk: by its path below the root where it
    /// has one, else by its full path, which is then the path it is
    /// recorded under.
    pub fn index_entry(&mut self, below_root: Option<&str>, full: &str, bytes: &[u8]) -> (r: Option<
        IndexedFile,
    >)
        requires
            old(self).wf(),
        ensures
            final(self).wf(),
            old(self).indexes(
                *final(self),
                old(self).keeps_entry(
                    match below_root {
                        Some(p) => Some(p@),
                        None => None,
                    },
                    full@,
                    bytes@,
                ),
                unix_form(
                    match below_root {
                        Some(p) => p@,
                        None => full@,
                    },
                ),
                bytes@,
                r,
            ),
    {
        match below_root {
            Some(path) => self.index_file(path, bytes),
            None => {
                let recorded = path_to_unix(full);
                let p = chars_of(recorded.as_str());
                let name = final_segment(p.as_slice());
                if skips_name(name.as_slice(), self.options.ignore_patterns.as_slice()) {
                    return None;
                }
                self.take_in(recorded, bytes)
            },
        }
    }

    /// Takes in the file that is itself the root of the run, under its own
    /// path in recorded form.
    pub fn index_root_file(&mut self, path: &str, bytes: &[u8]) -> (r: Option<IndexedFile>)
        requires
            old(self).wf(),
        ensures
            final(self).wf(),
            old(self).indexes(
                *final(self),
                old(self).keeps_root(path@, bytes@),
                unix_form(path@),
                bytes@,
                r,
            ),
    {
        let recorded = path_to_unix(path);
        let p = chars_of(recorded.as_str());
        let name = final_segment(p.as_slice());
        if ignores(name.as_slice(), self.options.ignore_patterns.as_slice()) {
            return None;
        }
        self.take_in(recorded, bytes)
    }

    /// Settles the entry of the file indexed last: recorded if its blob was
    /// stored, dropped if not. The file stays counted either way.
    pub fn confirm_stored(&mut self, stored: bool)
        requires
            old(self).wf(),
        ensures
            final(self).wf(),
            final(self).patterns() == old(self).patterns(),
            final(self).limit() == old(self).limit(),
            final(self).languages() == old(self).languages(),
            final(self).contents() == old(self).contents(),
            final(self).indexed_count() == old(self).indexed_count(),
            final(self).byte_count() == old(self).byte_count(),
            final(self).awaiting() is None,
            final(self).entries() == (match old(self).awaiting() {
                Some(e) => if stored {
                    old(self).entries().push(e)
                } else {
                    old(self).entries()
                },
                None => old(self).entries(),
            }),
    {
        let ghost before = *self;
        let waiting = self.pending.take();
        match waiting {
            Some(e) => {
                if stored {
                    self.files.push(e);
                    proof {
                        assert forall|i: int| 0 <= i < self.files@.len() implies self.entry_is_sound(
                            #[trigger] self.files@[i],
                        ) by {
                            if i < before.files@.len() {
                                assert(before.entry_is_sound(before.files@[i]));
                            } else {
                                assert(before.entry_is_sound(e));
                            }
                        }
                    }
                }
            },
            None => {},
        }
    }

    /// How many files were indexed.
    pub fn files_indexed(&self) -> (r: usize)
        ensures
            r == self.indexed_count(),
    {
        self.files_indexed
    }

    /// How many bytes the indexed files hold together.
    pub fn total_bytes(&self) -> (r: u64)
        ensures
            r == self.byte_count(),
    {
        self.total_bytes
    }

    /// Ends the run: builds the Merkle tree and the snapshot record. An
    /// entry that still waits for its blob is not recorded.
    pub fn finish(self, timestamp: String, user: Option<String>, message: Option<String>) -> (r: (
        MerkleTree,
        SnapshotMeta,
    ))
        requires
            self.wf(),
        ensures
            r.0.wf(),
            r.0.leaf_seq() == self.built_leaves(),
            r.0.root_text() == self.built_root(),
            r.1.root@ == self.built_root(),
            is_digest_text(r.1.root@),
            r.1.total_files == self.indexed_count(),
            r.1.total_bytes == self.byte_count(),
            r.1.timestamp == timestamp,
            r.1.user == user,
            r.1.message == message,
            r.1.files@ == self.entries(),
            forall|i: int|
                0 <= i < r.1.files@.len() ==> self.entry_is_sound(#[trigger] r.1.files@[i]),
    {
        let tree = self.builder.build();
        let meta = SnapshotMeta::stamped(
            tree.root(),
            self.files_indexed,
            self.total_bytes,
            timestamp,
            user,
            message,
            self.files,
        );
        (tree, meta)
    }
}

/// The three lines that sum up a run: files, bytes, root.
pub open spec fn summary_text(meta: SnapshotMeta) -> Seq<Seq<char>> {
    seq![
        "Indexed files: "@ + decimal(meta.total_files as nat),
        "Total bytes: "@ + decimal(meta.total_bytes as nat),
        "root: "@ + meta.root@,
    ]
}

/// The lines that sum up a run.
pub fn summary_lines(meta: &SnapshotMeta) -> (lines: Vec<String>)
    ensures
        texts(lines@) == summary_text(*meta),
{
    let mut lines: Vec<String> = Vec::new();
    lines.push(
        String::from_str("Indexed files: ").concat(
            string_of(decimal_of(meta.total_files as u64).as_slice()).as_str(),
        ),
    );
    lines.push(
        String::from_str("Total bytes: ").concat(
            string_of(decimal_of(meta.total_bytes).as_slice()).as_str(),
        ),
    );
    lines.push(String::from_str("root: ").concat(meta.root.as_str()));
    assert(texts(lines@) =~= summary_text(*meta));
    lines
}

} // verus!
