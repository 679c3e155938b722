//! The content-addressed store: where the blob of a digest lives, and the
//! steps by which a blob is put there.

use vstd::prelude::*;
use vstd::string::*;
use vstd::utf8::encode_utf8;
use crate::error::CodeGraphError;
use crate::hash::{digest_hex, digest_of, is_digest_text, lemma_digest_text_is_ascii};
use crate::paths::path_exists;
use crate::text::{byte_span, span_text};

verus! {

/// Where the store keeps its blobs.
#[derive(Debug, Clone)]
pub struct CasConfig {
    pub root: String,
}

/// A store rooted at a directory that is not the empty path.
#[derive(Debug, Clone)]
pub struct CasStore {
    root: String,
}

/// The two parts that a digest is split into: its first two bytes, which
/// name the bucket directory, and the rest, which names the file. A digest
/// of fewer than two bytes, or one whose second byte ends in the middle of
/// a character, has no parts.
pub open spec fn digest_parts(digest: Seq<char>) -> Option<(Seq<char>, Seq<char>)> {
    match (
        span_text(digest, 0, 2),
        span_text(digest, 2, encode_utf8(digest).len() as int),
    ) {
        (Some(bucket), Some(file)) => Some((bucket, file)),
        _ => None,
    }
}

/// The path of the bucket directory of a digest under a root.
pub open spec fn bucket_path(root: Seq<char>, bucket: Seq<char>) -> Seq<char> {
    root + "/"@ + bucket
}

/// The path of the blob of a digest under a root: the root, the bucket
/// directory, and the file, with slashes between.
pub open spec fn object_path(root: Seq<char>, parts: (Seq<char>, Seq<char>)) -> Seq<char> {
    root + "/"@ + parts.0 + "/"@ + parts.1
}

/// The path of the temporary file that a blob is written to before it is
/// renamed into place.
pub open spec fn temp_path(target: Seq<char>) -> Seq<char> {
    target + ".tmp"@
}

/// A digest in its usual shape is split after its second character.
pub proof fn lemma_digest_parts_of_digest_text(digest: Seq<char>)
    requires
        is_digest_text(digest),
    ensures
        digest_parts(digest) == Some((digest.subrange(0, 2), digest.subrange(2, 64))),
{
    broadcast use
        vstd::utf8::encode_utf8_valid_utf8,
        vstd::utf8::encode_utf8_decode_utf8,
        vstd::utf8::is_char_boundary_start_end_of_seq,
    ;

    lemma_digest_text_is_ascii(digest);
    let b = encode_utf8(digest);
    vstd::utf8::is_ascii_chars_encode_utf8(digest);
    let head = digest.subrange(0, 2);
    let tail = digest.subrange(2, 64);
    assert(vstd::utf8::is_ascii_chars(head)) by {
        assert forall|i: int| 0 <= i < head.len() implies '\0' <= #[trigger] head[i] <= '\u{7f}' by {
            assert(head[i] == digest[i]);
        }
    }
    assert(vstd::utf8::is_ascii_chars(tail)) by {
        assert forall|i: int| 0 <= i < tail.len() implies '\0' <= #[trigger] tail[i] <= '\u{7f}' by {
            assert(tail[i] == digest[i + 2]);
        }
    }
    vstd::utf8::is_ascii_chars_encode_utf8(head);
    vstd::utf8::is_ascii_chars_encode_utf8(tail);
    assert(b.subrange(0, 2) =~= encode_utf8(head)) by {
        assert forall|i: int| 0 <= i < 2 implies b.subrange(0, 2)[i] == encode_utf8(head)[i] by {
            assert(b[i] == digest[i] as u8);
            assert(encode_utf8(head)[i] == head[i] as u8);
        }
    }
    assert(b.subrange(2, 64) =~= encode_utf8(tail)) by {
        assert forall|i: int| 0 <= i < 62 implies b.subrange(2, 64)[i] == encode_utf8(tail)[i] by {
            assert(b[i + 2] == digest[i + 2] as u8);
            assert(encode_utf8(tail)[i] == tail[i] as u8);
        }
    }
    assert(vstd::utf8::is_char_boundary(b, 2)) by {
        vstd::utf8::is_char_boundary_iff_not_is_continuation_byte(b, 2);
        let x = b[2];
        assert(x == digest[2] as u8);
        assert(x < 128);
        assert(!vstd::utf8::is_continuation_byte(x)) by (bit_vector)
            requires
                x < 128,
        ;
    }
}

/// The steps of putting a blob, in the order a successful first write
/// takes them.
#[derive(Debug, Clone, Copy, PartialEq, Eq, Structural)]
pub enum PutStep {
    /// Ask whether the target file exists.
    CheckTarget,
    /// Create the bucket directory, if it is missing.
    CreateBucket,
    /// Write the bytes to the temporary file and sync it.
    WriteTemp,
    /// Rename the temporary file into place.
    Rename,
    /// After a rename that failed: ask again whether the target exists.
    RecheckTarget,
    /// The blob is in the store.
    Done,
    /// The blob could not be stored.
    Failed,
}

/// What the file system answered to a step.
#[derive(Debug, Clone, Copy, PartialEq, Eq, Structural)]
pub enum PutEvent {
    TargetExists(bool),
    BucketCreated(bool),
    TempWritten(bool),
    Renamed(bool),
}

/// The step that follows a step and the answer to it. A blob that is
/// already present is not written again; a rename that fails while the
/// target is present counts as success; any other failure ends the put, as
/// does an answer that does not belong to the step.
pub open spec fn step_after(step: PutStep, event: PutEvent) -> PutStep {
    match (step, event) {
        (PutStep::CheckTarget, PutEvent::TargetExists(true)) => PutStep::Done,
        (PutStep::CheckTarget, PutEvent::TargetExists(false)) => PutStep::CreateBucket,
        (PutStep::CreateBucket, PutEvent::BucketCreated(true)) => PutStep::WriteTemp,
        (PutStep::WriteTemp, PutEvent::TempWritten(true)) => PutStep::Rename,
        (PutStep::Rename, PutEvent::Renamed(true)) => PutStep::Done,
        (PutStep::Rename, PutEvent::Renamed(false)) => PutStep::RecheckTarget,
        (PutStep::RecheckTarget, PutEvent::TargetExists(true)) => PutStep::Done,
        (PutStep::Done, _) => PutStep::Done,
        _ => PutStep::Failed,
    }
}

/// What a put needs to know: the digest of the bytes and the paths it works on.
#[derive(Debug, Clone)]
pub struct PutPlan {
    pub digest: String,
    pub bucket_dir: String,
    pub target: String,
    pub temp: String,
}

impl CasStore {
    /// The root directory as text.
    pub closed spec fn root_text(self) -> Seq<char> {
        self.root@
    }

    /// A store at the configured root. An empty root is a configuration error.
    pub fn new(config: CasConfig) -> (r: Result<Self, CodeGraphError>)
        ensures
            match r {
                Ok(store) => config.root@.len() > 0 && store.root_text() == config.root@,
                Err(e) => config.root@.len() == 0 && e is Config,
            },
    {
        if config.root.as_str().is_empty() {
            return Err(
                CodeGraphError::Config {
                    message: String::from_str("CAS root path cannot be empty"),
                },
            );
        }
        Ok(CasStore { root: config.root })
    }

    /// The root directory.
    pub fn root(&self) -> (r: &str)
        ensures
            r@ == self.root_text(),
    {
        self.root.as_str()
    }

    fn split_digest<'a>(hash: &'a str) -> (r: Option<(&'a str, &'a str)>)
        ensures
            match r {
                Some(p) => digest_parts(hash@) == Some((p.0@, p.1@)),
                None => digest_parts(hash@) is None,
            },
    {
        let len = hash.as_bytes().len();
        match byte_span(hash, 0, 2) {
            Some(bucket) => match byte_span(hash, 2, len) {
                Some(file) => Some((bucket, file)),
                None => None,
            },
            None => None,
        }
    }

    /// The path of the blob of a digest: `<root>/<first two bytes>/<rest>`.
    /// A digest that cannot be split so is a storage error.
    pub fn path_for_hash(&self, hash: &str) -> (r: Result<String, CodeGraphError>)
        ensures
            match r {
                Ok(p) => digest_parts(hash@) is Some && p@ == object_path(
                    self.root_text(),
                    digest_parts(hash@)->0,
                ),
                Err(e) => digest_parts(hash@) is None && e is Storage,
            },
    {
        match Self::split_digest(hash) {
            Some((bucket, file)) => {
                let mut p = self.root.clone();
                p.append("/");
                p.append(bucket);
                p.append("/");
                p.append(file);
                Ok(p)
            },
            None => Err(CodeGraphError::Storage { message: String::from_str("invalid hash") }),
        }
    }

    /// Whether the store holds a blob for the digest, by the existence of
    /// its file alone. A digest that cannot be split is a storage error.
    pub fn has(&self, hash: &str) -> (r: Result<bool, CodeGraphError>)
        ensures
            match r {
                Ok(_) => digest_parts(hash@) is Some,
                Err(e) => digest_parts(hash@) is None && e is Storage,
            },
    {
        match self.path_for_hash(hash) {
            Ok(p) => Ok(path_exists(p.as_str())),
            Err(e) => Err(e),
        }
    }

    /// What putting the bytes takes: their digest, the bucket directory, the
    /// target file, and the temporary file beside it.
    pub fn plan_put(&self, data: &[u8]) -> (plan: PutPlan)
        ensures
            plan.digest@ == digest_hex(data@),
            is_digest_text(plan.digest@),
            plan.bucket_dir@ == bucket_path(self.root_text(), plan.digest@.subrange(0, 2)),
            plan.target@ == object_path(
                self.root_text(),
                (plan.digest@.subrange(0, 2), plan.digest@.subrange(2, 64)),
            ),
            plan.temp@ == temp_path(plan.target@),
    {
        let digest = digest_of(data);
        proof {
            lemma_digest_parts_of_digest_text(digest@);
        }
        let parts = Self::split_digest(digest.as_str());
        let (bucket, file) = parts.unwrap();
        let mut bucket_dir = self.root.clone();
        bucket_dir.append("/");
        bucket_dir.append(bucket);
        let mut target = bucket_dir.clone();
        target.append("/");
        target.append(file);
        let mut temp = target.clone();
        temp.append(".tmp");
        assert(target@ =~= object_path(
            self.root_text(),
            (digest@.subrange(0, 2), digest@.subrange(2, 64)),
        ));
        PutPlan { digest, bucket_dir, target, temp }
    }

    /// The first step of every put.
    pub fn first_put_step() -> (r: PutStep)
        ensures
            r == PutStep::CheckTarget,
    {
        PutStep::CheckTarget
    }

    /// The step that follows a step and the file system's answer to it.
    pub fn next_put_step(step: PutStep, event: PutEvent) -> (r: PutStep)
        ensures
            r == step_after(step, event),
    {
        match (step, event) {
            (PutStep::CheckTarget, PutEvent::TargetExists(true)) => PutStep::Done,
            (PutStep::CheckTarget, PutEvent::TargetExists(false)) => PutStep::CreateBucket,
            (PutStep::CreateBucket, PutEvent::BucketCreated(true)) => PutStep::WriteTemp,
            (PutStep::WriteTemp, PutEvent::TempWritten(true)) => PutStep::Rename,
            (PutStep::Rename, PutEvent::Renamed(true)) => PutStep::Done,
            (PutStep::Rename, PutEvent::Renamed(false)) => PutStep::RecheckTarget,
            (PutStep::RecheckTarget, PutEvent::TargetExists(true)) => PutStep::Done,
            (PutStep::Done, _) => PutStep::Done,
            _ => PutStep::Failed,
        }
    }
}

} // verus!
