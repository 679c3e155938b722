//! Snapshot records and the operations over a catalog of them: listing,
//! showing, and diffing two records by their file lists.

use vstd::prelude::*;
use vstd::string::*;
use crate::text::{chars_of, decimal, decimal_of, less_than, string_of, text_lt, texts};

verus! {

/// One file of a snapshot: its path relative to the ingestion root, and the
/// digest of its content.
#[derive(Debug, Clone, PartialEq, Eq)]
pub struct FileEntry {
    pub path: String,
    pub hash: String,
}

/// The durable record of one ingestion.
#[derive(Debug, Clone)]
pub struct SnapshotMeta {
    pub root: String,
    pub total_files: usize,
    pub total_bytes: u64,
    pub timestamp: String,
    pub user: Option<String>,
    pub message: Option<String>,
    pub files: Vec<FileEntry>,
}

/// The present moment as an RFC 3339 timestamp.
///
/// Trusted: `chrono::Utc::now` and `DateTime::to_rfc3339`. The result
/// depends on the clock, so nothing is stated of it.
#[verifier::external_body]
fn now_rfc3339() -> String {
    chrono::Utc::now().to_rfc3339()
}

impl SnapshotMeta {
    /// A record with every field given.
    pub fn stamped(
        root: String,
        total_files: usize,
        total_bytes: u64,
        timestamp: String,
        user: Option<String>,
        message: Option<String>,
        files: Vec<FileEntry>,
    ) -> (r: Self)
        ensures
            r.root == root,
            r.total_files == total_files,
            r.total_bytes == total_bytes,
            r.timestamp == timestamp,
            r.user == user,
            r.message == message,
            r.files == files,
    {
        SnapshotMeta { root, total_files, total_bytes, timestamp, user, message, files }
    }

    /// A record without files, stamped with the present moment.
    pub fn new(
        root: String,
        total_files: usize,
        total_bytes: u64,
        user: Option<String>,
        message: Option<String>,
    ) -> (r: Self)
        ensures
            r.root == root,
            r.total_files == total_files,
            r.total_bytes == total_bytes,
            r.user == user,
            r.message == message,
            r.files@.len() == 0,
    {
        Self::stamped(root, total_files, total_bytes, now_rfc3339(), user, message, Vec::new())
    }

    /// A record with the given files, stamped with the present moment.
    pub fn with_files(
        root: String,
        total_files: usize,
        total_bytes: u64,
        files: Vec<FileEntry>,
        user: Option<String>,
        message: Option<String>,
    ) -> (r: Self)
        ensures
            r.root == root,
            r.total_files == total_files,
            r.total_bytes == total_bytes,
            r.user == user,
            r.message == message,
            r.files == files,
    {
        Self::stamped(root, total_files, total_bytes, now_rfc3339(), user, message, files)
    }
}

/// The line that lists one record: root, file count, byte count.
pub open spec fn listing_line(m: SnapshotMeta) -> Seq<char> {
    m.root@ + " "@ + decimal(m.total_files as nat) + " files "@ + decimal(m.total_bytes as nat)
        + " bytes"@
}

/// `sorted` with `x` put behind every record that is not older than it.
pub open spec fn place_by_time(sorted: Seq<SnapshotMeta>, x: SnapshotMeta) -> Seq<SnapshotMeta>
    decreases sorted.len(),
{
    if sorted.len() == 0 {
        seq![x]
    } else if text_lt(sorted.last().timestamp@, x.timestamp@) {
        place_by_time(sorted.drop_last(), x).push(sorted.last())
    } else {
        sorted.push(x)
    }
}

/// The records ordered by timestamp, newest first; records with the same
/// timestamp keep the order in which they were given.
pub open spec fn newest_first(s: Seq<SnapshotMeta>) -> Seq<SnapshotMeta>
    decreases s.len(),
{
    if s.len() == 0 {
        Seq::empty()
    } else {
        place_by_time(newest_first(s.drop_last()), s.last())
    }
}

/// No record stands before a newer one.
pub open spec fn ordered_by_time(s: Seq<SnapshotMeta>) -> bool {
    forall|i: int, j: int|
        0 <= i < j < s.len() ==> !text_lt((#[trigger] s[i]).timestamp@, (#[trigger] s[j]).timestamp@)
}

pub proof fn lemma_place_by_time(sorted: Seq<SnapshotMeta>, x: SnapshotMeta)
    requires
        ordered_by_time(sorted),
    ensures
        ordered_by_time(place_by_time(sorted, x)),
        place_by_time(sorted, x).to_multiset() == sorted.to_multiset().insert(x),
        place_by_time(sorted, x).len() == sorted.len() + 1,
    decreases sorted.len(),
{
    broadcast use vstd::seq_lib::group_to_multiset_ensures;

    if sorted.len() == 0 {
        assert(seq![x] =~= Seq::<SnapshotMeta>::empty().push(x));
    } else if text_lt(sorted.last().timestamp@, x.timestamp@) {
        let front = sorted.drop_last();
        let last = sorted.last();
        assert(ordered_by_time(front)) by {
            assert forall|i: int, j: int| 0 <= i < j < front.len() implies !text_lt(
                (#[trigger] front[i]).timestamp@,
                (#[trigger] front[j]).timestamp@,
            ) by {
                assert(front[i] == sorted[i] && front[j] == sorted[j]);
            }
        }
        lemma_place_by_time(front, x);
        let placed = place_by_time(front, x);
        let r = placed.push(last);
        assert(sorted =~= front.push(last));
        assert(r.to_multiset() =~= sorted.to_multiset().insert(x));
        assert forall|i: int, j: int| 0 <= i < j < r.len() implies !text_lt(
            (#[trigger] r[i]).timestamp@,
            (#[trigger] r[j]).timestamp@,
        ) by {
            if j < placed.len() {
                assert(r[i] == placed[i] && r[j] == placed[j]);
            } else {
                // `r[i]` is `x` or a record of `front`; `last` is newer than neither.
                assert(r[i] == placed[i]);
                assert(placed.to_multiset().count(placed[i]) > 0);
                if placed[i] == x {
                    crate::text::lemma_text_lt_asymmetric(last.timestamp@, x.timestamp@);
                } else {
                    assert(front.to_multiset().count(placed[i]) > 0);
                    assert(front.contains(placed[i]));
                    let k = choose|k: int| 0 <= k < front.len() && front[k] == placed[i];
                    assert(sorted[k] == placed[i]);
                    assert(!text_lt(sorted[k].timestamp@, sorted[sorted.len() - 1].timestamp@));
                }
            }
        }
    } else {
        let r = sorted.push(x);
        assert forall|i: int, j: int| 0 <= i < j < r.len() implies !text_lt(
            (#[trigger] r[i]).timestamp@,
            (#[trigger] r[j]).timestamp@,
        ) by {
            if j < sorted.len() {
                assert(r[i] == sorted[i] && r[j] == sorted[j]);
            } else {
                assert(r[i] == sorted[i]);
                if i < sorted.len() - 1 {
                    assert(!text_lt(sorted[i].timestamp@, sorted[sorted.len() - 1].timestamp@));
                    if text_lt(sorted[i].timestamp@, x.timestamp@) {
                        crate::text::lemma_text_lt_total(
                            sorted.last().timestamp@,
                            x.timestamp@,
                        );
                        if sorted.last().timestamp@ == x.timestamp@ {
                        } else {
                            crate::text::lemma_text_lt_total(
                                sorted[i].timestamp@,
                                sorted.last().timestamp@,
                            );
                            if sorted[i].timestamp@ != sorted.last().timestamp@ {
                                crate::text::lemma_text_lt_transitive(
                                    x.timestamp@,
                                    sorted.last().timestamp@,
                                    sorted[i].timestamp@,
                                );
                                crate::text::lemma_text_lt_asymmetric(
                                    x.timestamp@,
                                    sorted[i].timestamp@,
                                );
                            }
                        }
                    }
                }
            }
        }
    }
}

/// Listing order holds the given records, each as often as given, and no
/// record before a newer one.
pub proof fn lemma_newest_first(s: Seq<SnapshotMeta>)
    ensures
        ordered_by_time(newest_first(s)),
        newest_first(s).to_multiset() == s.to_multiset(),
        newest_first(s).len() == s.len(),
    decreases s.len(),
{
    broadcast use vstd::seq_lib::group_to_multiset_ensures;

    if s.len() == 0 {
        assert(newest_first(s).to_multiset() =~= s.to_multiset());
    } else {
        lemma_newest_first(s.drop_last());
        lemma_place_by_time(newest_first(s.drop_last()), s.last());
        assert(s =~= s.drop_last().push(s.last()));
    }
}

/// The positions of `entries` in listing order.
pub fn order_newest_first(entries: &Vec<SnapshotMeta>) -> (order: Vec<usize>)
    ensures
        order@.len() == entries@.len(),
        forall|k: int| 0 <= k < order@.len() ==> (#[trigger] order@[k]) < entries@.len(),
        order@.map_values(|i: usize| entries@[i as int]) == newest_first(entries@),
{
    let mut order: Vec<usize> = Vec::new();
    let mut n: usize = 0;
    while n < entries.len()
        invariant
            n <= entries.len(),
            order@.len() == n,
            forall|k: int| 0 <= k < order@.len() ==> (#[trigger] order@[k]) < entries@.len(),
            order@.map_values(|i: usize| entries@[i as int]) == newest_first(entries@.take(n as int)),
        decreases entries.len() - n,
    {
        let ghost before = order@.map_values(|i: usize| entries@[i as int]);
        let stamp = chars_of(entries[n].timestamp.as_str());
        // Walk back over the records that are older than the new one.
        let mut pos: usize = order.len();
        proof {
            assert(before.take(order@.len() as int) =~= before);
            assert(before.skip(order@.len() as int) =~= Seq::<SnapshotMeta>::empty());
            assert(place_by_time(before, entries@[n as int]) + Seq::<SnapshotMeta>::empty()
                =~= place_by_time(before, entries@[n as int]));
        }
        while pos > 0 && less_than(
            chars_of(entries[order[pos - 1]].timestamp.as_str()).as_slice(),
            stamp.as_slice(),
        )
            invariant
                pos <= order.len(),
                n < entries.len(),
                stamp@ == entries@[n as int].timestamp@,
                before == order@.map_values(|i: usize| entries@[i as int]),
                forall|k: int| 0 <= k < order@.len() ==> (#[trigger] order@[k]) < entries@.len(),
                place_by_time(before, entries@[n as int]) == place_by_time(
                    before.take(pos as int),
                    entries@[n as int],
                ) + before.skip(pos as int),
            decreases pos,
        {
            proof {
                let head = before.take(pos as int);
                assert(head.last() == before[pos - 1]);
                assert(head.drop_last() =~= before.take(pos - 1));
                assert(place_by_time(before.take(pos - 1), entries@[n as int]).push(head.last())
                    + before.skip(pos as int) =~= place_by_time(
                    before.take(pos - 1),
                    entries@[n as int],
                ) + before.skip(pos - 1));
            }
            pos -= 1;
        }
        proof {
            assert(before.take(0) =~= Seq::<SnapshotMeta>::empty());
            let head = before.take(pos as int);
            if pos > 0 {
                assert(head.last() == before[pos - 1]);
            }
            assert(place_by_time(head, entries@[n as int]) == head.push(entries@[n as int]));
            assert(order@.insert(pos as int, n).map_values(|i: usize| entries@[i as int])
                =~= head.push(entries@[n as int]) + before.skip(pos as int));
            assert(entries@.take(n + 1).drop_last() =~= entries@.take(n as int));
        }
        order.insert(pos, n);
        n += 1;
    }
    assert(entries@.take(entries@.len() as int) =~= entries@);
    order
}

/// Formats the listing line of one record.
pub fn format_listing_line(m: &SnapshotMeta) -> (r: String)
    ensures
        r@ == listing_line(*m),
{
    let mut line = m.root.clone();
    line.append(" ");
    line.append(string_of(decimal_of(m.total_files as u64).as_slice()).as_str());
    line.append(" files ");
    line.append(string_of(decimal_of(m.total_bytes).as_slice()).as_str());
    line.append(" bytes");
    line
}

/// How many records a listing shows: all of them, or the first `limit`.
pub open spec fn shown_count(len: nat, limit: Option<usize>) -> nat {
    match limit {
        Some(n) => if (n as nat) < len {
            n as nat
        } else {
            len
        },
        None => len,
    }
}

/// The listing of a catalog: one line per record, newest first, cut at `limit`.
pub fn list_lines(entries: &Vec<SnapshotMeta>, limit: Option<usize>) -> (lines: Vec<String>)
    ensures
        texts(lines@) == newest_first(entries@).take(
            shown_count(entries@.len(), limit) as int,
        ).map_values(|m: SnapshotMeta| listing_line(m)),
{
    let order = order_newest_first(entries);
    let count: usize = match limit {
        Some(n) => if n < order.len() {
            n
        } else {
            order.len()
        },
        None => order.len(),
    };
    let ghost sorted = newest_first(entries@);
    let mut lines: Vec<String> = Vec::new();
    let mut k: usize = 0;
    while k < count
        invariant
            k <= count <= order@.len(),
            order@.len() == entries@.len(),
            forall|x: int| 0 <= x < order@.len() ==> (#[trigger] order@[x]) < entries@.len(),
            order@.map_values(|i: usize| entries@[i as int]) == sorted,
            texts(lines@) == sorted.take(k as int).map_values(|m: SnapshotMeta| listing_line(m)),
        decreases count - k,
    {
        let line = format_listing_line(&entries[order[k]]);
        proof {
            assert(sorted[k as int] == entries@[order@[k as int] as int]);
            let done = sorted.take(k as int).map_values(|m: SnapshotMeta| listing_line(m));
            let next = sorted.take(k + 1).map_values(|m: SnapshotMeta| listing_line(m));
            let grown = texts(lines@.push(line));
            assert(sorted.len() == order@.len());
            assert(texts(lines@).len() == lines@.len());
            assert(done.len() == k);
            assert(grown.len() == next.len());
            assert forall|x: int| 0 <= x < grown.len() implies grown[x] == next[x] by {
                if x < k {
                    assert(grown[x] == texts(lines@)[x]);
                    assert(done[x] == listing_line(sorted.take(k as int)[x]));
                    assert(next[x] == listing_line(sorted.take(k + 1)[x]));
                } else {
                    assert(next[x] == listing_line(sorted.take(k + 1)[x]));
                }
            }
            assert(grown =~= next);
        }
        lines.push(line);
        k += 1;
    }
    lines
}

/// The labelled lines that show one record.
pub open spec fn shown_lines(m: SnapshotMeta) -> Seq<Seq<char>> {
    seq![
        "root: "@ + m.root@,
        "total_files: "@ + decimal(m.total_files as nat),
        "total_bytes: "@ + decimal(m.total_bytes as nat),
        "timestamp: "@ + m.timestamp@,
    ] + (match m.user {
        Some(u) => seq!["user: "@ + u@],
        None => Seq::empty(),
    }) + (match m.message {
        Some(t) => seq!["message: "@ + t@],
        None => Seq::empty(),
    })
}

/// Shows one record: root, counts and timestamp, then user and message where
/// the record has them.
pub fn show_lines(m: &SnapshotMeta) -> (lines: Vec<String>)
    ensures
        texts(lines@) == shown_lines(*m),
{
    let mut lines: Vec<String> = Vec::new();
    lines.push(String::from_str("root: ").concat(m.root.as_str()));
    lines.push(
        String::from_str("total_files: ").concat(
            string_of(decimal_of(m.total_files as u64).as_slice()).as_str(),
        ),
    );
    lines.push(
        String::from_str("total_bytes: ").concat(
            string_of(decimal_of(m.total_bytes).as_slice()).as_str(),
        ),
    );
    lines.push(String::from_str("timestamp: ").concat(m.timestamp.as_str()));
    match &m.user {
        Some(u) => {
            lines.push(String::from_str("user: ").concat(u.as_str()));
        },
        None => {},
    }
    match &m.message {
        Some(t) => {
            lines.push(String::from_str("message: ").concat(t.as_str()));
        },
        None => {},
    }
    assert(texts(lines@) =~= shown_lines(*m));
    lines
}


/// The digest recorded for each path of a file list. Where a path occurs
/// more than once, its last occurrence counts.
pub open spec fn file_map(files: Seq<FileEntry>) -> Map<Seq<char>, Seq<char>>
    decreases files.len(),
{
    if files.len() == 0 {
        Map::empty()
    } else {
        file_map(files.drop_last()).insert(files.last().path@, files.last().hash@)
    }
}

/// The paths that only the second record holds.
pub open spec fn added_paths(m1: Map<Seq<char>, Seq<char>>, m2: Map<Seq<char>, Seq<char>>) -> Set<
    Seq<char>,
> {
    Set::new(|p: Seq<char>| m2.dom().contains(p) && !m1.dom().contains(p))
}

/// The paths that only the first record holds.
pub open spec fn removed_paths(
    m1: Map<Seq<char>, Seq<char>>,
    m2: Map<Seq<char>, Seq<char>>,
) -> Set<Seq<char>> {
    Set::new(|p: Seq<char>| m1.dom().contains(p) && !m2.dom().contains(p))
}

/// The paths that both records hold, with different digests.
pub open spec fn changed_paths(
    m1: Map<Seq<char>, Seq<char>>,
    m2: Map<Seq<char>, Seq<char>>,
) -> Set<Seq<char>> {
    Set::new(|p: Seq<char>| m1.dom().contains(p) && m2.dom().contains(p) && m1[p] != m2[p])
}

/// The paths that both records hold, with the same digest.
pub open spec fn unchanged_paths(
    m1: Map<Seq<char>, Seq<char>>,
    m2: Map<Seq<char>, Seq<char>>,
) -> Set<Seq<char>> {
    Set::new(|p: Seq<char>| m1.dom().contains(p) && m2.dom().contains(p) && m1[p] == m2[p])
}

/// The four classes of a diff are pairwise disjoint, and together they are
/// the paths of the two records.
pub proof fn lemma_diff_partitions_paths(
    m1: Map<Seq<char>, Seq<char>>,
    m2: Map<Seq<char>, Seq<char>>,
)
    ensures
        added_paths(m1, m2).union(removed_paths(m1, m2)).union(changed_paths(m1, m2)).union(
            unchanged_paths(m1, m2),
        ) == m1.dom().union(m2.dom()),
        added_paths(m1, m2).disjoint(removed_paths(m1, m2)),
        added_paths(m1, m2).disjoint(changed_paths(m1, m2)),
        added_paths(m1, m2).disjoint(unchanged_paths(m1, m2)),
        removed_paths(m1, m2).disjoint(changed_paths(m1, m2)),
        removed_paths(m1, m2).disjoint(unchanged_paths(m1, m2)),
        changed_paths(m1, m2).disjoint(unchanged_paths(m1, m2)),
{
    assert(added_paths(m1, m2).union(removed_paths(m1, m2)).union(changed_paths(m1, m2)).union(
        unchanged_paths(m1, m2),
    ) =~= m1.dom().union(m2.dom()));
}

/// A path is in the map of a file list exactly when some entry has it.
pub proof fn lemma_file_map_dom(files: Seq<FileEntry>, p: Seq<char>)
    ensures
        file_map(files).dom().contains(p) <==> exists|k: int|
            0 <= k < files.len() && (#[trigger] files[k]).path@ == p,
    decreases files.len(),
{
    if files.len() > 0 {
        let front = files.drop_last();
        lemma_file_map_dom(front, p);
        if file_map(files).dom().contains(p) {
            if files.last().path@ == p {
                assert(files[files.len() - 1].path@ == p);
            } else {
                let k = choose|k: int| 0 <= k < front.len() && (#[trigger] front[k]).path@ == p;
                assert(files[k].path@ == p);
            }
        }
        if exists|k: int| 0 <= k < files.len() && (#[trigger] files[k]).path@ == p {
            let k = choose|k: int| 0 <= k < files.len() && (#[trigger] files[k]).path@ == p;
            if k < front.len() {
                assert(front[k].path@ == p);
            }
        }
    }
}

proof fn lemma_push_contains<T>(s: Seq<T>, x: T, p: T)
    ensures
        s.push(x).contains(p) <==> (s.contains(p) || x == p),
{
    let t = s.push(x);
    if t.contains(p) {
        let k = choose|k: int| 0 <= k < t.len() && t[k] == p;
        if k < s.len() {
            assert(s[k] == p);
        }
    }
    if s.contains(p) {
        let k = choose|k: int| 0 <= k < s.len() && s[k] == p;
        assert(t[k] == p);
    }
    if x == p {
        assert(t[s.len() as int] == p);
    }
}

/// The paths of the entries before position `j`.
pub open spec fn path_before(files: Seq<FileEntry>, j: int, p: Seq<char>) -> bool {
    exists|k: int| 0 <= k < j && k < files.len() && (#[trigger] files[k]).path@ == p
}

/// The digest that a file list records for a path, if any.
pub fn last_digest<'a>(files: &'a Vec<FileEntry>, path: &String) -> (r: Option<&'a String>)
    ensures
        match r {
            Some(d) => file_map(files@).dom().contains(path@) && file_map(files@)[path@] == d@,
            None => !file_map(files@).dom().contains(path@),
        },
{
    let mut found: Option<&'a String> = None;
    let mut k: usize = 0;
    while k < files.len()
        invariant
            k <= files.len(),
            match found {
                Some(d) => file_map(files@.take(k as int)).dom().contains(path@) && file_map(
                    files@.take(k as int),
                )[path@] == d@,
                None => !file_map(files@.take(k as int)).dom().contains(path@),
            },
        decreases files.len() - k,
    {
        proof {
            assert(files@.take(k + 1).drop_last() =~= files@.take(k as int));
        }
        if files[k].path == *path {
            found = Some(&files[k].hash);
        }
        k += 1;
    }
    assert(files@.take(files@.len() as int) =~= files@);
    found
}

/// Whether the path at position `j` occurs at an earlier position too.
fn seen_before(files: &Vec<FileEntry>, j: usize) -> (r: bool)
    requires
        j < files.len(),
    ensures
        r == path_before(files@, j as int, files@[j as int].path@),
{
    let mut k: usize = 0;
    while k < j
        invariant
            k <= j < files.len(),
            !path_before(files@, k as int, files@[j as int].path@),
        decreases j - k,
    {
        if files[k].path == files[j].path {
            assert(files@[k as int].path@ == files@[j as int].path@);
            return true;
        }
        assert forall|x: int| 0 <= x < k + 1 && x < files@.len() implies (#[trigger] files@[x]).path@
            != files@[j as int].path@ by {
            if x < k {
                assert(!path_before(files@, k as int, files@[j as int].path@));
            }
        }
        k += 1;
    }
    false
}

/// The diff of two snapshot records by path.
#[derive(Debug, Clone, PartialEq, Eq)]
pub struct SnapshotDiff {
    pub added: Vec<String>,
    pub removed: Vec<String>,
    pub changed: Vec<String>,
    pub unchanged: Vec<String>,
}

/// The paths of the second file list that the first does not hold, each once,
/// in the order of their first occurrence.
fn paths_absent_from(files: &Vec<FileEntry>, other: &Vec<FileEntry>) -> (out: Vec<String>)
    ensures
        texts(out@).no_duplicates(),
        forall|p: Seq<char>|
            texts(out@).contains(p) <==> file_map(files@).dom().contains(p) && !file_map(
                other@,
            ).dom().contains(p),
{
    let mut out: Vec<String> = Vec::new();
    let mut j: usize = 0;
    while j < files.len()
        invariant
            j <= files.len(),
            texts(out@).no_duplicates(),
            forall|p: Seq<char>|
                texts(out@).contains(p) <==> path_before(files@, j as int, p) && !file_map(
                    other@,
                ).dom().contains(p),
        decreases files.len() - j,
    {
        let ghost here = files@[j as int].path@;
        let ghost prior = texts(out@);
        let fresh = !seen_before(files, j) && last_digest(other, &files[j].path).is_none();
        if fresh {
            out.push(files[j].path.clone());
            assert(texts(out@) =~= prior.push(here));
            assert(!prior.contains(here));
        }
        proof {
            assert forall|p: Seq<char>| texts(out@).contains(p) <==> path_before(
                files@,
                j + 1,
                p,
            ) && !file_map(other@).dom().contains(p) by {
                lemma_push_contains(prior, here, p);
                if path_before(files@, j + 1, p) {
                    let k = choose|k: int|
                        0 <= k < j + 1 && k < files@.len() && (#[trigger] files@[k]).path@ == p;
                    if k < j {
                        assert(path_before(files@, j as int, p));
                    }
                }
                if path_before(files@, j as int, p) {
                    let k = choose|k: int|
                        0 <= k < j && k < files@.len() && (#[trigger] files@[k]).path@ == p;
                    assert(files@[k].path@ == p);
                }
                if p == here {
                    assert(files@[j as int].path@ == p);
                }
            }
        }
        j += 1;
    }
    proof {
        assert forall|p: Seq<char>| path_before(files@, files@.len() as int, p) <==> file_map(
            files@,
        ).dom().contains(p) by {
            lemma_file_map_dom(files@, p);
            if path_before(files@, files@.len() as int, p) {
                let k = choose|k: int|
                    0 <= k < files@.len() && k < files@.len() && (#[trigger] files@[k]).path@ == p;
                assert(files@[k].path@ == p);
            }
            if file_map(files@).dom().contains(p) {
                let k = choose|k: int| 0 <= k < files@.len() && (#[trigger] files@[k]).path@ == p;
                assert(files@[k].path@ == p);
            }
        }
    }
    out
}

/// The paths that both file lists hold, each once, in the order of their
/// first occurrence in the first list: those whose digests are equal when
/// `equal` is set, those whose digests differ otherwise.
fn paths_in_both(files: &Vec<FileEntry>, other: &Vec<FileEntry>, equal: bool) -> (out: Vec<String>)
    ensures
        texts(out@).no_duplicates(),
        forall|p: Seq<char>|
            texts(out@).contains(p) <==> file_map(files@).dom().contains(p) && file_map(
                other@,
            ).dom().contains(p) && (file_map(files@)[p] == file_map(other@)[p]) == equal,
{
    let mut out: Vec<String> = Vec::new();
    let mut j: usize = 0;
    while j < files.len()
        invariant
            j <= files.len(),
            texts(out@).no_duplicates(),
            forall|p: Seq<char>|
                texts(out@).contains(p) <==> path_before(files@, j as int, p) && file_map(
                    other@,
                ).dom().contains(p) && (file_map(files@)[p] == file_map(other@)[p]) == equal,
        decreases files.len() - j,
    {
        let ghost here = files@[j as int].path@;
        let ghost prior = texts(out@);
        let mut fresh: bool = false;
        if !seen_before(files, j) {
            match last_digest(other, &files[j].path) {
                Some(theirs) => {
                    match last_digest(files, &files[j].path) {
                        Some(ours) => {
                            fresh = (*ours == *theirs) == equal;
                        },
                        None => {},
                    }
                },
                None => {},
            }
        }
        proof {
            lemma_file_map_dom(files@, here);
            assert(files@[j as int].path@ == here);
        }
        if fresh {
            out.push(files[j].path.clone());
            assert(texts(out@) =~= prior.push(here));
            assert(!prior.contains(here));
        }
        proof {
            assert forall|p: Seq<char>| texts(out@).contains(p) <==> path_before(
                files@,
                j + 1,
                p,
            ) && file_map(other@).dom().contains(p) && (file_map(files@)[p] == file_map(
                other@,
            )[p]) == equal by {
                lemma_push_contains(prior, here, p);
                if path_before(files@, j + 1, p) {
                    let k = choose|k: int|
                        0 <= k < j + 1 && k < files@.len() && (#[trigger] files@[k]).path@ == p;
                    if k < j {
                        assert(path_before(files@, j as int, p));
                    }
                }
                if path_before(files@, j as int, p) {
                    let k = choose|k: int|
                        0 <= k < j && k < files@.len() && (#[trigger] files@[k]).path@ == p;
                    assert(files@[k].path@ == p);
                }
                if p == here {
                    assert(files@[j as int].path@ == p);
                }
            }
        }
        j += 1;
    }
    proof {
        assert forall|p: Seq<char>| path_before(files@, files@.len() as int, p) <==> file_map(
            files@,
        ).dom().contains(p) by {
            lemma_file_map_dom(files@, p);
            if path_before(files@, files@.len() as int, p) {
                let k = choose|k: int|
                    0 <= k < files@.len() && k < files@.len() && (#[trigger] files@[k]).path@ == p;
                assert(files@[k].path@ == p);
            }
            if file_map(files@).dom().contains(p) {
                let k = choose|k: int| 0 <= k < files@.len() && (#[trigger] files@[k]).path@ == p;
                assert(files@[k].path@ == p);
            }
        }
    }
    out
}

/// Diffs two file lists by path: what the second adds, what it removes, what
/// it changes, and what it leaves as it was. No path is listed twice.
pub fn diff_files(from: &Vec<FileEntry>, to: &Vec<FileEntry>) -> (d: SnapshotDiff)
    ensures
        texts(d.added@).no_duplicates(),
        texts(d.removed@).no_duplicates(),
        texts(d.changed@).no_duplicates(),
        texts(d.unchanged@).no_duplicates(),
        forall|p: Seq<char>|
            texts(d.added@).contains(p) <==> added_paths(file_map(from@), file_map(to@)).contains(
                p,
            ),
        forall|p: Seq<char>|
            texts(d.removed@).contains(p) <==> removed_paths(
                file_map(from@),
                file_map(to@),
            ).contains(p),
        forall|p: Seq<char>|
            texts(d.changed@).contains(p) <==> changed_paths(
                file_map(from@),
                file_map(to@),
            ).contains(p),
        forall|p: Seq<char>|
            texts(d.unchanged@).contains(p) <==> unchanged_paths(
                file_map(from@),
                file_map(to@),
            ).contains(p),
{
    let added = paths_absent_from(to, from);
    let removed = paths_absent_from(from, to);
    let changed = paths_in_both(from, to, false);
    let unchanged = paths_in_both(from, to, true);
    SnapshotDiff { added, removed, changed, unchanged }
}

/// The three labelled sections of a diff report, in order: added, removed,
/// changed, each path on a line of its own.
pub open spec fn diff_report(d: SnapshotDiff) -> Seq<Seq<char>> {
    seq!["Added:"@] + texts(d.added@) + seq!["Removed:"@] + texts(d.removed@) + seq!["Changed:"@]
        + texts(d.changed@)
}

/// The lines of a diff report.
pub fn diff_lines(d: &SnapshotDiff) -> (lines: Vec<String>)
    ensures
        texts(lines@) == diff_report(*d),
{
    let mut lines: Vec<String> = Vec::new();
    lines.push(String::from_str("Added:"));
    let ghost base1 = texts(lines@);
    let mut i: usize = 0;
    while i < d.added.len()
        invariant
            i <= d.added.len(),
            texts(lines@) == base1 + texts(d.added@).take(i as int),
        decreases d.added.len() - i,
    {
        let ghost prior = texts(lines@);
        lines.push(d.added[i].clone());
        assert(texts(lines@) =~= prior.push(d.added@[i as int]@));
        assert(texts(lines@) =~= base1 + texts(d.added@).take(i + 1));
        i += 1;
    }
    assert(texts(d.added@).take(d.added@.len() as int) =~= texts(d.added@));
    let ghost prior = texts(lines@);
    lines.push(String::from_str("Removed:"));
    assert(texts(lines@) =~= prior.push("Removed:"@));
    let ghost base2 = texts(lines@);
    i = 0;
    while i < d.removed.len()
        invariant
            i <= d.removed.len(),
            texts(lines@) == base2 + texts(d.removed@).take(i as int),
        decreases d.removed.len() - i,
    {
        let ghost prior = texts(lines@);
        lines.push(d.removed[i].clone());
        assert(texts(lines@) =~= prior.push(d.removed@[i as int]@));
        assert(texts(lines@) =~= base2 + texts(d.removed@).take(i + 1));
        i += 1;
    }
    assert(texts(d.removed@).take(d.removed@.len() as int) =~= texts(d.removed@));
    let ghost prior = texts(lines@);
    lines.push(String::from_str("Changed:"));
    assert(texts(lines@) =~= prior.push("Changed:"@));
    let ghost base3 = texts(lines@);
    i = 0;
    while i < d.changed.len()
        invariant
            i <= d.changed.len(),
            texts(lines@) == base3 + texts(d.changed@).take(i as int),
        decreases d.changed.len() - i,
    {
        let ghost prior = texts(lines@);
        lines.push(d.changed[i].clone());
        assert(texts(lines@) =~= prior.push(d.changed@[i as int]@));
        assert(texts(lines@) =~= base3 + texts(d.changed@).take(i + 1));
        i += 1;
    }
    assert(texts(d.changed@).take(d.changed@.len() as int) =~= texts(d.changed@));
    assert(texts(lines@) =~= diff_report(*d));
    lines
}

} // verus!
