//! Fingerprint store, tree scanner and conflict resolver.
//!
//! A `FileManager` owns the fingerprint table of one sync root: the
//! most recently known identity record per relative path.  A full scan
//! rebuilds it from the entries found under the root; single-path
//! updates keep it current afterwards.  `handle_conflict` is the
//! deterministic last-writer-wins policy applied when two replicas
//! diverge on one path.

use vstd::prelude::*;

verus! {

use crate::hashing::{content_hash, sha256_hex_of};
use crate::paths::{check_path, path_safe};
use crate::text::{lex_gt, str_eq, str_lex_gt};

/// Identity record for one file, relative to a sync root.
///
/// `hash` is the authoritative equality test: two records with equal
/// hash carry the same content regardless of timestamp.  The record is
/// only valid for the content observed when it was computed.
pub struct FileInfo {
    /// Relative path, slash-separated, unique key within a root.
    pub path: String,
    /// Last-modification timestamp by the device-local clock.
    pub last_modified: u64,
    /// Byte length at fingerprinting time.
    pub size: u64,
    /// SHA-256 of the full content, as 64 lowercase hex characters.
    pub hash: String,
}

/// The mathematical content of a `FileInfo`.
pub struct FileInfoView {
    pub path: Seq<char>,
    pub last_modified: u64,
    pub size: u64,
    pub hash: Seq<char>,
}

impl View for FileInfo {
    type V = FileInfoView;

    open spec fn view(&self) -> FileInfoView {
        FileInfoView {
            path: self.path@,
            last_modified: self.last_modified,
            size: self.size,
            hash: self.hash@,
        }
    }
}

impl Clone for FileInfo {
    fn clone(&self) -> (r: Self)
        ensures
            r@ == self@,
    {
        FileInfo {
            path: self.path.clone(),
            last_modified: self.last_modified,
            size: self.size,
            hash: self.hash.clone(),
        }
    }
}

/// The winner between two fingerprints of the same relative path: the
/// later writer; on equal timestamps, the lexicographically greater
/// hash, so both devices decide alike without coordination.  On equal
/// timestamps and equal hashes the contents agree and the remote
/// record is returned.
pub open spec fn resolve_spec(local: FileInfoView, remote: FileInfoView) -> FileInfoView {
    if local.last_modified > remote.last_modified {
        local
    } else if remote.last_modified > local.last_modified {
        remote
    } else if lex_gt(local.hash, remote.hash) {
        local
    } else {
        remote
    }
}

/// Conflict resolution is order-independent: two devices resolving the
/// same divergent pair reach the same decision whichever side they
/// call "local".  The records must differ in timestamp or in hash, or
/// be the same record: two distinct records with equal timestamp and
/// equal hash carry the same content, and either side may keep its
/// own.
pub proof fn lemma_resolve_commutative(a: FileInfoView, b: FileInfoView)
    requires
        a.last_modified != b.last_modified || a.hash != b.hash || a == b,
    ensures
        resolve_spec(a, b) == resolve_spec(b, a),
{
    if a.last_modified == b.last_modified && a.hash != b.hash {
        crate::text::lemma_lex_gt_trichotomy(a.hash, b.hash);
    }
}

/// Whichever side a record is called, the surviving content is the
/// same: the winning hash never depends on which replica resolves.
pub proof fn lemma_resolve_content_symmetric(a: FileInfoView, b: FileInfoView)
    ensures
        resolve_spec(a, b).hash == resolve_spec(b, a).hash,
{
    if a.last_modified == b.last_modified && a.hash != b.hash {
        crate::text::lemma_lex_gt_trichotomy(a.hash, b.hash);
    }
}

/// One file found while walking a sync root, as the application hands
/// it to the scanner: the relative path, the modification timestamp,
/// and the full content, or `None` where the file could not be read.
pub struct ScanEntry {
    pub path: String,
    pub last_modified: u64,
    pub content: Option<Vec<u8>>,
}

/// The mathematical content of a `ScanEntry`.
pub struct ScanEntryView {
    pub path: Seq<char>,
    pub last_modified: u64,
    pub content: Option<Seq<u8>>,
}

impl View for ScanEntry {
    type V = ScanEntryView;

    open spec fn view(&self) -> ScanEntryView {
        ScanEntryView {
            path: self.path@,
            last_modified: self.last_modified,
            content: match self.content {
                Some(c) => Some(c@),
                None => None,
            },
        }
    }
}

/// An entry the scanner accepts: its content was readable and its
/// path is a safe relative path.
pub open spec fn entry_ok(e: ScanEntryView) -> bool {
    &&& e.content is Some
    &&& path_safe(e.path)
}

/// The fingerprint computed for an accepted entry.
pub open spec fn fingerprint_of(e: ScanEntryView) -> FileInfoView {
    FileInfoView {
        path: e.path,
        last_modified: e.last_modified,
        size: e.content->0.len() as u64,
        hash: sha256_hex_of(e.content->0),
    }
}

/// Fingerprints of the accepted entries, in scan order.
pub open spec fn scan_fingerprints(entries: Seq<ScanEntryView>) -> Seq<FileInfoView>
    decreases entries.len(),
{
    if entries.len() == 0 {
        Seq::empty()
    } else if entry_ok(entries.last()) {
        scan_fingerprints(entries.drop_last()).push(fingerprint_of(entries.last()))
    } else {
        scan_fingerprints(entries.drop_last())
    }
}

/// How many entries the scanner rejected.
pub open spec fn scan_failures(entries: Seq<ScanEntryView>) -> nat
    decreases entries.len(),
{
    if entries.len() == 0 {
        0
    } else if entry_ok(entries.last()) {
        scan_failures(entries.drop_last())
    } else {
        scan_failures(entries.drop_last()) + 1
    }
}

/// The fingerprint table after recording every accepted entry.
pub open spec fn scan_table(
    m: Map<Seq<char>, FileInfoView>,
    entries: Seq<ScanEntryView>,
) -> Map<Seq<char>, FileInfoView>
    decreases entries.len(),
{
    if entries.len() == 0 {
        m
    } else if entry_ok(entries.last()) {
        scan_table(m, entries.drop_last()).insert(
            entries.last().path,
            fingerprint_of(entries.last()),
        )
    } else {
        scan_table(m, entries.drop_last())
    }
}

/// The views of a sequence of fingerprints.
pub open spec fn infos_view(s: Seq<FileInfo>) -> Seq<FileInfoView> {
    s.map_values(|f: FileInfo| f@)
}

/// The views of a sequence of scan entries.
pub open spec fn entries_view(s: Seq<ScanEntry>) -> Seq<ScanEntryView> {
    s.map_values(|e: ScanEntry| e@)
}

/// Result of a full scan: one fingerprint per readable, safely named
/// file, and the count of entries that had to be skipped.
pub struct ScanReport {
    pub fingerprints: Vec<FileInfo>,
    pub failures: u64,
}

/// The fingerprint table as a map, built from an association list.
pub open spec fn pairs_to_map(s: Seq<(String, FileInfo)>) -> Map<Seq<char>, FileInfoView>
    decreases s.len(),
{
    if s.len() == 0 {
        Map::empty()
    } else {
        pairs_to_map(s.drop_last()).insert(s.last().0@, s.last().1@)
    }
}

/// No two slots of the association list carry the same path.
pub open spec fn keys_unique(s: Seq<(String, FileInfo)>) -> bool {
    forall|i: int, j: int| 0 <= i < j < s.len() ==> s[i].0@ != s[j].0@
}

/// A key is in the table exactly when some slot carries it.
proof fn lemma_map_domain(s: Seq<(String, FileInfo)>)
    ensures
        forall|p: Seq<char>|
            pairs_to_map(s).contains_key(p) <==> exists|i: int| 0 <= i < s.len() && s[i].0@ == p,
    decreases s.len(),
{
    if s.len() > 0 {
        lemma_map_domain(s.drop_last());
        assert forall|p: Seq<char>| pairs_to_map(s).contains_key(p) implies exists|i: int|
            0 <= i < s.len() && s[i].0@ == p by {
            if s.last().0@ == p {
                assert(s[s.len() - 1].0@ == p);
            } else {
                assert(pairs_to_map(s.drop_last()).contains_key(p));
                let i = choose|i: int| 0 <= i < s.drop_last().len() && s.drop_last()[i].0@ == p;
                assert(s[i].0@ == p);
            }
        }
        assert forall|p: Seq<char>|
            (exists|i: int| 0 <= i < s.len() && s[i].0@ == p) implies pairs_to_map(
            s,
        ).contains_key(p) by {
            let i = choose|i: int| 0 <= i < s.len() && s[i].0@ == p;
            if i < s.len() - 1 {
                assert(0 <= i < s.drop_last().len() && s.drop_last()[i].0@ == p);
                assert(pairs_to_map(s.drop_last()).contains_key(p));
            } else {
                assert(s.last().0@ == p);
            }
        }
    }
}

/// Under unique keys, the table maps each slot's path to its record.
proof fn lemma_map_at(s: Seq<(String, FileInfo)>, k: int)
    requires
        keys_unique(s),
        0 <= k < s.len(),
    ensures
        pairs_to_map(s).contains_key(s[k].0@),
        pairs_to_map(s)[s[k].0@] == s[k].1@,
    decreases s.len(),
{
    if k < s.len() - 1 {
        assert(keys_unique(s.drop_last()));
        lemma_map_at(s.drop_last(), k);
        assert(s.drop_last()[k] == s[k]);
        assert(s[k].0@ != s.last().0@);
    }
}

/// Replacing one slot's record, path kept, is one table insert.
proof fn lemma_map_update(s: Seq<(String, FileInfo)>, k: int, q: (String, FileInfo))
    requires
        keys_unique(s),
        0 <= k < s.len(),
        q.0@ == s[k].0@,
    ensures
        keys_unique(s.update(k, q)),
        pairs_to_map(s.update(k, q)) == pairs_to_map(s).insert(q.0@, q.1@),
    decreases s.len(),
{
    let t = s.update(k, q);
    if k == s.len() - 1 {
        assert(t.drop_last() =~= s.drop_last());
        assert(pairs_to_map(t) =~= pairs_to_map(s).insert(q.0@, q.1@));
    } else {
        assert(keys_unique(s.drop_last()));
        assert(s.drop_last()[k] == s[k]);
        lemma_map_update(s.drop_last(), k, q);
        assert(t.drop_last() =~= s.drop_last().update(k, q));
        assert(t.last() == s.last());
        assert(s[k].0@ != s.last().0@);
        assert(pairs_to_map(t) =~= pairs_to_map(s).insert(q.0@, q.1@));
    }
}

/// Fingerprint store and tree scanner for one sync root.
pub struct FileManager {
    base_path: String,
    file_cache: Vec<(String, FileInfo)>,
}

impl View for FileManager {
    type V = Map<Seq<char>, FileInfoView>;

    closed spec fn view(&self) -> Map<Seq<char>, FileInfoView> {
        pairs_to_map(self.file_cache@)
    }
}

impl FileManager {
    /// The store's internal invariant: one slot per path.
    pub closed spec fn wf(&self) -> bool {
        keys_unique(self.file_cache@)
    }

    /// The sync root this store belongs to.
    pub closed spec fn base_path_view(&self) -> Seq<char> {
        self.base_path@
    }

    /// An empty store for the given sync root.
    pub fn new(base_path: String) -> (r: FileManager)
        ensures
            r.wf(),
            r@ == Map::<Seq<char>, FileInfoView>::empty(),
            r.base_path_view() == base_path@,
    {
        FileManager { base_path, file_cache: Vec::new() }
    }

    /// The most recently known fingerprint for a path, if any.  Never
    /// blocks and never fails.
    pub fn get_file_info(&self, path: &str) -> (r: Option<&FileInfo>)
        requires
            self.wf(),
        ensures
            match r {
                Some(info) => self@.contains_key(path@) && info@ == self@[path@],
                None => !self@.contains_key(path@),
            },
    {
        let n = self.file_cache.len();
        let mut k: usize = 0;
        while k < n
            invariant
                self.wf(),
                n == self.file_cache.len(),
                k <= n,
                forall|j: int| 0 <= j < k ==> self.file_cache@[j].0@ != path@,
            decreases n - k,
        {
            if str_eq(self.file_cache[k].0.as_str(), path) {
                proof {
                    lemma_map_at(self.file_cache@, k as int);
                }
                return Some(&self.file_cache[k].1);
            }
            k = k + 1;
        }
        proof {
            lemma_map_domain(self.file_cache@);
        }
        None
    }

    /// Replaces or inserts the fingerprint stored for `path`.
    pub fn update_file_info(&mut self, path: String, info: FileInfo)
        requires
            old(self).wf(),
        ensures
            final(self).wf(),
            final(self)@ == old(self)@.insert(path@, info@),
            final(self).base_path_view() == old(self).base_path_view(),
    {
        let n = self.file_cache.len();
        let mut k: usize = 0;
        while k < n
            invariant
                self.wf(),
                self.file_cache@ == old(self).file_cache@,
                self.base_path@ == old(self).base_path@,
                n == self.file_cache.len(),
                k <= n,
                forall|j: int| 0 <= j < k ==> self.file_cache@[j].0@ != path@,
            decreases n - k,
        {
            if str_eq(self.file_cache[k].0.as_str(), path.as_str()) {
                let ghost pre = self.file_cache@;
                self.file_cache[k] = (path, info);
                proof {
                    lemma_map_update(pre, k as int, self.file_cache@[k as int]);
                }
                return;
            }
            k = k + 1;
        }
        self.file_cache.push((path, info));
        proof {
            assert(self.file_cache@.drop_last() =~= old(self).file_cache@);
        }
    }

    /// Records the fingerprint of every accepted entry and returns
    /// them in scan order, with the count of entries that were skipped
    /// because they were unreadable or unsafely named.  A partial scan
    /// never aborts the whole operation.
    pub fn scan_directory(&mut self, entries: &Vec<ScanEntry>) -> (r: ScanReport)
        requires
            old(self).wf(),
        ensures
            final(self).wf(),
            final(self).base_path_view() == old(self).base_path_view(),
            infos_view(r.fingerprints@) == scan_fingerprints(entries_view(entries@)),
            r.failures == scan_failures(entries_view(entries@)),
            final(self)@ == scan_table(old(self)@, entries_view(entries@)),
    {
        let ghost evs = entries_view(entries@);
        let mut fingerprints: Vec<FileInfo> = Vec::new();
        let mut failures: u64 = 0;
        let n = entries.len();
        let mut k: usize = 0;
        while k < n
            invariant
                self.wf(),
                self.base_path_view() == old(self).base_path_view(),
                n == entries.len(),
                k <= n,
                evs == entries_view(entries@),
                evs.len() == n,
                failures <= k,
                infos_view(fingerprints@) == scan_fingerprints(evs.take(k as int)),
                failures == scan_failures(evs.take(k as int)),
                self@ == scan_table(old(self)@, evs.take(k as int)),
            decreases n - k,
        {
            let entry = &entries[k];
            proof {
                assert(evs[k as int] == entry@);
                assert(evs.take(k as int + 1).drop_last() =~= evs.take(k as int));
                assert(evs.take(k as int + 1).last() == entry@);
            }
            match &entry.content {
                Some(content) => {
                    if check_path(entry.path.as_str()) {
                        let info = FileInfo {
                            path: entry.path.clone(),
                            last_modified: entry.last_modified,
                            size: content.len() as u64,
                            hash: content_hash(content.as_slice()),
                        };
                        self.update_file_info(entry.path.clone(), info.clone());
                        fingerprints.push(info);
                        proof {
                            assert(infos_view(fingerprints@) =~= scan_fingerprints(
                                evs.take(k as int + 1),
                            ));
                        }
                    } else {
                        failures = failures + 1;
                    }
                },
                None => {
                    failures = failures + 1;
                },
            }
            k = k + 1;
        }
        proof {
            assert(evs.take(n as int) =~= evs);
        }
        ScanReport { fingerprints, failures }
    }

    /// Picks the winner between the local and the remote fingerprint
    /// of one path: the later writer wins; on equal timestamps the
    /// lexicographically greater hash wins, deterministically on both
    /// devices.
    pub fn handle_conflict(&self, local: &FileInfo, remote: &FileInfo) -> (r: FileInfo)
        ensures
            r@ == resolve_spec(local@, remote@),
            local@.last_modified > remote@.last_modified ==> r@ == local@,
            remote@.last_modified > local@.last_modified ==> r@ == remote@,
            r@ == local@ || r@ == remote@,
    {
        if local.last_modified > remote.last_modified {
            local.clone()
        } else if remote.last_modified > local.last_modified {
            remote.clone()
        } else if str_lex_gt(local.hash.as_str(), remote.hash.as_str()) {
            local.clone()
        } else {
            remote.clone()
        }
    }
}

} // verus!
