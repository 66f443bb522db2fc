//! Incremental change detection: classifies each path as added, modified,
//! deleted or unchanged against a cache of (size, mtime, SHA-256) states.

use vstd::prelude::*;
use vstd::bytes::{
    spec_u32_from_le_bytes,
    spec_u32_to_le_bytes,
    spec_u64_from_le_bytes,
    spec_u64_to_le_bytes,
    u32_from_le_bytes,
    u32_to_le_bytes,
    u64_from_le_bytes,
    u64_to_le_bytes,
};
use vstd::utf8::{decode_utf8, encode_utf8, valid_utf8};
use crate::text::utf8_string;

verus! {

/// An instant in UTC: seconds since the Unix epoch and the nanoseconds
/// within that second.
#[derive(Debug, Clone, Copy, PartialEq, Eq, Structural)]
pub struct UtcTime {
    pub secs: i64,
    pub nanos: u32,
}

/// The cached state of one file.
#[derive(Debug)]
pub struct FileState {
    pub path: String,
    pub size: u64,
    pub modified: UtcTime,
    pub hash: String,
}

/// The mathematical value of a `FileState`.
pub struct FileStateView {
    pub path: Seq<char>,
    pub size: u64,
    pub modified: UtcTime,
    pub hash: Seq<char>,
}

impl View for FileState {
    type V = FileStateView;

    open spec fn view(&self) -> FileStateView {
        FileStateView { path: self.path@, size: self.size, modified: self.modified, hash: self.hash@ }
    }
}

/// The classification of one path.
#[derive(Debug, Clone, PartialEq, Eq)]
pub enum FileChange {
    Added(String),
    Modified(String),
    Deleted(String),
    Unchanged(String),
}

/// The kind of a `FileChange`, without its path.
#[derive(Debug, Clone, Copy, PartialEq, Eq, Structural)]
pub enum ChangeKind {
    Added,
    Modified,
    Deleted,
    Unchanged,
}

impl FileChange {
    pub open spec fn kind(self) -> ChangeKind {
        match self {
            FileChange::Added(_) => ChangeKind::Added,
            FileChange::Modified(_) => ChangeKind::Modified,
            FileChange::Deleted(_) => ChangeKind::Deleted,
            FileChange::Unchanged(_) => ChangeKind::Unchanged,
        }
    }

    pub open spec fn path_of(self) -> Seq<char> {
        match self {
            FileChange::Added(p) => p@,
            FileChange::Modified(p) => p@,
            FileChange::Deleted(p) => p@,
            FileChange::Unchanged(p) => p@,
        }
    }

    /// Whether the change calls for (re)indexing the file.
    pub fn needs_indexing(&self) -> (r: bool)
        ensures
            r == (self.kind() == ChangeKind::Added || self.kind() == ChangeKind::Modified),
    {
        match self {
            FileChange::Added(_) | FileChange::Modified(_) => true,
            _ => false,
        }
    }

    /// The path the change is about.
    pub fn path(&self) -> (r: &String)
        ensures
            r@ == self.path_of(),
    {
        match self {
            FileChange::Added(p) => p,
            FileChange::Modified(p) => p,
            FileChange::Deleted(p) => p,
            FileChange::Unchanged(p) => p,
        }
    }
}

/// What the filesystem shows for a path at the time of the check.
#[derive(Debug, Clone, Copy, PartialEq, Eq, Structural)]
pub enum Observed {
    /// Nothing exists at the path.
    Missing,
    /// Something other than a regular file exists at the path.
    NotRegular,
    /// A regular file of this size and modification time.
    Regular { size: u64, modified: UtcTime },
}

/// No two entries of `s` have the same path.
pub open spec fn unique_paths(s: Seq<FileStateView>) -> bool {
    forall|i: int, j: int| 0 <= i < s.len() && 0 <= j < s.len() && i != j ==> s[i].path != s[j].path
}

/// Some entry of `s` is for `p`.
pub open spec fn has_entry(s: Seq<FileStateView>, p: Seq<char>) -> bool {
    exists|i: int| 0 <= i < s.len() && (#[trigger] s[i]).path == p
}

/// The position of the entry for `p` in `s` (meaningful when `has_entry`).
pub open spec fn entry_index(s: Seq<FileStateView>, p: Seq<char>) -> int {
    choose|i: int| 0 <= i < s.len() && (#[trigger] s[i]).path == p
}

/// The cached state for `p`, if any.
pub open spec fn cached(s: Seq<FileStateView>, p: Seq<char>) -> Option<FileStateView> {
    if has_entry(s, p) {
        Some(s[entry_index(s, p)])
    } else {
        None
    }
}

/// Whether classifying `p` under observation `o` requires its content hash:
/// a regular file that is new, or whose size or mtime differ from the cache.
pub open spec fn hash_needed(s: Seq<FileStateView>, p: Seq<char>, o: Observed) -> bool {
    match o {
        Observed::Regular { size, modified } => match cached(s, p) {
            None => true,
            Some(c) => !(c.size == size && c.modified == modified),
        },
        _ => false,
    }
}

/// The classification of `p` given the cache `s`, the observation `o` and
/// (where it is needed) the content hash `h`.
pub open spec fn change_kind(s: Seq<FileStateView>, p: Seq<char>, o: Observed, h: Seq<char>) -> ChangeKind {
    match o {
        Observed::Missing => if has_entry(s, p) {
            ChangeKind::Deleted
        } else {
            ChangeKind::Unchanged
        },
        Observed::NotRegular => ChangeKind::Unchanged,
        Observed::Regular { size, modified } => match cached(s, p) {
            None => ChangeKind::Added,
            Some(c) => if c.size == size && c.modified == modified {
                ChangeKind::Unchanged
            } else if c.hash == h {
                ChangeKind::Unchanged
            } else {
                ChangeKind::Modified
            },
        },
    }
}

/// The cache after classifying `p`: the entry is removed on deletion,
/// appended when new, and refreshed whenever size or mtime moved.
pub open spec fn cache_after(s: Seq<FileStateView>, p: Seq<char>, o: Observed, h: Seq<char>) -> Seq<
    FileStateView,
> {
    match o {
        Observed::Missing => if has_entry(s, p) {
            s.remove(entry_index(s, p))
        } else {
            s
        },
        Observed::NotRegular => s,
        Observed::Regular { size, modified } => {
            let fresh = FileStateView { path: p, size, modified, hash: h };
            match cached(s, p) {
                None => s.push(fresh),
                Some(c) => if c.size == size && c.modified == modified {
                    s
                } else {
                    s.update(entry_index(s, p), fresh)
                },
            }
        },
    }
}

/// Classifying a path keeps the cache free of duplicate paths.
pub proof fn lemma_cache_after_unique(s: Seq<FileStateView>, p: Seq<char>, o: Observed, h: Seq<char>)
    requires
        unique_paths(s),
    ensures
        unique_paths(cache_after(s, p, o, h)),
{
    let t = cache_after(s, p, o, h);
    match o {
        Observed::Regular { size, modified } => {
            if !has_entry(s, p) {
                assert forall|i: int, j: int|
                    0 <= i < t.len() && 0 <= j < t.len() && i != j implies t[i].path != t[j].path by {
                    if i == s.len() as int {
                        assert(s[j].path != p);
                    } else if j == s.len() as int {
                        assert(s[i].path != p);
                    }
                }
            } else {
                let k = entry_index(s, p);
                assert forall|i: int, j: int|
                    0 <= i < t.len() && 0 <= j < t.len() && i != j implies t[i].path != t[j].path by {
                    assert(s[i].path != s[j].path);
                    assert(s[k].path == p);
                }
            }
        },
        Observed::Missing => {
            if has_entry(s, p) {
                let k = entry_index(s, p);
                assert forall|i: int, j: int|
                    0 <= i < t.len() && 0 <= j < t.len() && i != j implies t[i].path != t[j].path by {
                    let i2 = if i < k { i } else { i + 1 };
                    let j2 = if j < k { j } else { j + 1 };
                    assert(t[i] == s[i2] && t[j] == s[j2]);
                    assert(s[i2].path != s[j2].path);
                }
            }
        },
        Observed::NotRegular => {},
    }
}

/// Detecting again with nothing changed on disk reports `Unchanged` and
/// leaves the cache as the first detection left it, whatever hash is given
/// the second time: a second scan of unchanged content indexes nothing.
pub proof fn lemma_detect_twice_unchanged(
    s: Seq<FileStateView>,
    p: Seq<char>,
    o: Observed,
    h1: Seq<char>,
    h2: Seq<char>,
)
    requires
        unique_paths(s),
    ensures
        !hash_needed(cache_after(s, p, o, h1), p, o),
        change_kind(cache_after(s, p, o, h1), p, o, h2) == ChangeKind::Unchanged,
        cache_after(cache_after(s, p, o, h1), p, o, h2) == cache_after(s, p, o, h1),
{
    lemma_cache_after_unique(s, p, o, h1);
    let t = cache_after(s, p, o, h1);
    match o {
        Observed::Regular { size, modified } => {
            let k = if has_entry(s, p) {
                entry_index(s, p)
            } else {
                s.len() as int
            };
            assert(t[k].path == p);
            assert(has_entry(t, p));
            let m = entry_index(t, p);
            if m != k {
                assert(t[m].path != t[k].path);
            }
            if has_entry(s, p) {
                let c = s[k];
                if c.size == size && c.modified == modified {
                    assert(t[k] == c);
                } else {
                    assert(t[k] == FileStateView { path: p, size, modified, hash: h1 });
                }
            } else {
                assert(t[k] == FileStateView { path: p, size, modified, hash: h1 });
            }
        },
        Observed::Missing => {
            if has_entry(s, p) {
                let k = entry_index(s, p);
                assert forall|i: int| 0 <= i < t.len() implies (#[trigger] t[i]).path != p by {
                    let i2 = if i < k { i } else { i + 1 };
                    assert(t[i] == s[i2]);
                    if i2 != k {
                        assert(s[i2].path != s[k].path);
                    }
                }
            }
        },
        Observed::NotRegular => {},
    }
}

/// A path and what was observed and hashed for it in one scan.
pub struct ProbeView {
    pub path: Seq<char>,
    pub observed: Observed,
    pub hash: Seq<char>,
}

/// The cache after classifying each probe in turn.
pub open spec fn cache_after_all(s: Seq<FileStateView>, ps: Seq<ProbeView>) -> Seq<FileStateView>
    decreases ps.len(),
{
    if ps.len() == 0 {
        s
    } else {
        cache_after_all(cache_after(s, ps[0].path, ps[0].observed, ps[0].hash), ps.drop_first())
    }
}

/// The classifications of the probes, classified in turn.
pub open spec fn kinds_of_all(s: Seq<FileStateView>, ps: Seq<ProbeView>) -> Seq<ChangeKind>
    decreases ps.len(),
{
    if ps.len() == 0 {
        seq![]
    } else {
        seq![change_kind(s, ps[0].path, ps[0].observed, ps[0].hash)] + kinds_of_all(
            cache_after(s, ps[0].path, ps[0].observed, ps[0].hash),
            ps.drop_first(),
        )
    }
}

proof fn lemma_kinds_len(s: Seq<FileStateView>, ps: Seq<ProbeView>)
    ensures
        kinds_of_all(s, ps).len() == ps.len(),
    decreases ps.len(),
{
    if ps.len() > 0 {
        lemma_kinds_len(cache_after(s, ps[0].path, ps[0].observed, ps[0].hash), ps.drop_first());
    }
}

proof fn lemma_after_all_push(s: Seq<FileStateView>, ps: Seq<ProbeView>, x: ProbeView)
    ensures
        cache_after_all(s, ps.push(x)) == cache_after(cache_after_all(s, ps), x.path, x.observed, x.hash),
        kinds_of_all(s, ps.push(x)) == kinds_of_all(s, ps).push(
            change_kind(cache_after_all(s, ps), x.path, x.observed, x.hash),
        ),
    decreases ps.len(),
{
    if ps.len() == 0 {
        let one = ps.push(x);
        assert(one[0] == x);
        assert(one.drop_first() =~= Seq::<ProbeView>::empty());
        let s1 = cache_after(s, x.path, x.observed, x.hash);
        assert(cache_after_all(s1, one.drop_first()) == s1);
        assert(kinds_of_all(s1, one.drop_first()) =~= Seq::<ChangeKind>::empty());
        assert(cache_after_all(s, ps) == s);
        assert(kinds_of_all(s, ps) =~= Seq::<ChangeKind>::empty());
        assert(kinds_of_all(s, one) =~= seq![change_kind(s, x.path, x.observed, x.hash)]);
    } else {
        let s1 = cache_after(s, ps[0].path, ps[0].observed, ps[0].hash);
        lemma_after_all_push(s1, ps.drop_first(), x);
        assert(ps.push(x).drop_first() =~= ps.drop_first().push(x));
        assert(kinds_of_all(s, ps.push(x)) =~= kinds_of_all(s, ps).push(
            change_kind(cache_after_all(s, ps), x.path, x.observed, x.hash),
        ));
    }
}

/// No two probes are for the same path.
pub open spec fn distinct_probes(ps: Seq<ProbeView>) -> bool {
    forall|i: int, j: int| 0 <= i < ps.len() && 0 <= j < ps.len() && i != j ==> ps[i].path != ps[j].path
}

/// The same paths observed the same way, whatever was hashed.
pub open spec fn same_observations(a: Seq<ProbeView>, b: Seq<ProbeView>) -> bool {
    a.len() == b.len() && forall|i: int|
        0 <= i < a.len() ==> (#[trigger] a[i]).path == b[i].path && a[i].observed == b[i].observed
}

/// Classifying one path leaves the cached state of every other path as it was.
pub proof fn lemma_cache_after_frame(s: Seq<FileStateView>, q: Seq<char>, o: Observed, h: Seq<char>, p: Seq<char>)
    requires
        unique_paths(s),
        p != q,
    ensures
        cached(cache_after(s, q, o, h), p) == cached(s, p),
{
    lemma_cache_after_unique(s, q, o, h);
    let t = cache_after(s, q, o, h);
    if has_entry(s, p) {
        let k = entry_index(s, p);
        let m = match o {
            Observed::Missing => if has_entry(s, q) && entry_index(s, q) < k {
                k - 1
            } else {
                k
            },
            _ => k,
        };
        if let Observed::Missing = o {
            if has_entry(s, q) {
                let d = entry_index(s, q);
                assert(d != k) by {
                    assert(s[d].path == q);
                }
            }
        }
        if let Observed::Regular { .. } = o {
            if has_entry(s, q) {
                let d = entry_index(s, q);
                assert(d != k) by {
                    assert(s[d].path == q);
                }
            }
        }
        assert(t[m] == s[k]);
        assert(has_entry(t, p));
        let n = entry_index(t, p);
        if n != m {
            assert(t[n].path != t[m].path);
        }
    } else {
        assert forall|i: int| 0 <= i < t.len() implies (#[trigger] t[i]).path != p by {
            match o {
                Observed::Missing => {
                    if has_entry(s, q) {
                        let d = entry_index(s, q);
                        let i2 = if i < d { i } else { i + 1 };
                        assert(t[i] == s[i2]);
                    }
                },
                Observed::NotRegular => {},
                Observed::Regular { .. } => {
                    if i < s.len() {
                        if has_entry(s, q) {
                            let d = entry_index(s, q);
                            if i != d {
                                assert(t[i] == s[i]);
                            }
                        } else {
                            assert(t[i] == s[i]);
                        }
                    }
                },
            }
        }
    }
}

/// The classification of a path depends on the cache only through its
/// state for that path.
pub proof fn lemma_change_kind_local(s: Seq<FileStateView>, t: Seq<FileStateView>, p: Seq<char>, o: Observed, h: Seq<char>)
    requires
        cached(s, p) == cached(t, p),
    ensures
        change_kind(s, p, o, h) == change_kind(t, p, o, h),
        hash_needed(s, p, o) == hash_needed(t, p, o),
{
}

/// After one scan, the cached state of each scanned path is what its own
/// classification left.
proof fn lemma_first_scan_state(s: Seq<FileStateView>, ps: Seq<ProbeView>, i: int)
    requires
        unique_paths(s),
        distinct_probes(ps),
        0 <= i < ps.len(),
    ensures
        cached(cache_after_all(s, ps), ps[i].path) == cached(
            cache_after(s, ps[i].path, ps[i].observed, ps[i].hash),
            ps[i].path,
        ),
    decreases ps.len(),
{
    let s1 = cache_after(s, ps[0].path, ps[0].observed, ps[0].hash);
    lemma_cache_after_unique(s, ps[0].path, ps[0].observed, ps[0].hash);
    let rest = ps.drop_first();
    assert(distinct_probes(rest)) by {
        assert forall|a: int, b: int| 0 <= a < rest.len() && 0 <= b < rest.len() && a != b implies rest[a].path
            != rest[b].path by {
            assert(rest[a] == ps[a + 1] && rest[b] == ps[b + 1]);
        }
    }
    if i == 0 {
        lemma_untouched(s1, rest, ps[0].path);
    } else {
        lemma_first_scan_state(s1, rest, i - 1);
        assert(rest[i - 1] == ps[i]);
        assert(ps[0].path != ps[i].path);
        lemma_cache_after_frame(s, ps[0].path, ps[0].observed, ps[0].hash, ps[i].path);
        lemma_same_cached_same_after(s1, s, ps[i].path, ps[i].observed, ps[i].hash);
    }
}

/// Classifying probes for other paths leaves the cached state of `p` alone.
proof fn lemma_untouched(s: Seq<FileStateView>, ps: Seq<ProbeView>, p: Seq<char>)
    requires
        unique_paths(s),
        forall|j: int| 0 <= j < ps.len() ==> (#[trigger] ps[j]).path != p,
    ensures
        cached(cache_after_all(s, ps), p) == cached(s, p),
        unique_paths(cache_after_all(s, ps)),
    decreases ps.len(),
{
    if ps.len() > 0 {
        let s1 = cache_after(s, ps[0].path, ps[0].observed, ps[0].hash);
        lemma_cache_after_unique(s, ps[0].path, ps[0].observed, ps[0].hash);
        assert(ps[0].path != p);
        lemma_cache_after_frame(s, ps[0].path, ps[0].observed, ps[0].hash, p);
        let rest = ps.drop_first();
        assert forall|j: int| 0 <= j < rest.len() implies (#[trigger] rest[j]).path != p by {
            assert(rest[j] == ps[j + 1]);
        }
        lemma_untouched(s1, rest, p);
    }
}

/// Two caches that agree on `p` agree on `p` after classifying it the same way.
proof fn lemma_same_cached_same_after(s: Seq<FileStateView>, t: Seq<FileStateView>, p: Seq<char>, o: Observed, h: Seq<char>)
    requires
        unique_paths(s),
        unique_paths(t),
        cached(s, p) == cached(t, p),
    ensures
        cached(cache_after(s, p, o, h), p) == cached(cache_after(t, p, o, h), p),
{
    lemma_detect_twice_unchanged(s, p, o, h, h);
    lemma_detect_twice_unchanged(t, p, o, h, h);
    lemma_cache_after_unique(s, p, o, h);
    lemma_cache_after_unique(t, p, o, h);
    let a = cache_after(s, p, o, h);
    let b = cache_after(t, p, o, h);
    match o {
        Observed::Regular { size, modified } => {
            let ka = if has_entry(s, p) { entry_index(s, p) } else { s.len() as int };
            let kb = if has_entry(t, p) { entry_index(t, p) } else { t.len() as int };
            assert(a[ka].path == p);
            assert(b[kb].path == p);
            assert(a[ka] == b[kb]);
            let ma = entry_index(a, p);
            let mb = entry_index(b, p);
            if ma != ka {
                assert(a[ma].path != a[ka].path);
            }
            if mb != kb {
                assert(b[mb].path != b[kb].path);
            }
        },
        _ => {},
    }
}

/// Scanning a set of distinct paths twice, with every path observed the same
/// way both times, classifies every path of the second scan as `Unchanged`:
/// an indexing run repeated over an unchanged tree indexes nothing.
pub proof fn lemma_rescan_unchanged(s: Seq<FileStateView>, first: Seq<ProbeView>, second: Seq<ProbeView>)
    requires
        unique_paths(s),
        distinct_probes(first),
        same_observations(first, second),
    ensures
        forall|i: int|
            0 <= i < second.len() ==> #[trigger] kinds_of_all(cache_after_all(s, first), second)[i]
                == ChangeKind::Unchanged,
{
    let t = cache_after_all(s, first);
    lemma_unique_after_all(s, first);
    assert forall|i: int| 0 <= i < first.len() implies cached(t, (#[trigger] first[i]).path) == cached(
        cache_after(s, first[i].path, first[i].observed, first[i].hash),
        first[i].path,
    ) by {
        lemma_first_scan_state(s, first, i);
    }
    lemma_second_scan(t, s, first, second);
}

proof fn lemma_unique_after_all(s: Seq<FileStateView>, ps: Seq<ProbeView>)
    requires
        unique_paths(s),
    ensures
        unique_paths(cache_after_all(s, ps)),
    decreases ps.len(),
{
    if ps.len() > 0 {
        lemma_cache_after_unique(s, ps[0].path, ps[0].observed, ps[0].hash);
        lemma_unique_after_all(cache_after(s, ps[0].path, ps[0].observed, ps[0].hash), ps.drop_first());
    }
}

/// Induction over the second scan: `t` holds, for every path still to be
/// classified, the state that path's own first classification left.
proof fn lemma_second_scan(t: Seq<FileStateView>, s: Seq<FileStateView>, first: Seq<ProbeView>, second: Seq<ProbeView>)
    requires
        unique_paths(t),
        unique_paths(s),
        distinct_probes(first),
        same_observations(first, second),
        forall|i: int|
            0 <= i < first.len() ==> cached(t, (#[trigger] first[i]).path) == cached(
                cache_after(s, first[i].path, first[i].observed, first[i].hash),
                first[i].path,
            ),
    ensures
        forall|i: int| 0 <= i < second.len() ==> #[trigger] kinds_of_all(t, second)[i] == ChangeKind::Unchanged,
    decreases second.len(),
{
    if second.len() > 0 {
        let p = second[0].path;
        let o = second[0].observed;
        assert(first[0].path == p && first[0].observed == o);
        let s0 = cache_after(s, p, o, first[0].hash);
        lemma_detect_twice_unchanged(s, p, o, first[0].hash, second[0].hash);
        assert(cached(t, p) == cached(s0, p));
        lemma_change_kind_local(t, s0, p, o, second[0].hash);
        let t1 = cache_after(t, p, o, second[0].hash);
        lemma_cache_after_unique(t, p, o, second[0].hash);
        let f1 = first.drop_first();
        let r1 = second.drop_first();
        assert(distinct_probes(f1)) by {
            assert forall|a: int, b: int| 0 <= a < f1.len() && 0 <= b < f1.len() && a != b implies f1[a].path
                != f1[b].path by {
                assert(f1[a] == first[a + 1] && f1[b] == first[b + 1]);
            }
        }
        assert(same_observations(f1, r1)) by {
            assert forall|i: int| 0 <= i < f1.len() implies (#[trigger] f1[i]).path == r1[i].path && f1[i].observed
                == r1[i].observed by {
                assert(f1[i] == first[i + 1] && r1[i] == second[i + 1]);
            }
        }
        assert forall|i: int| 0 <= i < f1.len() implies cached(t1, (#[trigger] f1[i]).path) == cached(
            cache_after(s, f1[i].path, f1[i].observed, f1[i].hash),
            f1[i].path,
        ) by {
            assert(f1[i] == first[i + 1]);
            assert(first[0].path != first[i + 1].path);
            lemma_cache_after_frame(t, p, o, second[0].hash, f1[i].path);
        }
        lemma_second_scan(t1, s, f1, r1);
        lemma_kinds_len(t1, r1);
        let ks = kinds_of_all(t, second);
        assert(ks == seq![change_kind(t, p, o, second[0].hash)] + kinds_of_all(t1, r1));
        assert forall|i: int| 0 <= i < second.len() implies #[trigger] ks[i] == ChangeKind::Unchanged by {
            if i > 0 {
                assert(ks[i] == kinds_of_all(t1, r1)[i - 1]);
            }
        }
    }
}

/// A path with what was observed of it and, where needed, its content hash.
#[derive(Debug)]
pub struct Probe {
    pub path: String,
    pub observed: Observed,
    pub content_hash: String,
}

impl View for Probe {
    type V = ProbeView;

    open spec fn view(&self) -> ProbeView {
        ProbeView { path: self.path@, observed: self.observed, hash: self.content_hash@ }
    }
}

/// Detects changes between scans; holds at most one state per path.
pub struct ChangeDetector {
    cache: Vec<FileState>,
}

impl ChangeDetector {
    /// The cached states, in the order they were first recorded.
    pub closed spec fn entries(&self) -> Seq<FileStateView> {
        self.cache@.map_values(|e: FileState| e@)
    }

    pub open spec fn wf(&self) -> bool {
        unique_paths(self.entries())
    }

    /// An empty detector.
    pub fn new() -> (r: ChangeDetector)
        ensures
            r.wf(),
            r.entries() == Seq::<FileStateView>::empty(),
    {
        let r = ChangeDetector { cache: Vec::new() };
        assert(r.entries() =~= Seq::<FileStateView>::empty());
        r
    }

    /// A detector holding the given states, which must be for distinct paths.
    pub fn from_states(states: Vec<FileState>) -> (r: ChangeDetector)
        requires
            unique_paths(states@.map_values(|e: FileState| e@)),
        ensures
            r.wf(),
            r.entries() == states@.map_values(|e: FileState| e@),
    {
        ChangeDetector { cache: states }
    }

    /// The cached states, in the order they were first recorded.
    pub fn states(&self) -> (r: &Vec<FileState>)
        ensures
            r@.map_values(|e: FileState| e@) == self.entries(),
    {
        &self.cache
    }

    fn position(&self, path: &String) -> (r: Option<usize>)
        requires
            self.wf(),
        ensures
            match r {
                Some(i) => i < self.entries().len() && self.entries()[i as int].path == path@
                    && entry_index(self.entries(), path@) == i,
                None => !has_entry(self.entries(), path@),
            },
    {
        let mut i: usize = 0;
        while i < self.cache.len()
            invariant
                self.wf(),
                i <= self.cache@.len(),
                forall|j: int| 0 <= j < i ==> (#[trigger] self.entries()[j]).path != path@,
            decreases self.cache.len() - i,
        {
            if self.cache[i].path == *path {
                proof {
                    let e = self.entries();
                    assert(e[i as int].path == path@);
                    let k = entry_index(e, path@);
                    assert(0 <= k < e.len() && e[k].path == path@);
                    if k != i {
                        assert(e[k].path != e[i as int].path);
                    }
                }
                return Some(i);
            }
            assert(self.entries()[i as int].path != path@);
            i = i + 1;
        }
        None
    }

    /// The cached state for a path.
    pub fn get_cached_state(&self, path: &str) -> (r: Option<&FileState>)
        requires
            self.wf(),
        ensures
            match r {
                Some(s) => cached(self.entries(), path@) == Some(s@),
                None => cached(self.entries(), path@) is None,
            },
    {
        let key = path.to_owned();
        match self.position(&key) {
            Some(i) => Some(&self.cache[i]),
            None => None,
        }
    }

    /// Whether classifying `path` under `observed` needs the file's content hash.
    pub fn needs_content_hash(&self, path: &str, observed: &Observed) -> (r: bool)
        requires
            self.wf(),
        ensures
            r == hash_needed(self.entries(), path@, *observed),
    {
        match observed {
            Observed::Regular { size, modified } => {
                let key = path.to_owned();
                match self.position(&key) {
                    None => true,
                    Some(i) => !(self.cache[i].size == *size && self.cache[i].modified == *modified),
                }
            },
            _ => false,
        }
    }

    /// Classifies `path` and records what was observed. `content_hash` is
    /// the file's SHA-256 hex; it is read only where `needs_content_hash`
    /// holds, and may be anything otherwise.
    pub fn detect_change(&mut self, path: &str, observed: &Observed, content_hash: &str) -> (r: FileChange)
        requires
            old(self).wf(),
        ensures
            final(self).wf(),
            r.path_of() == path@,
            r.kind() == change_kind(old(self).entries(), path@, *observed, content_hash@),
            final(self).entries() == cache_after(old(self).entries(), path@, *observed, content_hash@),
    {
        let key = path.to_owned();
        let ghost s = self.entries();
        let pos = self.position(&key);
        match observed {
            Observed::Missing => match pos {
                Some(i) => {
                    self.cache.remove(i);
                    assert(self.entries() =~= s.remove(i as int));
                    FileChange::Deleted(key)
                },
                None => FileChange::Unchanged(key),
            },
            Observed::NotRegular => FileChange::Unchanged(key),
            Observed::Regular { size, modified } => {
                let fresh = FileState {
                    path: key.clone(),
                    size: *size,
                    modified: *modified,
                    hash: content_hash.to_owned(),
                };
                match pos {
                    None => {
                        self.cache.push(fresh);
                        assert(self.entries() =~= s.push(fresh@));
                        assert(unique_paths(self.entries())) by {
                            assert forall|i: int, j: int|
                                0 <= i < self.entries().len() && 0 <= j < self.entries().len() && i
                                    != j implies self.entries()[i].path != self.entries()[j].path by {
                                if i == s.len() as int {
                                    assert(s[j].path != key@);
                                } else if j == s.len() as int {
                                    assert(s[i].path != key@);
                                }
                            }
                        }
                        FileChange::Added(key)
                    },
                    Some(i) => {
                        if self.cache[i].size == *size && self.cache[i].modified == *modified {
                            return FileChange::Unchanged(key);
                        }
                        let same = self.cache[i].hash == fresh.hash;
                        self.cache.remove(i);
                        self.cache.insert(i, fresh);
                        assert(self.entries() =~= s.update(i as int, fresh@));
                        if same {
                            FileChange::Unchanged(key)
                        } else {
                            FileChange::Modified(key)
                        }
                    },
                }
            },
        }
    }

    /// Classifies each probe in turn, recording what was observed.
    pub fn detect_changes(&mut self, probes: &Vec<Probe>) -> (r: Vec<FileChange>)
        requires
            old(self).wf(),
        ensures
            final(self).wf(),
            final(self).entries() == cache_after_all(old(self).entries(), probes@.map_values(|p: Probe| p@)),
            r@.len() == probes@.len(),
            r@.map_values(|c: FileChange| c.kind()) == kinds_of_all(
                old(self).entries(),
                probes@.map_values(|p: Probe| p@),
            ),
            forall|i: int| 0 <= i < r@.len() ==> (#[trigger] r@[i]).path_of() == probes@[i].path@,
    {
        let ghost s0 = self.entries();
        let ghost pv = probes@.map_values(|p: Probe| p@);
        let mut out: Vec<FileChange> = Vec::new();
        let mut i: usize = 0;
        assert(pv.subrange(0, 0) =~= Seq::<ProbeView>::empty());
        while i < probes.len()
            invariant
                self.wf(),
                i <= probes@.len(),
                pv == probes@.map_values(|p: Probe| p@),
                self.entries() == cache_after_all(s0, pv.subrange(0, i as int)),
                out@.len() == i,
                out@.map_values(|c: FileChange| c.kind()) == kinds_of_all(s0, pv.subrange(0, i as int)),
                forall|j: int| 0 <= j < i ==> (#[trigger] out@[j]).path_of() == probes@[j].path@,
            decreases probes.len() - i,
        {
            let p = &probes[i];
            proof {
                lemma_after_all_push(s0, pv.subrange(0, i as int), pv[i as int]);
                assert(pv.subrange(0, i as int).push(pv[i as int]) =~= pv.subrange(0, i + 1));
            }
            let ghost before = out@.map_values(|c: FileChange| c.kind());
            let c = self.detect_change(p.path.as_str(), &p.observed, p.content_hash.as_str());
            out.push(c);
            assert(out@.map_values(|c: FileChange| c.kind()) =~= before.push(c.kind()));
            i = i + 1;
        }
        assert(pv.subrange(0, probes@.len() as int) =~= pv);
        out
    }

    /// Forgets the cached state of a path.
    pub fn remove(&mut self, path: &str)
        requires
            old(self).wf(),
        ensures
            final(self).wf(),
            final(self).entries() == if has_entry(old(self).entries(), path@) {
                old(self).entries().remove(entry_index(old(self).entries(), path@))
            } else {
                old(self).entries()
            },
    {
        let key = path.to_owned();
        let ghost s = self.entries();
        if let Some(i) = self.position(&key) {
            self.cache.remove(i);
            assert(self.entries() =~= s.remove(i as int));
        }
    }

    /// Forgets every cached state.
    pub fn clear(&mut self)
        ensures
            final(self).wf(),
            final(self).entries() == Seq::<FileStateView>::empty(),
    {
        self.cache.clear();
        assert(self.entries() =~= Seq::<FileStateView>::empty());
    }

    /// The number of cached states.
    pub fn cache_size(&self) -> (r: usize)
        ensures
            r == self.entries().len(),
    {
        self.cache.len()
    }
}

/// The four bytes that open an encoded cache: `EIXC`.
pub open spec fn cache_magic() -> Seq<u8> {
    seq![0x45u8, 0x49u8, 0x58u8, 0x43u8]
}

/// The version of the cache encoding written by this library.
pub const CACHE_FORMAT_VERSION: u32 = 1;

/// Length of the fixed header: magic, version and entry count.
pub const CACHE_HEADER_LEN: usize = 16;

/// The two's-complement bits of a signed 64-bit integer.
pub open spec fn i64_bits(x: i64) -> u64 {
    if x >= 0 {
        x as u64
    } else {
        (x + 0x1_0000_0000_0000_0000int) as u64
    }
}

/// The signed 64-bit integer with the given two's-complement bits.
pub open spec fn bits_i64(u: u64) -> i64 {
    if u <= i64::MAX {
        u as i64
    } else {
        (u - 0x1_0000_0000_0000_0000int) as i64
    }
}

fn to_bits(x: i64) -> (r: u64)
    ensures
        r == i64_bits(x),
{
    if x >= 0 {
        x as u64
    } else {
        let m = (x + 1) as i128;
        let neg = (-m) as u64;
        u64::MAX - neg
    }
}

fn from_bits(u: u64) -> (r: i64)
    ensures
        r == bits_i64(u),
{
    if u <= i64::MAX as u64 {
        u as i64
    } else {
        let k = u64::MAX - u;
        -1 - (k as i64)
    }
}

/// A string as its UTF-8 byte length (u64, little-endian) then its bytes.
pub open spec fn enc_str(s: Seq<char>) -> Seq<u8> {
    spec_u64_to_le_bytes(encode_utf8(s).len() as u64) + encode_utf8(s)
}

/// One cached state: path, size, mtime seconds (two's complement), mtime
/// nanoseconds, hash; integers little-endian.
pub open spec fn enc_state(e: FileStateView) -> Seq<u8> {
    enc_str(e.path) + spec_u64_to_le_bytes(e.size) + spec_u64_to_le_bytes(i64_bits(e.modified.secs))
        + spec_u32_to_le_bytes(e.modified.nanos) + enc_str(e.hash)
}

pub open spec fn enc_states(s: Seq<FileStateView>) -> Seq<u8>
    decreases s.len(),
{
    if s.len() == 0 {
        seq![]
    } else {
        enc_state(s[0]) + enc_states(s.drop_first())
    }
}

/// The encoded cache: magic, version, entry count, then the entries.
pub open spec fn encode_cache(s: Seq<FileStateView>) -> Seq<u8> {
    cache_magic() + spec_u32_to_le_bytes(CACHE_FORMAT_VERSION) + spec_u64_to_le_bytes(s.len() as u64)
        + enc_states(s)
}

/// Every length in `s` fits the encoding's 64-bit length fields.
pub open spec fn encodable(s: Seq<FileStateView>) -> bool {
    s.len() <= u64::MAX && forall|i: int|
        0 <= i < s.len() ==> encode_utf8((#[trigger] s[i]).path).len() <= u64::MAX && encode_utf8(
            s[i].hash,
        ).len() <= u64::MAX
}

pub open spec fn read_u64(b: Seq<u8>, pos: int) -> u64 {
    spec_u64_from_le_bytes(b.subrange(pos, pos + 8))
}

pub open spec fn read_u32(b: Seq<u8>, pos: int) -> u32 {
    spec_u32_from_le_bytes(b.subrange(pos, pos + 4))
}

/// Reads a length-prefixed UTF-8 string at `pos`; gives it and the position after it.
pub open spec fn parse_str(b: Seq<u8>, pos: int) -> Option<(Seq<char>, int)> {
    if 0 <= pos && pos + 8 <= b.len() {
        let n = read_u64(b, pos) as int;
        if n <= b.len() - (pos + 8) && valid_utf8(b.subrange(pos + 8, pos + 8 + n)) {
            Some((decode_utf8(b.subrange(pos + 8, pos + 8 + n)), pos + 8 + n))
        } else {
            None
        }
    } else {
        None
    }
}

/// Reads one cached state at `pos`; gives it and the position after it.
pub open spec fn parse_state(b: Seq<u8>, pos: int) -> Option<(FileStateView, int)> {
    match parse_str(b, pos) {
        None => None,
        Some((path, after_path)) => if after_path + 20 <= b.len() {
            match parse_str(b, after_path + 20) {
                None => None,
                Some((hash, after_hash)) => Some(
                    (
                        FileStateView {
                            path,
                            size: read_u64(b, after_path),
                            modified: UtcTime { secs: bits_i64(read_u64(b, after_path + 8)), nanos: read_u32(b, after_path + 16) },
                            hash,
                        },
                        after_hash,
                    ),
                ),
            }
        } else {
            None
        },
    }
}

/// Reads `n` cached states from `pos`, which must end exactly at the end of `b`.
pub open spec fn parse_states(b: Seq<u8>, pos: int, n: nat) -> Option<Seq<FileStateView>>
    decreases n,
{
    if n == 0 {
        if pos == b.len() {
            Some(seq![])
        } else {
            None
        }
    } else {
        match parse_state(b, pos) {
            None => None,
            Some((e, after_hash)) => match parse_states(b, after_hash, (n - 1) as nat) {
                None => None,
                Some(r) => Some(seq![e] + r),
            },
        }
    }
}

/// The states that the bytes `b` encode, if they are a cache in this format.
pub open spec fn parse_cache(b: Seq<u8>) -> Option<Seq<FileStateView>> {
    if b.len() >= CACHE_HEADER_LEN && b.subrange(0, 4) == cache_magic() && read_u32(b, 4)
        == CACHE_FORMAT_VERSION {
        parse_states(b, CACHE_HEADER_LEN as int, read_u64(b, 8) as nat)
    } else {
        None
    }
}

pub open spec fn prepend(a: Seq<FileStateView>, o: Option<Seq<FileStateView>>) -> Option<Seq<FileStateView>> {
    match o {
        Some(r) => Some(a + r),
        None => None,
    }
}

proof fn lemma_parse_str_enc(pre: Seq<u8>, s: Seq<char>, rest: Seq<u8>)
    requires
        encode_utf8(s).len() <= u64::MAX,
    ensures
        parse_str(pre + enc_str(s) + rest, pre.len() as int) == Some(
            (s, (pre.len() + enc_str(s).len()) as int),
        ),
{
    vstd::bytes::lemma_auto_spec_u64_to_from_le_bytes();
    vstd::utf8::encode_utf8_valid_utf8(s);
    vstd::utf8::encode_utf8_decode_utf8(s);
    let u = encode_utf8(s);
    let b = pre + enc_str(s) + rest;
    let pos = pre.len() as int;
    let lenb = spec_u64_to_le_bytes(u.len() as u64);
    assert(lenb.len() == 8);
    assert(b.subrange(pos, pos + 8) =~= lenb);
    assert(read_u64(b, pos) == u.len() as u64);
    assert(b.subrange(pos + 8, pos + 8 + u.len()) =~= u);
}

proof fn lemma_parse_state_enc(pre: Seq<u8>, e: FileStateView, rest: Seq<u8>)
    requires
        encode_utf8(e.path).len() <= u64::MAX,
        encode_utf8(e.hash).len() <= u64::MAX,
    ensures
        parse_state(pre + enc_state(e) + rest, pre.len() as int) == Some(
            (e, (pre.len() + enc_state(e).len()) as int),
        ),
{
    vstd::bytes::lemma_auto_spec_u64_to_from_le_bytes();
    vstd::bytes::lemma_auto_spec_u32_to_from_le_bytes();
    let b = pre + enc_state(e) + rest;
    let a = spec_u64_to_le_bytes(e.size);
    let c = spec_u64_to_le_bytes(i64_bits(e.modified.secs));
    let d = spec_u32_to_le_bytes(e.modified.nanos);
    let mid = a + c + d;
    let tail = enc_str(e.hash) + rest;
    assert(b =~= pre + enc_str(e.path) + (mid + tail));
    lemma_parse_str_enc(pre, e.path, mid + tail);
    let after_path = (pre.len() + enc_str(e.path).len()) as int;
    let pre2 = pre + enc_str(e.path) + mid;
    assert(b =~= pre2 + enc_str(e.hash) + rest);
    lemma_parse_str_enc(pre2, e.hash, rest);
    assert(b.subrange(after_path, after_path + 8) =~= a);
    assert(b.subrange(after_path + 8, after_path + 16) =~= c);
    assert(b.subrange(after_path + 16, after_path + 20) =~= d);
    assert(bits_i64(i64_bits(e.modified.secs)) == e.modified.secs);
}

proof fn lemma_parse_states_enc(pre: Seq<u8>, s: Seq<FileStateView>)
    requires
        encodable(s),
    ensures
        parse_states(pre + enc_states(s), pre.len() as int, s.len()) == Some(s),
    decreases s.len(),
{
    if s.len() == 0 {
        assert(pre + enc_states(s) =~= pre);
    } else {
        let t = s.drop_first();
        assert(encodable(t)) by {
            assert forall|i: int| 0 <= i < t.len() implies encode_utf8((#[trigger] t[i]).path).len()
                <= u64::MAX && encode_utf8(t[i].hash).len() <= u64::MAX by {
                assert(t[i] == s[i + 1]);
            }
        }
        let b = pre + enc_states(s);
        assert(b =~= pre + enc_state(s[0]) + enc_states(t));
        lemma_parse_state_enc(pre, s[0], enc_states(t));
        let pre2 = pre + enc_state(s[0]);
        assert(b =~= pre2 + enc_states(t));
        lemma_parse_states_enc(pre2, t);
        assert(seq![s[0]] + t =~= s);
    }
}

/// Decoding an encoded cache gives back exactly the states that were
/// encoded, in the same order: saving then loading is the identity.
pub proof fn lemma_cache_round_trip(s: Seq<FileStateView>)
    requires
        encodable(s),
    ensures
        parse_cache(encode_cache(s)) == Some(s),
{
    vstd::bytes::lemma_auto_spec_u64_to_from_le_bytes();
    vstd::bytes::lemma_auto_spec_u32_to_from_le_bytes();
    let b = encode_cache(s);
    let v = spec_u32_to_le_bytes(CACHE_FORMAT_VERSION);
    let n = spec_u64_to_le_bytes(s.len() as u64);
    let head = cache_magic() + v + n;
    assert(head.len() == 16);
    assert(b =~= head + enc_states(s));
    assert(b.subrange(0, 4) =~= cache_magic());
    assert(b.subrange(4, 8) =~= v);
    assert(b.subrange(8, 16) =~= n);
    lemma_parse_states_enc(head, s);
}

fn push_bytes(out: &mut Vec<u8>, b: &[u8])
    ensures
        final(out)@ == old(out)@ + b@,
{
    let mut i: usize = 0;
    while i < b.len()
        invariant
            i <= b.len(),
            out@ == old(out)@ + b@.subrange(0, i as int),
        decreases b.len() - i,
    {
        out.push(b[i]);
        i = i + 1;
        assert(out@ =~= old(out)@ + b@.subrange(0, i as int));
    }
    assert(b@.subrange(0, b@.len() as int) =~= b@);
}

fn push_u64(out: &mut Vec<u8>, x: u64)
    ensures
        final(out)@ == old(out)@ + spec_u64_to_le_bytes(x),
{
    let b = u64_to_le_bytes(x);
    push_bytes(out, b.as_slice());
}

fn push_str(out: &mut Vec<u8>, s: &String)
    ensures
        final(out)@ == old(out)@ + enc_str(s@),
        encode_utf8(s@).len() <= u64::MAX,
{
    let b = s.as_str().as_bytes();
    push_u64(out, b.len() as u64);
    push_bytes(out, b);
    assert(out@ =~= old(out)@ + enc_str(s@));
}

fn read_u64_at(b: &[u8], pos: usize) -> (r: u64)
    requires
        pos + 8 <= b@.len(),
    ensures
        r == read_u64(b@, pos as int),
{
    let len = b.len();
    assert(pos + 8 <= len);
    u64_from_le_bytes(vstd::slice::slice_subrange(b, pos, pos + 8))
}

fn read_u32_at(b: &[u8], pos: usize) -> (r: u32)
    requires
        pos + 4 <= b@.len(),
    ensures
        r == read_u32(b@, pos as int),
{
    let len = b.len();
    assert(pos + 4 <= len);
    u32_from_le_bytes(vstd::slice::slice_subrange(b, pos, pos + 4))
}

fn read_str_at(b: &[u8], pos: usize) -> (r: Option<(String, usize)>)
    ensures
        match r {
            Some((s, p)) => parse_str(b@, pos as int) == Some((s@, p as int)),
            None => parse_str(b@, pos as int) is None,
        },
{
    if pos > b.len() || b.len() - pos < 8 {
        return None;
    }
    let n = read_u64_at(b, pos);
    let start = pos + 8;
    if n > (b.len() - start) as u64 {
        return None;
    }
    let end = start + n as usize;
    match utf8_string(vstd::slice::slice_subrange(b, start, end)) {
        Some(s) => Some((s, end)),
        None => None,
    }
}

fn read_state_at(b: &[u8], pos: usize) -> (r: Option<(FileState, usize)>)
    ensures
        match r {
            Some((e, p)) => parse_state(b@, pos as int) == Some((e@, p as int)),
            None => parse_state(b@, pos as int) is None,
        },
{
    let (path, after_path) = match read_str_at(b, pos) {
        Some(x) => x,
        None => return None,
    };
    if after_path > b.len() || b.len() - after_path < 20 {
        return None;
    }
    let size = read_u64_at(b, after_path);
    let secs = from_bits(read_u64_at(b, after_path + 8));
    let nanos = read_u32_at(b, after_path + 16);
    let (hash, after_hash) = match read_str_at(b, after_path + 20) {
        Some(x) => x,
        None => return None,
    };
    Some((FileState { path, size, modified: UtcTime { secs, nanos }, hash }, after_hash))
}

fn paths_distinct(v: &Vec<FileState>) -> (r: bool)
    ensures
        r == unique_paths(v@.map_values(|e: FileState| e@)),
{
    let ghost s = v@.map_values(|e: FileState| e@);
    let mut i: usize = 0;
    while i < v.len()
        invariant
            s == v@.map_values(|e: FileState| e@),
            i <= v@.len(),
            forall|a: int, c: int| 0 <= a < i && 0 <= c < s.len() && a != c ==> s[a].path != s[c].path,
        decreases v.len() - i,
    {
        let mut j: usize = 0;
        while j < v.len()
            invariant
                s == v@.map_values(|e: FileState| e@),
                i < v@.len(),
                j <= v@.len(),
                forall|a: int, c: int| 0 <= a < i && 0 <= c < s.len() && a != c ==> s[a].path != s[c].path,
                forall|c: int| 0 <= c < j && c != i ==> s[i as int].path != s[c].path,
            decreases v.len() - j,
        {
            if j != i && v[i].path == v[j].path {
                assert(s[i as int].path == s[j as int].path);
                return false;
            }
            j = j + 1;
        }
        i = i + 1;
    }
    true
}

impl ChangeDetector {
    /// The cache in its binary format (see `encode_cache`).
    pub fn encode(&self) -> (r: Vec<u8>)
        ensures
            r@ == encode_cache(self.entries()),
            encodable(self.entries()),
    {
        let mut out: Vec<u8> = vec![0x45, 0x49, 0x58, 0x43];
        assert(out@ =~= cache_magic());
        let v = u32_to_le_bytes(CACHE_FORMAT_VERSION);
        push_bytes(&mut out, v.as_slice());
        push_u64(&mut out, self.cache.len() as u64);
        let ghost s = self.entries();
        let ghost head = out@;
        let mut i: usize = 0;
        while i < self.cache.len()
            invariant
                s == self.entries(),
                i <= s.len(),
                out@ == head + enc_states(s.subrange(0, i as int)),
                forall|k: int|
                    0 <= k < i ==> encode_utf8((#[trigger] s[k]).path).len() <= u64::MAX && encode_utf8(
                        s[k].hash,
                    ).len() <= u64::MAX,
            decreases self.cache.len() - i,
        {
            let e = &self.cache[i];
            push_str(&mut out, &e.path);
            push_u64(&mut out, e.size);
            push_u64(&mut out, to_bits(e.modified.secs));
            let nb = u32_to_le_bytes(e.modified.nanos);
            push_bytes(&mut out, nb.as_slice());
            push_str(&mut out, &e.hash);
            proof {
                lemma_enc_states_push(s.subrange(0, i as int), s[i as int]);
                assert(s.subrange(0, i as int).push(s[i as int]) =~= s.subrange(0, i + 1));
            }
            i = i + 1;
        }
        assert(s.subrange(0, s.len() as int) =~= s);
        out
    }

    /// Reads a cache written by `encode`. Gives `None` when the bytes are not
    /// a cache in this format, or hold two states for one path.
    pub fn decode(b: &[u8]) -> (r: Option<ChangeDetector>)
        ensures
            match r {
                Some(d) => d.wf() && parse_cache(b@) == Some(d.entries()),
                None => match parse_cache(b@) {
                    Some(s) => !unique_paths(s),
                    None => true,
                },
            },
    {
        if b.len() < CACHE_HEADER_LEN {
            return None;
        }
        let magic: Vec<u8> = vec![0x45, 0x49, 0x58, 0x43];
        assert(magic@ =~= cache_magic());
        if !crate::text::starts_with_bytes(b, magic.as_slice()) {
            return None;
        }
        if read_u32_at(b, 4) != CACHE_FORMAT_VERSION {
            return None;
        }
        let n = read_u64_at(b, 8);
        let mut states: Vec<FileState> = Vec::new();
        let mut pos: usize = CACHE_HEADER_LEN;
        let mut i: u64 = 0;
        while i < n
            invariant
                i <= n,
                n == read_u64(b@, 8),
                parse_cache(b@) == prepend(
                    states@.map_values(|e: FileState| e@),
                    parse_states(b@, pos as int, (n - i) as nat),
                ),
            decreases n - i,
        {
            match read_state_at(b, pos) {
                Some((e, after_hash)) => {
                    let ghost acc = states@.map_values(|e: FileState| e@);
                    proof {
                        let tail = parse_states(b@, after_hash as int, (n - i - 1) as nat);
                        match tail {
                            Some(t) => {
                                assert(acc + (seq![e@] + t) =~= acc.push(e@) + t);
                            },
                            None => {},
                        }
                    }
                    states.push(e);
                    pos = after_hash;
                    assert(states@.map_values(|e: FileState| e@) =~= acc.push(e@));
                },
                None => {
                    return None;
                },
            }
            i = i + 1;
        }
        if pos != b.len() {
            return None;
        }
        assert(prepend(states@.map_values(|e: FileState| e@), Some(seq![])) == Some(
            states@.map_values(|e: FileState| e@),
        )) by {
            assert(states@.map_values(|e: FileState| e@) + seq![] =~= states@.map_values(
                |e: FileState| e@,
            ));
        }
        if !paths_distinct(&states) {
            return None;
        }
        Some(ChangeDetector { cache: states })
    }
}

proof fn lemma_enc_states_push(s: Seq<FileStateView>, e: FileStateView)
    ensures
        enc_states(s.push(e)) == enc_states(s) + enc_state(e),
    decreases s.len(),
{
    if s.len() == 0 {
        assert(s.push(e).drop_first() =~= Seq::<FileStateView>::empty());
        assert(enc_states(s.push(e).drop_first()) =~= Seq::<u8>::empty());
        assert(enc_states(s) =~= Seq::<u8>::empty());
        assert(enc_states(s.push(e)) =~= enc_states(s) + enc_state(e));
    } else {
        lemma_enc_states_push(s.drop_first(), e);
        assert(s.push(e).drop_first() =~= s.drop_first().push(e));
        assert(enc_states(s.push(e)) =~= enc_states(s) + enc_state(e));
    }
}

} // verus!
