//! The cache index: the authoritative record of what is cached.
//!
//! [`CacheInnerData`] owns the set of cache entries, the aggregate usage
//! counter and the configured byte budget.  All decisions — reservation,
//! completion, removal, and the eviction walk — are made here and verified;
//! the file system and the network are driven from outside.  A driver that
//! needs disk work done receives an explicit instruction ([`EvictStep`]),
//! performs it, and reports the outcome back, so the index never touches a
//! file itself.
//!
//! Invariants kept by every operation: the sum of the entries' sizes equals
//! the tracked usage, and no two entries share a path.

use vstd::prelude::*;

use crate::token::UsageToken;
use crate::util::bytes_eq;
use crate::util::bytes_of;

verus! {

/// Mathematical image of one cache entry (the ownership token carries no
/// observable value and is left out).
pub ghost struct EntryModel {
    pub path: Seq<u8>,
    pub size: u64,
    pub last_accessed: u64,
    pub ready: bool,
}

/// Mathematical image of the whole index.
pub ghost struct IndexModel {
    pub entries: Seq<EntryModel>,
    pub usage: u64,
    pub limit: u64,
}

/// One cached (or in-flight) resource.
pub struct CacheEntry {
    path: Vec<u8>,
    size: u64,
    last_accessed: u64,
    token: UsageToken,
    ready: bool,
}

impl View for CacheEntry {
    type V = EntryModel;

    closed spec fn view(&self) -> EntryModel {
        EntryModel {
            path: self.path@,
            size: self.size,
            last_accessed: self.last_accessed,
            ready: self.ready,
        }
    }
}

/// The sum of the sizes of a sequence of entries.
pub open spec fn sum_sizes(s: Seq<EntryModel>) -> int
    decreases s.len(),
{
    if s.len() == 0 {
        0
    } else {
        sum_sizes(s.drop_last()) + s.last().size
    }
}

/// Position of the first entry with the given path, scanning from the front.
pub open spec fn spec_find(s: Seq<EntryModel>, path: Seq<u8>) -> Option<int>
    decreases s.len(),
{
    if s.len() == 0 {
        None
    } else if s[0].path == path {
        Some(0int)
    } else {
        match spec_find(s.drop_first(), path) {
            Some(i) => Some(i + 1),
            None => None,
        }
    }
}

/// Whether some entry has the given path.
pub open spec fn has_path(s: Seq<EntryModel>, path: Seq<u8>) -> bool {
    spec_find(s, path) is Some
}

/// No two entries share a path.
pub open spec fn paths_unique(s: Seq<EntryModel>) -> bool {
    forall|i: int, j: int| 0 <= i < j < s.len() ==> s[i].path != s[j].path
}

/// What `spec_find` returns: the first match, or nothing when no entry has
/// the path.
pub proof fn lemma_spec_find(s: Seq<EntryModel>, path: Seq<u8>)
    ensures
        match spec_find(s, path) {
            Some(i) => 0 <= i < s.len() && s[i].path == path && (forall|j: int|
                0 <= j < i ==> s[j].path != path),
            None => forall|j: int| 0 <= j < s.len() ==> s[j].path != path,
        },
    decreases s.len(),
{
    if s.len() > 0 && s[0].path != path {
        lemma_spec_find(s.drop_first(), path);
        assert(forall|j: int| 0 <= j < s.drop_first().len() ==> s.drop_first()[j] == s[j + 1]);
        match spec_find(s.drop_first(), path) {
            Some(i) => {
                assert(s[i + 1].path == path);
                assert forall|j: int| 0 <= j < i + 1 implies s[j].path != path by {
                    if j > 0 {
                        assert(s.drop_first()[j - 1].path != path);
                    }
                }
            },
            None => {
                assert forall|j: int| 0 <= j < s.len() implies s[j].path != path by {
                    if j > 0 {
                        assert(s.drop_first()[j - 1].path != path);
                    }
                }
            },
        }
    }
}

/// A witness at position `i`, with no earlier match, fixes `spec_find`.
pub proof fn lemma_spec_find_witness(s: Seq<EntryModel>, path: Seq<u8>, i: int)
    requires
        0 <= i < s.len(),
        s[i].path == path,
        forall|j: int| 0 <= j < i ==> s[j].path != path,
    ensures
        spec_find(s, path) == Some(i),
    decreases s.len(),
{
    if i > 0 {
        lemma_spec_find_witness(s.drop_first(), path, i - 1);
    }
}

/// With no match anywhere, `spec_find` returns nothing.
pub proof fn lemma_spec_find_none(s: Seq<EntryModel>, path: Seq<u8>)
    requires
        forall|j: int| 0 <= j < s.len() ==> s[j].path != path,
    ensures
        spec_find(s, path) is None,
    decreases s.len(),
{
    if s.len() > 0 {
        lemma_spec_find_none(s.drop_first(), path);
    }
}

/// Every size is non-negative, so the sum is, too.
pub proof fn lemma_sum_nonneg(s: Seq<EntryModel>)
    ensures
        sum_sizes(s) >= 0,
    decreases s.len(),
{
    if s.len() > 0 {
        lemma_sum_nonneg(s.drop_last());
    }
}

/// Removing one entry subtracts exactly its size from the sum.
pub proof fn lemma_sum_remove(s: Seq<EntryModel>, i: int)
    requires
        0 <= i < s.len(),
    ensures
        sum_sizes(s.remove(i)) == sum_sizes(s) - s[i].size,
    decreases s.len(),
{
    if i == s.len() - 1 {
        assert(s.remove(i) =~= s.drop_last());
    } else {
        assert(s.remove(i).drop_last() =~= s.drop_last().remove(i));
        assert(s.remove(i).last() == s.last());
        lemma_sum_remove(s.drop_last(), i);
    }
}

/// Appending one entry adds exactly its size to the sum.
pub proof fn lemma_sum_push(s: Seq<EntryModel>, e: EntryModel)
    ensures
        sum_sizes(s.push(e)) == sum_sizes(s) + e.size,
{
    assert(s.push(e).drop_last() =~= s);
}

/// Replacing one entry shifts the sum by the difference of the sizes.
pub proof fn lemma_sum_update(s: Seq<EntryModel>, i: int, e: EntryModel)
    requires
        0 <= i < s.len(),
    ensures
        sum_sizes(s.update(i, e)) == sum_sizes(s) - s[i].size + e.size,
    decreases s.len(),
{
    if i == s.len() - 1 {
        assert(s.update(i, e).drop_last() =~= s.drop_last());
        assert(s.update(i, e).last() == e);
    } else {
        assert(s.update(i, e).drop_last() =~= s.drop_last().update(i, e));
        assert(s.update(i, e).last() == s.last());
        lemma_sum_update(s.drop_last(), i, e);
    }
}

/// Hence no single entry is larger than the sum.
pub proof fn lemma_entry_le_sum(s: Seq<EntryModel>, i: int)
    requires
        0 <= i < s.len(),
    ensures
        s[i].size <= sum_sizes(s),
{
    lemma_sum_remove(s, i);
    lemma_sum_nonneg(s.remove(i));
}

/// The mutex-guarded core of the cache: entry set, usage accounting and the
/// eviction algorithm.  A surrounding store is expected to hold one value of
/// this type under a lock and to perform the file-system work the eviction
/// walk asks for.
pub struct CacheInnerData {
    cache_usage: u64,
    size_limit: u64,
    entries: Vec<CacheEntry>,
}

impl View for CacheInnerData {
    type V = IndexModel;

    closed spec fn view(&self) -> IndexModel {
        IndexModel {
            entries: self.entries@.map_values(|e: CacheEntry| e@),
            usage: self.cache_usage,
            limit: self.size_limit,
        }
    }
}

impl CacheInnerData {
    /// Well-formedness: the usage counter equals the sum of the entry sizes,
    /// and paths are unique.
    pub open spec fn wf(&self) -> bool {
        &&& sum_sizes(self@.entries) == self@.usage as int
        &&& paths_unique(self@.entries)
    }

    /// An empty index with the given byte budget.
    pub fn new(size_limit: u64) -> (r: CacheInnerData)
        ensures
            r.wf(),
            r@.entries.len() == 0,
            r@.usage == 0,
            r@.limit == size_limit,
    {
        let r = CacheInnerData { cache_usage: 0, size_limit, entries: Vec::new() };
        proof {
            assert(r@.entries =~= Seq::<EntryModel>::empty());
        }
        r
    }

    /// Current usage and configured limit, as one snapshot.
    pub fn cache_space(&self) -> (r: (u64, u64))
        ensures
            r.0 == self@.usage,
            r.1 == self@.limit,
    {
        (self.cache_usage, self.size_limit)
    }

    /// Index of the entry with this path, if one exists.
    fn find_index(&self, path: &[u8]) -> (r: Option<usize>)
        ensures
            match r {
                Some(i) => spec_find(self@.entries, path@) == Some(i as int),
                None => spec_find(self@.entries, path@) is None,
            },
    {
        let mut i: usize = 0;
        while i < self.entries.len()
            invariant
                i <= self@.entries.len(),
                self@.entries.len() == self.entries@.len(),
                forall|j: int| 0 <= j < i ==> self@.entries[j].path != path@,
            decreases self@.entries.len() - i,
        {
            if bytes_eq(self.entries[i].path.as_slice(), path) {
                proof {
                    lemma_spec_find_witness(self@.entries, path@, i as int);
                }
                return Some(i);
            }
            i = i + 1;
        }
        proof {
            lemma_spec_find_none(self@.entries, path@);
        }
        None
    }

    /// Token and readiness of the entry at this path, without mutation.
    pub fn has_cache_entry(&self, path: &[u8]) -> (r: Option<(UsageToken, bool)>)
        ensures
            match spec_find(self@.entries, path@) {
                Some(i) => r is Some && r->Some_0.1 == self@.entries[i].ready,
                None => r is None,
            },
    {
        match self.find_index(path) {
            Some(i) => {
                proof {
                    lemma_spec_find(self@.entries, path@);
                }
                Some((self.entries[i].token.duplicate(), self.entries[i].ready))
            },
            None => None,
        }
    }

    /// Readiness of the entry at this path; nothing when the entry vanished,
    /// which a waiter must treat as "retry from scratch".
    pub fn is_entry_ready(&self, path: &[u8]) -> (r: Option<bool>)
        ensures
            match spec_find(self@.entries, path@) {
                Some(i) => r == Some(self@.entries[i].ready),
                None => r is None,
            },
    {
        match self.find_index(path) {
            Some(i) => {
                proof {
                    lemma_spec_find(self@.entries, path@);
                }
                Some(self.entries[i].ready)
            },
            None => None,
        }
    }

    /// Inserts a fresh stub — a reservation for a fetch in progress — and
    /// returns its ownership token.  The caller must have checked, under the
    /// same lock, that no entry with this path exists.
    pub fn add_entry_stub(&mut self, path: Vec<u8>, now: u64) -> (token: UsageToken)
        requires
            old(self).wf(),
            !has_path(old(self)@.entries, path@),
        ensures
            final(self).wf(),
            final(self)@.entries == old(self)@.entries.push(
                (EntryModel { path: path@, size: 0, last_accessed: now, ready: false }),
            ),
            final(self)@.usage == old(self)@.usage,
            final(self)@.limit == old(self)@.limit,
    {
        let ghost model = (EntryModel { path: path@, size: 0, last_accessed: now, ready: false });
        proof {
            lemma_spec_find(old(self)@.entries, path@);
            lemma_sum_push(old(self)@.entries, model);
        }
        let token = UsageToken::new();
        let entry = CacheEntry {
            path,
            size: 0,
            last_accessed: now,
            token: token.duplicate(),
            ready: false,
        };
        self.entries.push(entry);
        proof {
            assert(self@.entries =~= old(self)@.entries.push(model));
            assert forall|i: int, j: int| 0 <= i < j < self@.entries.len() implies self@.entries[i].path
                != self@.entries[j].path by {
                if j == self@.entries.len() - 1 {
                    lemma_spec_find(old(self)@.entries, path@);
                }
            }
        }
        token
    }

    /// Deletes the entry at this path (used on any fetch failure), giving
    /// its accounted size back to the budget.  Without an entry at the path
    /// this is a no-op.
    pub fn remove_entry_stub(&mut self, path: &[u8])
        requires
            old(self).wf(),
        ensures
            final(self).wf(),
            final(self)@.limit == old(self)@.limit,
            match spec_find(old(self)@.entries, path@) {
                Some(i) => final(self)@.entries == old(self)@.entries.remove(i)
                    && final(self)@.usage == old(self)@.usage - old(self)@.entries[i].size,
                None => final(self)@ == old(self)@,
            },
    {
        match self.find_index(path) {
            Some(i) => {
                proof {
                    lemma_spec_find(self@.entries, path@);
                    lemma_sum_remove(self@.entries, i as int);
                    lemma_sum_nonneg(self@.entries.remove(i as int));
                }
                let entry = self.entries.remove(i);
                self.cache_usage = self.cache_usage - entry.size;
                proof {
                    assert(self@.entries =~= old(self)@.entries.remove(i as int));
                }
            },
            None => {
            },
        }
    }

    /// Marks the entry at this path ready: its content is durably published
    /// under its final name.  Without an entry at the path this is a no-op.
    pub fn complete_entry_stub(&mut self, path: &[u8])
        requires
            old(self).wf(),
        ensures
            final(self).wf(),
            final(self)@.limit == old(self)@.limit,
            final(self)@.usage == old(self)@.usage,
            match spec_find(old(self)@.entries, path@) {
                Some(i) => final(self)@.entries == old(self)@.entries.update(
                    i,
                    (EntryModel { ready: true, ..old(self)@.entries[i] }),
                ),
                None => final(self)@ == old(self)@,
            },
    {
        match self.find_index(path) {
            Some(i) => {
                proof {
                    lemma_spec_find(self@.entries, path@);
                    lemma_sum_update(
                        self@.entries,
                        i as int,
                        (EntryModel { ready: true, ..self@.entries[i as int] }),
                    );
                }
                let mut entry = self.entries.remove(i);
                entry.ready = true;
                self.entries.insert(i, entry);
                proof {
                    assert(self@.entries =~= old(self)@.entries.update(
                        i as int,
                        (EntryModel { ready: true, ..old(self)@.entries[i as int] }),
                    ));
                }
            },
            None => {
            },
        }
    }

    /// Commits a now-known content length into the stub at this path.
    ///
    /// `space_ok` is the verdict of the eviction walk for this size (see
    /// [`CacheInnerData::evict_begin`]); the caller runs that walk first,
    /// under the same lock.  On a negative verdict — or when the committed
    /// usage would not fit the counter, or the stub has vanished — the stub
    /// is removed and `false` is returned: the signal to bypass the cache
    /// for this fetch.
    pub fn set_stub_length(&mut self, path: &[u8], size: u64, space_ok: bool) -> (ok: bool)
        requires
            old(self).wf(),
        ensures
            final(self).wf(),
            final(self)@.limit == old(self)@.limit,
            ({
                let s = old(self)@.entries;
                match spec_find(s, path@) {
                    Some(i) => {
                        if space_ok && old(self)@.usage - s[i].size + size <= u64::MAX {
                            ok && final(self)@.entries == s.update(
                                i,
                                (EntryModel { size, ..s[i] }),
                            ) && final(self)@.usage == old(self)@.usage - s[i].size + size
                        } else {
                            !ok && final(self)@.entries == s.remove(i) && final(self)@.usage
                                == old(self)@.usage - s[i].size
                        }
                    },
                    None => !ok && final(self)@ == old(self)@,
                }
            }),
    {
        match self.find_index(path) {
            Some(i) => {
                proof {
                    lemma_spec_find(self@.entries, path@);
                    lemma_entry_le_sum(self@.entries, i as int);
                }
                let old_size = self.entries[i].size;
                let reduced = self.cache_usage - old_size;
                if space_ok && size <= u64::MAX - reduced {
                    proof {
                        lemma_sum_update(
                            self@.entries,
                            i as int,
                            (EntryModel { size, ..self@.entries[i as int] }),
                        );
                    }
                    let mut entry = self.entries.remove(i);
                    entry.size = size;
                    self.entries.insert(i, entry);
                    self.cache_usage = reduced + size;
                    proof {
                        assert(self@.entries =~= old(self)@.entries.update(
                            i as int,
                            (EntryModel { size, ..old(self)@.entries[i as int] }),
                        ));
                    }
                    true
                } else {
                    proof {
                        lemma_sum_remove(self@.entries, i as int);
                    }
                    let _ = self.entries.remove(i);
                    self.cache_usage = reduced;
                    proof {
                        assert(self@.entries =~= old(self)@.entries.remove(i as int));
                    }
                    false
                }
            },
            None => false,
        }
    }

    /// One atomic lookup-or-reserve, the first step of every `get`:
    /// a hit hands back the entry's token, a miss reserves a stub and makes
    /// the caller the sole owner of the fetch for this key.
    pub fn lookup_or_reserve(&mut self, path: &[u8], now: u64) -> (r: LookupOutcome)
        requires
            old(self).wf(),
        ensures
            final(self).wf(),
            final(self)@.limit == old(self)@.limit,
            final(self)@.usage == old(self)@.usage,
            match spec_find(old(self)@.entries, path@) {
                Some(i) => final(self)@ == old(self)@ && if old(self)@.entries[i].ready {
                    r is Ready
                } else {
                    r is Pending
                },
                None => r is Owner && final(self)@.entries == old(self)@.entries.push(
                    (EntryModel { path: path@, size: 0, last_accessed: now, ready: false }),
                ),
            },
    {
        match self.has_cache_entry(path) {
            Some((token, ready)) => {
                if ready {
                    LookupOutcome::Ready { token }
                } else {
                    LookupOutcome::Pending { token }
                }
            },
            None => {
                let token = self.add_entry_stub(bytes_of(path), now);
                LookupOutcome::Owner { token }
            },
        }
    }

    /// Restores an index from a directory scan, as done once at startup:
    /// every plain file becomes a ready entry.  Anything else inside the
    /// cache directory is a fatal configuration error, as are records the
    /// accounting cannot represent (a duplicate path, or a total size
    /// beyond the counter).
    pub fn from_scan(size_limit: u64, records: Vec<ScanRecord>) -> (r: Result<
        CacheInnerData,
        CacheInitError,
    >)
        ensures
            r is Ok <==> scan_ok(records@),
            match r {
                Ok(idx) => {
                    &&& idx.wf()
                    &&& idx@.limit == size_limit
                    &&& idx@.entries.len() == records@.len()
                    &&& forall|i: int|
                        0 <= i < records@.len() ==> idx@.entries[i] == (EntryModel {
                            path: records@[i].path@,
                            size: records@[i].size,
                            last_accessed: records@[i].last_accessed,
                            ready: true,
                        })
                },
                Err(e) => {
                    &&& e == CacheInitError::NonFileEntry ==> exists|i: int|
                        0 <= i < records@.len() && !records@[i].is_file
                    &&& e == CacheInitError::DuplicatePath ==> exists|i: int, j: int|
                        0 <= i < j < records@.len() && records@[i].path@ == records@[j].path@
                    &&& e == CacheInitError::UsageOverflow ==> sum_scan(records@) > u64::MAX
                },
            },
    {
        let ghost orig = records@;
        let mut idx = CacheInnerData::new(size_limit);
        let mut k: usize = 0;
        let mut rest = records;
        let total = rest.len();
        proof {
            assert(orig.len() == total as int);
        }
        while rest.len() > 0
            invariant
                idx.wf(),
                idx@.limit == size_limit,
                idx@.entries.len() == k,
                orig == records@,
                orig.len() <= usize::MAX,
                k + rest@.len() == orig.len(),
                rest@ =~= orig.subrange(k as int, orig.len() as int),
                idx@.usage as int == sum_scan(orig.take(k as int)),
                forall|i: int|
                    0 <= i < k ==> idx@.entries[i] == (EntryModel {
                        path: orig[i].path@,
                        size: orig[i].size,
                        last_accessed: orig[i].last_accessed,
                        ready: true,
                    }),
                forall|i: int| 0 <= i < k ==> orig[i].is_file,
            decreases rest@.len(),
        {
            proof {
                assert(rest@[0] == orig[k as int]);
                assert(orig.take(k + 1).drop_last() =~= orig.take(k as int));
            }
            let rec = rest.remove(0);
            if !rec.is_file {
                proof {
                    assert(0 <= (k as int) < orig.len());
                    assert(!orig[k as int].is_file);
                    assert(!scan_ok(orig));
                }
                return Err(CacheInitError::NonFileEntry);
            }
            let size = rec.size;
            let ghost path_snap = rec.path@;
            if !idx.add_ready_entry(rec.path, size, rec.last_accessed) {
                if size > u64::MAX - idx.cache_usage {
                    proof {
                        lemma_sum_scan_bound(orig, k as int);
                    }
                    return Err(CacheInitError::UsageOverflow);
                } else {
                    proof {
                        lemma_spec_find(idx@.entries, path_snap);
                        let m = spec_find(idx@.entries, path_snap)->Some_0;
                        assert(idx@.entries[m].path == orig[m].path@);
                        assert(0 <= m < k as int && orig[m].path@ == orig[k as int].path@);
                        assert(exists|i: int, j: int|
                            0 <= i < j < orig.len() && orig[i].path@ == orig[j].path@);
                    }
                    return Err(CacheInitError::DuplicatePath);
                }
            }
            k = k + 1;
        }
        proof {
            assert(orig.take(k as int) =~= orig);
            assert forall|i: int, j: int| 0 <= i < j < orig.len() implies orig[i].path@
                != orig[j].path@ by {
                assert(idx@.entries[i].path == orig[i].path@);
                assert(idx@.entries[j].path == orig[j].path@);
            }
        }
        Ok(idx)
    }

    /// Adds one already-published file to the index, as found on disk at
    /// startup.  Fails (without mutating) on a duplicate path or when the
    /// usage counter would overflow.
    pub fn add_ready_entry(&mut self, path: Vec<u8>, size: u64, last_accessed: u64) -> (ok: bool)
        requires
            old(self).wf(),
        ensures
            final(self).wf(),
            final(self)@.limit == old(self)@.limit,
            ok == (!has_path(old(self)@.entries, path@) && old(self)@.usage + size
                <= u64::MAX),
            ok ==> final(self)@.entries == old(self)@.entries.push(
                (EntryModel { path: path@, size, last_accessed, ready: true }),
            ) && final(self)@.usage == old(self)@.usage + size,
            !ok ==> final(self)@ == old(self)@,
    {
        if self.find_index(path.as_slice()).is_some() {
            return false;
        }
        if size > u64::MAX - self.cache_usage {
            return false;
        }
        let ghost model = (EntryModel { path: path@, size, last_accessed, ready: true });
        proof {
            lemma_spec_find(old(self)@.entries, path@);
            lemma_sum_push(old(self)@.entries, model);
        }
        let entry = CacheEntry { path, size, last_accessed, token: UsageToken::new(), ready: true };
        self.entries.push(entry);
        self.cache_usage = self.cache_usage + size;
        proof {
            assert(self@.entries =~= old(self)@.entries.push(model));
            assert forall|i: int, j: int| 0 <= i < j < self@.entries.len() implies self@.entries[i].path
                != self@.entries[j].path by {
                if j == self@.entries.len() - 1 {
                    lemma_spec_find(old(self)@.entries, path@);
                }
            }
        }
        true
    }

    /// The paths of all entries whose name carries the temporary suffix:
    /// leftovers of a crashed run, to be purged at startup.  Order follows
    /// the index.
    pub fn bak_paths(&self) -> (r: Vec<Vec<u8>>)
        ensures
            ({
                let f = self@.entries.filter(|e: EntryModel| is_bak_path(e.path));
                r@.len() == f.len() && forall|j: int| 0 <= j < f.len() ==> r@[j]@ == f[j].path
            }),
    {
        let ghost pred = |e: EntryModel| is_bak_path(e.path);
        let mut out: Vec<Vec<u8>> = Vec::new();
        let mut i: usize = 0;
        proof {
            reveal(Seq::filter);
            assert(self@.entries.take(0).filter(pred) =~= Seq::<EntryModel>::empty());
        }
        while i < self.entries.len()
            invariant
                i <= self@.entries.len(),
                self@.entries.len() == self.entries@.len(),
                pred == (|e: EntryModel| is_bak_path(e.path)),
                out@.len() == self@.entries.take(i as int).filter(pred).len(),
                forall|j: int|
                    0 <= j < out@.len() ==> out@[j]@ == self@.entries.take(i as int).filter(
                        pred,
                    )[j].path,
            decreases self@.entries.len() - i,
        {
            proof {
                reveal(Seq::filter);
                assert(self@.entries.take(i + 1).drop_last() =~= self@.entries.take(i as int));
                assert(self@.entries.take(i + 1).last() == self@.entries[i as int]);
            }
            let ghost prev = self@.entries.take(i as int).filter(pred);
            let ghost cur = self@.entries.take(i + 1).filter(pred);
            if bak_suffix_check(self.entries[i].path.as_slice()) {
                proof {
                    reveal(Seq::filter);
                    assert(cur =~= prev.push(self@.entries[i as int]));
                }
                out.push(bytes_of(self.entries[i].path.as_slice()));
            } else {
                proof {
                    reveal(Seq::filter);
                    assert(cur =~= prev);
                }
            }
            i = i + 1;
        }
        proof {
            assert(self@.entries.take(self@.entries.len() as int) =~= self@.entries);
        }
        out
    }

    /// Whether the budget equation already holds: the free space under the
    /// limit covers `required`.
    fn space_available(&self, required: u64) -> (r: bool)
        ensures
            r == budget_ok(self@, required),
    {
        required <= self.size_limit && self.cache_usage <= self.size_limit - required
    }

    /// The instruction that continues the eviction walk from the scan's
    /// current position: finished (one way or the other), or a busy probe
    /// of the next candidate.
    fn evict_next(&self, scan: &EvictScan) -> (step: EvictStep)
        ensures
            is_next_step(self@, scan.spec_required(), scan.spec_pos(), step),
    {
        if self.space_available(scan.required) {
            EvictStep::Done { ok: true }
        } else if scan.pos >= self.entries.len() {
            EvictStep::Done { ok: false }
        } else {
            EvictStep::CheckBusy
        }
    }

    /// Opens an eviction walk for `required` bytes.
    ///
    /// With enough free space the walk finishes at once with `true`; with
    /// `required` beyond the limit it finishes at once with `false`, the
    /// index untouched — no amount of eviction could help.  Otherwise the
    /// entries are ordered oldest-first and the walk starts at the front.
    /// The driver performs each returned [`EvictStep`] and reports back
    /// through `evict_on_busy`, `evict_on_stat` and `evict_on_removed`
    /// until `Done` is reached.
    pub fn evict_begin(&mut self, required: u64) -> (r: (EvictScan, EvictStep))
        requires
            old(self).wf(),
        ensures
            final(self).wf(),
            final(self)@.usage == old(self)@.usage,
            final(self)@.limit == old(self)@.limit,
            r.0.spec_required() == required,
            ({
                let m = old(self)@;
                if budget_ok(m, required) {
                    final(self)@ == m && r.1 == (EvictStep::Done { ok: true })
                } else if required > m.limit {
                    final(self)@ == m && r.1 == (EvictStep::Done { ok: false })
                } else {
                    &&& final(self)@.entries.to_multiset() == m.entries.to_multiset()
                    &&& sorted_by_atime(final(self)@.entries)
                    &&& r.0.spec_pos() == 0
                    &&& is_next_step(final(self)@, required, 0, r.1)
                }
            }),
    {
        let scan = EvictScan { required, pos: 0 };
        if self.space_available(required) {
            return (scan, EvictStep::Done { ok: true });
        }
        if required > self.size_limit {
            return (scan, EvictStep::Done { ok: false });
        }
        self.sort_entries();
        let step = self.evict_next(&scan);
        (scan, step)
    }

    /// Observes whether the current candidate's ownership token has more
    /// than one live holder.  The count is shared, mutable state, so the
    /// observation is a snapshot with no further promise; the walk's
    /// reaction to it is fixed by `evict_on_busy`.
    pub fn probe_busy(&self, scan: &EvictScan) -> bool {
        if scan.pos < self.entries.len() {
            self.entries[scan.pos].token.is_shared()
        } else {
            false
        }
    }

    /// Consumes a busy observation.  A busy candidate is skipped and
    /// nothing else happens: no eviction ever removes an entry whose token
    /// was seen with more than one live holder.  A free candidate is next
    /// asked to be re-stated (`Stat`) before anything is deleted.
    pub fn evict_on_busy(&mut self, scan: &mut EvictScan, busy: bool) -> (step: EvictStep)
        requires
            old(self).wf(),
        ensures
            final(self).wf(),
            final(self)@ == old(self)@,
            final(scan).spec_required() == old(scan).spec_required(),
            ({
                let m = old(self)@;
                let req = old(scan).spec_required();
                let pos = old(scan).spec_pos();
                if budget_ok(m, req) || pos >= m.entries.len() {
                    *final(scan) == *old(scan) && is_next_step(m, req, pos, step)
                } else if busy {
                    final(scan).spec_pos() == pos + 1 && is_next_step(m, req, pos + 1, step)
                } else {
                    *final(scan) == *old(scan) && (step matches EvictStep::Stat { path }
                        && path@ == m.entries[pos].path)
                }
            }),
    {
        if self.space_available(scan.required) || scan.pos >= self.entries.len() {
            return self.evict_next(scan);
        }
        if busy {
            scan.pos = scan.pos + 1;
            self.evict_next(scan)
        } else {
            EvictStep::Stat { path: bytes_of(self.entries[scan.pos].path.as_slice()) }
        }
    }

    /// Consumes the outcome of re-stating the current candidate's file.
    ///
    /// An unchanged access time confirms the candidate as the oldest free
    /// entry: its file may be deleted (`Remove`).  A newer access time is
    /// recorded and the entries re-ordered — someone touched the file — and
    /// the walk retries at the same logical position.  A permission error
    /// skips the entry for this walk.  A vanished file is dropped from the
    /// index and its accounted size reclaimed, with no deletion asked for.
    pub fn evict_on_stat(&mut self, scan: &mut EvictScan, outcome: StatOutcome) -> (step:
        EvictStep)
        requires
            old(self).wf(),
        ensures
            final(self).wf(),
            final(self)@.limit == old(self)@.limit,
            final(scan).spec_required() == old(scan).spec_required(),
            ({
                let m = old(self)@;
                let req = old(scan).spec_required();
                let pos = old(scan).spec_pos();
                if budget_ok(m, req) || pos >= m.entries.len() {
                    final(self)@ == m && *final(scan) == *old(scan) && is_next_step(m, req, pos, step)
                } else {
                    match outcome {
                        StatOutcome::Accessed { atime } => {
                            if atime == m.entries[pos].last_accessed {
                                final(self)@ == m && *final(scan) == *old(scan) && (step matches
                                EvictStep::Remove { path } && path@ == m.entries[pos].path)
                            } else {
                                &&& final(self)@.usage == m.usage
                                &&& final(self)@.entries.to_multiset()
                                    == m.entries.to_multiset().remove(m.entries[pos]).insert(
                                    (EntryModel { last_accessed: atime, ..m.entries[pos] }),
                                )
                                &&& sorted_by_atime(final(self)@.entries)
                                &&& final(scan).spec_pos() == pos
                                &&& is_next_step(final(self)@, req, pos, step)
                            }
                        },
                        StatOutcome::Denied => final(self)@ == m && final(scan).spec_pos() == pos
                            + 1 && is_next_step(m, req, pos + 1, step),
                        StatOutcome::Missing => {
                            &&& final(self)@.entries == m.entries.remove(pos)
                            &&& final(self)@.usage == m.usage - m.entries[pos].size
                            &&& final(scan).spec_pos() == pos
                            &&& is_next_step(final(self)@, req, pos, step)
                        },
                    }
                }
            }),
    {
        if self.space_available(scan.required) || scan.pos >= self.entries.len() {
            return self.evict_next(scan);
        }
        match outcome {
            StatOutcome::Accessed { atime } => {
                if atime == self.entries[scan.pos].last_accessed {
                    EvictStep::Remove { path: bytes_of(self.entries[scan.pos].path.as_slice()) }
                } else {
                    let ghost m = self@;
                    let ghost pos = scan.pos as int;
                    proof {
                        broadcast use vstd::seq_lib::group_to_multiset_ensures;

                        lemma_sum_remove(m.entries, pos);
                        lemma_sum_push(
                            m.entries.remove(pos),
                            (EntryModel { last_accessed: atime, ..m.entries[pos] }),
                        );
                    }
                    let mut e = self.entries.remove(scan.pos);
                    e.last_accessed = atime;
                    self.entries.push(e);
                    proof {
                        broadcast use vstd::seq_lib::group_to_multiset_ensures;

                        assert(self@.entries =~= m.entries.remove(pos).push(
                            (EntryModel { last_accessed: atime, ..m.entries[pos] }),
                        ));
                        lemma_unique_remove_push_same_path(
                            m.entries,
                            pos,
                            (EntryModel { last_accessed: atime, ..m.entries[pos] }),
                        );
                    }
                    self.sort_entries();
                    self.evict_next(scan)
                }
            },
            StatOutcome::Denied => {
                scan.pos = scan.pos + 1;
                self.evict_next(scan)
            },
            StatOutcome::Missing => {
                proof {
                    lemma_spec_drop_entry(self@.entries, scan.pos as int);
                }
                let e = self.entries.remove(scan.pos);
                self.cache_usage = self.cache_usage - e.size;
                proof {
                    assert(self@.entries =~= old(self)@.entries.remove(scan.pos as int));
                }
                self.evict_next(scan)
            },
        }
    }

    /// Consumes the outcome of deleting the confirmed candidate's file.
    /// Whatever the file system said — deleted, already gone, or failed —
    /// the entry leaves the index and its accounted size is reclaimed, so
    /// the index never keeps referencing a file that might not exist.
    pub fn evict_on_removed(&mut self, scan: &mut EvictScan) -> (step: EvictStep)
        requires
            old(self).wf(),
        ensures
            final(self).wf(),
            final(self)@.limit == old(self)@.limit,
            final(scan).spec_required() == old(scan).spec_required(),
            ({
                let m = old(self)@;
                let req = old(scan).spec_required();
                let pos = old(scan).spec_pos();
                if budget_ok(m, req) || pos >= m.entries.len() {
                    final(self)@ == m && *final(scan) == *old(scan) && is_next_step(m, req, pos, step)
                } else {
                    &&& final(self)@.entries == m.entries.remove(pos)
                    &&& final(self)@.usage == m.usage - m.entries[pos].size
                    &&& final(scan).spec_pos() == pos
                    &&& is_next_step(final(self)@, req, pos, step)
                }
            }),
    {
        if self.space_available(scan.required) || scan.pos >= self.entries.len() {
            return self.evict_next(scan);
        }
        proof {
            lemma_spec_drop_entry(self@.entries, scan.pos as int);
        }
        let e = self.entries.remove(scan.pos);
        self.cache_usage = self.cache_usage - e.size;
        proof {
            assert(self@.entries =~= old(self)@.entries.remove(scan.pos as int));
        }
        self.evict_next(scan)
    }

    /// Reorders the entries oldest-first by recorded access time.  The
    /// entries themselves, the usage and the limit are untouched.
    fn sort_entries(&mut self)
        requires
            old(self).wf(),
        ensures
            final(self).wf(),
            final(self)@.usage == old(self)@.usage,
            final(self)@.limit == old(self)@.limit,
            final(self)@.entries.to_multiset() == old(self)@.entries.to_multiset(),
            sorted_by_atime(final(self)@.entries),
    {
        broadcast use vstd::seq_lib::group_to_multiset_ensures;

        let mut rest: Vec<CacheEntry> = Vec::new();
        core::mem::swap(&mut rest, &mut self.entries);
        let ghost orig = rest@.map_values(|e: CacheEntry| e@);
        proof {
            assert(orig =~= old(self)@.entries);
            assert(self@.entries =~= Seq::<EntryModel>::empty());
            assert(self@.entries.to_multiset().add(orig.to_multiset()) =~= orig.to_multiset());
        }
        while rest.len() > 0
            invariant
                self.cache_usage == old(self).cache_usage,
                self.size_limit == old(self).size_limit,
                orig == old(self)@.entries,
                self@.entries.to_multiset().add(rest@.map_values(|e: CacheEntry| e@).to_multiset())
                    == orig.to_multiset(),
                sum_sizes(self@.entries) + sum_sizes(rest@.map_values(|e: CacheEntry| e@))
                    == sum_sizes(orig),
                sorted_by_atime(self@.entries),
                forall|i: int, j: int|
                    0 <= i < self@.entries.len() && 0 <= j < rest@.len()
                        ==> self@.entries[i].last_accessed <= rest@[j]@.last_accessed,
                paths_unique(self@.entries),
                paths_unique(rest@.map_values(|e: CacheEntry| e@)),
                forall|i: int, j: int|
                    0 <= i < self@.entries.len() && 0 <= j < rest@.len() ==> self@.entries[i].path
                        != rest@[j]@.path,
            decreases rest@.len(),
        {
            broadcast use vstd::seq_lib::group_to_multiset_ensures;

            let ghost sm = self@.entries;
            let ghost rm = rest@.map_values(|e: CacheEntry| e@);
            let m = min_atime_index(&rest);
            proof {
                lemma_sum_remove(rm, m as int);
                lemma_sum_push(sm, rm[m as int]);
            }
            let e = rest.remove(m);
            self.entries.push(e);
            proof {
                assert(rest@.map_values(|e: CacheEntry| e@) =~= rm.remove(m as int));
                assert(self@.entries =~= sm.push(rm[m as int]));
                assert(self@.entries.to_multiset().add(
                    rest@.map_values(|e: CacheEntry| e@).to_multiset(),
                ) =~= orig.to_multiset());
                assert forall|i: int, j: int|
                    0 <= i < self@.entries.len() && 0 <= j
                        < rest@.len() implies self@.entries[i].path != rest@[j]@.path by {
                    assert(rest@[j]@ == rm.remove(m as int)[j]);
                    if j < m as int {
                        assert(rm.remove(m as int)[j] == rm[j]);
                    } else {
                        assert(rm.remove(m as int)[j] == rm[j + 1]);
                    }
                    if i < sm.len() {
                        assert(self@.entries[i] == sm[i]);
                    } else {
                        assert(self@.entries[i] == rm[m as int]);
                    }
                }
            }
        }
        proof {
            assert(rest@.map_values(|e: CacheEntry| e@) =~= Seq::<EntryModel>::empty());
            assert(self@.entries.to_multiset().add(Seq::<EntryModel>::empty().to_multiset())
                =~= self@.entries.to_multiset());
        }
    }
}

/// The position of an entry with the oldest recorded access time.
fn min_atime_index(v: &Vec<CacheEntry>) -> (m: usize)
    requires
        v@.len() > 0,
    ensures
        m < v@.len(),
        forall|j: int| 0 <= j < v@.len() ==> v@[m as int]@.last_accessed <= v@[j]@.last_accessed,
{
    let mut m: usize = 0;
    let mut i: usize = 1;
    while i < v.len()
        invariant
            m < i <= v@.len(),
            forall|j: int| 0 <= j < i ==> v@[m as int]@.last_accessed <= v@[j]@.last_accessed,
        decreases v@.len() - i,
    {
        if v[i].last_accessed < v[m].last_accessed {
            m = i;
        }
        i = i + 1;
    }
    m
}

/// Removing an entry keeps the sum accounted and the paths unique.
proof fn lemma_spec_drop_entry(s: Seq<EntryModel>, i: int)
    requires
        0 <= i < s.len(),
        paths_unique(s),
    ensures
        sum_sizes(s.remove(i)) == sum_sizes(s) - s[i].size,
        sum_sizes(s.remove(i)) >= 0,
        s[i].size <= sum_sizes(s),
        paths_unique(s.remove(i)),
{
    lemma_sum_remove(s, i);
    lemma_sum_nonneg(s.remove(i));
}

/// Taking an entry out and putting it back with the same path (and size)
/// keeps the paths unique.
proof fn lemma_unique_remove_push_same_path(s: Seq<EntryModel>, i: int, e: EntryModel)
    requires
        0 <= i < s.len(),
        paths_unique(s),
        e.path == s[i].path,
    ensures
        paths_unique(s.remove(i).push(e)),
{
    let t = s.remove(i).push(e);
    assert forall|a: int, b: int| 0 <= a < b < t.len() implies t[a].path != t[b].path by {
        if b < t.len() - 1 {
            if a < i && b < i {
                assert(t[a] == s[a] && t[b] == s[b]);
            } else if a < i {
                assert(t[a] == s[a] && t[b] == s[b + 1]);
            } else {
                assert(t[a] == s[a + 1] && t[b] == s[b + 1]);
            }
        } else {
            assert(t[b] == e);
            if a < i {
                assert(t[a] == s[a]);
            } else {
                assert(t[a] == s[a + 1]);
            }
        }
    }
}

/// At every quiescent point — whenever the index is well-formed, which
/// every operation here establishes anew — the tracked aggregate usage
/// equals the sum of the entries' sizes.
pub proof fn lemma_usage_is_sum_of_sizes(idx: CacheInnerData)
    requires
        idx.wf(),
    ensures
        sum_sizes(idx@.entries) == idx@.usage as int,
{
}

/// Entries ordered by recorded access time, oldest first.
pub open spec fn sorted_by_atime(s: Seq<EntryModel>) -> bool {
    forall|i: int, j: int| 0 <= i < j < s.len() ==> s[i].last_accessed <= s[j].last_accessed
}

/// Whether the free space under the limit already covers `required`.
pub open spec fn budget_ok(m: IndexModel, required: u64) -> bool {
    m.usage + required <= m.limit
}

/// The instruction that continues an eviction walk over index state `m`
/// from position `pos`: finished successfully once the budget equation
/// holds, finished unsuccessfully once the candidates are exhausted, and
/// a busy probe of the candidate at `pos` otherwise.
pub open spec fn is_next_step(m: IndexModel, required: u64, pos: int, step: EvictStep) -> bool {
    if budget_ok(m, required) {
        step == (EvictStep::Done { ok: true })
    } else if pos >= m.entries.len() {
        step == (EvictStep::Done { ok: false })
    } else {
        step is CheckBusy
    }
}

/// The cursor of an eviction walk: how much space it must free and which
/// candidate it currently examines.
pub struct EvictScan {
    required: u64,
    pos: usize,
}

impl EvictScan {
    /// The space this walk was asked to free.
    pub closed spec fn spec_required(&self) -> u64 {
        self.required
    }

    /// The position of the candidate under examination.
    pub closed spec fn spec_pos(&self) -> int {
        self.pos as int
    }
}

/// An instruction handed to the eviction driver.
pub enum EvictStep {
    /// The walk has finished: `ok` says whether the budget equation holds.
    Done { ok: bool },
    /// Probe the current candidate's token (`probe_busy`) and report the
    /// observation to `evict_on_busy`.
    CheckBusy,
    /// Re-stat the candidate's file and report the outcome to
    /// `evict_on_stat`.
    Stat { path: Vec<u8> },
    /// Delete the candidate's file — tolerating "already gone" — and
    /// report to `evict_on_removed`.
    Remove { path: Vec<u8> },
}

/// What re-stating a candidate's file yielded.
pub enum StatOutcome {
    /// The file is there; its access time reads `atime`.
    Accessed { atime: u64 },
    /// The file is there but unreadable for the moment (a permission
    /// error): skip it this round and retry on a later walk.
    Denied,
    /// The file no longer exists.
    Missing,
}

/// The reserved suffix marking an in-flight download's temporary file.
pub open spec fn spec_bak_suffix() -> Seq<u8> {
    seq![46u8, 98u8, 97u8, 107u8]
}

/// Whether a path carries the temporary suffix (".bak").
pub open spec fn is_bak_path(p: Seq<u8>) -> bool {
    p.len() >= 4 && p.subrange(p.len() - 4, p.len() as int) == spec_bak_suffix()
}

/// Whether a path carries the temporary suffix.
pub fn bak_suffix_check(p: &[u8]) -> (r: bool)
    ensures
        r == is_bak_path(p@),
{
    let suffix: [u8; 4] = [46u8, 98u8, 97u8, 107u8];
    proof {
        assert(suffix@ =~= spec_bak_suffix());
    }
    crate::util::bytes_ends_with(p, suffix.as_slice())
}

/// Outcome of the atomic lookup-or-reserve step of `get`.
pub enum LookupOutcome {
    /// The entry exists and its content is published: the hot path.
    Ready { token: UsageToken },
    /// Another fetch for this key is in flight; wait for readiness, then
    /// retry from scratch.
    Pending { token: UsageToken },
    /// No entry existed; a stub has been reserved and the caller owns the
    /// fetch for this key.
    Owner { token: UsageToken },
}

/// One record of the startup directory scan.
pub struct ScanRecord {
    pub path: Vec<u8>,
    pub size: u64,
    pub last_accessed: u64,
    pub is_file: bool,
}

/// Total size named by a directory scan.
pub open spec fn sum_scan(rs: Seq<ScanRecord>) -> int
    decreases rs.len(),
{
    if rs.len() == 0 {
        0
    } else {
        sum_scan(rs.drop_last()) + rs.last().size
    }
}

/// A scan the index can be restored from: only plain files, no duplicate
/// paths, and a total size the usage counter can hold.
pub open spec fn scan_ok(rs: Seq<ScanRecord>) -> bool {
    &&& forall|i: int| 0 <= i < rs.len() ==> rs[i].is_file
    &&& forall|i: int, j: int| 0 <= i < j < rs.len() ==> rs[i].path@ != rs[j].path@
    &&& sum_scan(rs) <= u64::MAX
}

/// The whole scan names at least as many bytes as any prefix extended by
/// the next record (sizes are never negative).
pub proof fn lemma_sum_scan_bound(rs: Seq<ScanRecord>, k: int)
    requires
        0 <= k < rs.len(),
    ensures
        sum_scan(rs) >= sum_scan(rs.take(k)) + rs[k].size,
    decreases rs.len(),
{
    if k == rs.len() - 1 {
        assert(rs.take(k) =~= rs.drop_last());
        lemma_sum_scan_nonneg(rs.drop_last());
    } else {
        lemma_sum_scan_bound(rs.drop_last(), k);
        assert(rs.drop_last().take(k) =~= rs.take(k));
    }
}

/// A scan never names a negative number of bytes.
pub proof fn lemma_sum_scan_nonneg(rs: Seq<ScanRecord>)
    ensures
        sum_scan(rs) >= 0,
    decreases rs.len(),
{
    if rs.len() > 0 {
        lemma_sum_scan_nonneg(rs.drop_last());
    }
}

/// Why restoring the index from a directory scan failed.
#[derive(PartialEq, Eq, Structural, Clone, Copy, Debug)]
pub enum CacheInitError {
    /// Something other than a plain file sits in the cache directory: the
    /// foundational invariant is violated and construction must fail.
    NonFileEntry,
    /// Two scan records name the same path.
    DuplicatePath,
    /// The scanned sizes do not fit the usage counter.
    UsageOverflow,
}

} // verus!
