//! Advisory file lock manager.
//!
//! An in-memory table mapping file paths to the domain holding them,
//! with at most one distinct holder per path. `snapshot` and `restore`
//! convert the table to and from a flat list of records for crash
//! recovery; writing and reading the snapshot file itself is left to
//! the embedding program.

use vstd::map::*;
use vstd::prelude::*;

use crate::errors::LockError;
use crate::kvmap::{
    entry_map, lemma_entry_map_contains, lemma_entry_map_index, lemma_entry_map_push,
    lemma_entry_map_remove, unique_keys,
};
use crate::strutil::str_eq;
use crate::types::{now_millis, DomainId};

verus! {

/// A single advisory file lock.
pub struct FileLock {
    pub path: String,
    pub holder: DomainId,
    /// Milliseconds since the Unix epoch at acquisition.
    pub acquired_at: u64,
}

/// Key of a lock record: its path.
pub open spec fn lock_key() -> spec_fn(FileLock) -> Seq<char> {
    |l: FileLock| l.path@
}

/// Value of a lock record: its holder and acquisition time.
pub open spec fn lock_val() -> spec_fn(FileLock) -> (Seq<char>, u64) {
    |l: FileLock| (l.holder@, l.acquired_at)
}

/// The table described by a list of lock records: path to
/// (holder, acquisition time), later records with the same path
/// superseding earlier ones.
pub open spec fn lock_map(locks: Seq<FileLock>) -> Map<Seq<char>, (Seq<char>, u64)> {
    entry_map(locks, lock_key(), lock_val())
}

/// No two records name the same path.
pub open spec fn unique_paths(locks: Seq<FileLock>) -> bool {
    unique_keys(locks, lock_key())
}

/// Field-by-field equality of two lock records, up to views.
pub open spec fn lock_view_eq(x: FileLock, y: FileLock) -> bool {
    &&& x.path@ == y.path@
    &&& x.holder@ == y.holder@
    &&& x.acquired_at == y.acquired_at
}

/// Record-by-record equality of two lock lists, by field views.
pub open spec fn locks_match(a: Seq<FileLock>, b: Seq<FileLock>) -> bool {
    &&& a.len() == b.len()
    &&& forall|i: int| 0 <= i < a.len() ==> lock_view_eq(#[trigger] a[i], b[i])
}

/// Two lock lists that hold the same records, in whatever order.
pub open spec fn same_records(a: Seq<FileLock>, b: Seq<FileLock>) -> bool {
    &&& forall|i: int|
        0 <= i < a.len() ==> exists|j: int| 0 <= j < b.len() && lock_view_eq(#[trigger] a[i], b[j])
    &&& forall|j: int|
        0 <= j < b.len() ==> exists|i: int| 0 <= i < a.len() && lock_view_eq(a[i], #[trigger] b[j])
}

/// The tables on which `acquire(path, holder)` succeeds: the path is
/// unheld, or already held by this same holder.
pub open spec fn acquire_ok(
    t: Map<Seq<char>, (Seq<char>, u64)>,
    path: Seq<char>,
    holder: Seq<char>,
) -> bool {
    !t.contains_key(path) || t[path].0 == holder
}

/// The tables on which `release(path, holder)` succeeds: the path is
/// unheld (release is idempotent), or held by this same holder.
pub open spec fn release_ok(
    t: Map<Seq<char>, (Seq<char>, u64)>,
    path: Seq<char>,
    holder: Seq<char>,
) -> bool {
    !t.contains_key(path) || t[path].0 == holder
}

pub proof fn lemma_locks_match_map(a: Seq<FileLock>, b: Seq<FileLock>)
    requires
        locks_match(a, b),
    ensures
        lock_map(a) == lock_map(b),
        unique_paths(a) == unique_paths(b),
    decreases a.len(),
{
    if a.len() == 0 {
        assert(lock_map(a) =~= lock_map(b));
    } else {
        assert(locks_match(a.drop_last(), b.drop_last())) by {
            assert forall|i: int|
                0 <= i < a.drop_last().len() implies lock_view_eq(
                #[trigger] a.drop_last()[i],
                b.drop_last()[i],
            ) by {
                assert(a.drop_last()[i] == a[i]);
                assert(b.drop_last()[i] == b[i]);
            }
        }
        lemma_locks_match_map(a.drop_last(), b.drop_last());
        assert(lock_view_eq(a.last(), b.last()));
        assert(lock_map(a) =~= lock_map(b));
    }
    assert forall|i: int, j: int| 0 <= i < j < a.len() implies (lock_key()(a[i]) != lock_key()(
        a[j],
    )) == (lock_key()(b[i]) != lock_key()(b[j])) by {
        assert(lock_view_eq(a[i], b[i]));
        assert(lock_view_eq(a[j], b[j]));
    }
}

/// Law: a table rebuilt from the same set of records, in whatever
/// order they were written or read back, is the same table. Together
/// with the contracts of `snapshot` and `restore` this gives the
/// round trip: restoring a snapshot of a lock manager reproduces a
/// table with the identical (path, holder, acquisition time) records,
/// regardless of record order.
#[verifier::rlimit(60)]
pub proof fn lemma_restore_order_independent(a: Seq<FileLock>, b: Seq<FileLock>)
    requires
        unique_paths(a),
        unique_paths(b),
        same_records(a, b),
    ensures
        lock_map(a) == lock_map(b),
{
    assert_maps_equal!(entry_map(a, lock_key(), lock_val()), entry_map(b, lock_key(), lock_val()), k => {
        lemma_entry_map_contains(a, lock_key(), lock_val(), k);
        lemma_entry_map_contains(b, lock_key(), lock_val(), k);
        if lock_map(a).contains_key(k) {
            let i = choose|i: int| 0 <= i < a.len() && lock_key()(a[i]) == k;
            assert(exists|j: int| 0 <= j < b.len() && lock_view_eq(a[i], b[j]));
            let j = choose|j: int| 0 <= j < b.len() && lock_view_eq(a[i], b[j]);
            lemma_entry_map_index(a, lock_key(), lock_val(), i);
            lemma_entry_map_index(b, lock_key(), lock_val(), j);
        }
        if lock_map(b).contains_key(k) {
            let j = choose|j: int| 0 <= j < b.len() && lock_key()(b[j]) == k;
            assert(exists|i: int| 0 <= i < a.len() && lock_view_eq(a[i], b[j]));
            let i = choose|i: int| 0 <= i < a.len() && lock_view_eq(a[i], b[j]);
            lemma_entry_map_index(a, lock_key(), lock_val(), i);
            lemma_entry_map_index(b, lock_key(), lock_val(), j);
        }
    });
}

/// Law: mutual exclusion. After `acquire(p, h1)` succeeds the table
/// holds `p -> h1`, so by `acquire`'s contract a later `acquire(p, h2)`
/// with `h2 != h1` must fail with a conflict and leave the table
/// unchanged, while a repeated `acquire(p, h1)` succeeds and leaves
/// the table -- which holds exactly one entry for `p` -- unchanged.
pub proof fn lemma_acquire_exclusive(
    t: Map<Seq<char>, (Seq<char>, u64)>,
    p: Seq<char>,
    h1: Seq<char>,
    h2: Seq<char>,
    ts: u64,
)
    requires
        h1 != h2,
    ensures
        !acquire_ok(t.insert(p, (h1, ts)), p, h2),
        acquire_ok(t.insert(p, (h1, ts)), p, h1),
        t.insert(p, (h1, ts)).insert(p, (h1, ts)) == t.insert(p, (h1, ts)),
{
    assert(t.insert(p, (h1, ts)).insert(p, (h1, ts)) =~= t.insert(p, (h1, ts)));
}

/// Law: releasing an unheld path succeeds and changes nothing, and a
/// release by anyone but the current holder is refused, so by
/// `release`'s contract it leaves the lock unchanged.
pub proof fn lemma_release_semantics(
    t: Map<Seq<char>, (Seq<char>, u64)>,
    p: Seq<char>,
    h1: Seq<char>,
    h2: Seq<char>,
)
    requires
        h1 != h2,
    ensures
        !t.contains_key(p) ==> release_ok(t, p, h2) && t.remove(p) == t,
        t.contains_key(p) && t[p].0 == h1 ==> !release_ok(t, p, h2),
{
    if !t.contains_key(p) {
        assert(t.remove(p) =~= t);
    }
}

fn find_index(locks: &Vec<FileLock>, path: &str) -> (r: Option<usize>)
    ensures
        match r {
            Some(i) => i < locks@.len() && locks@[i as int].path@ == path@,
            None => forall|i: int| 0 <= i < locks@.len() ==> locks@[i].path@ != path@,
        },
{
    let mut i: usize = 0;
    while i < locks.len()
        invariant
            i <= locks@.len(),
            forall|j: int| 0 <= j < i ==> locks@[j].path@ != path@,
        decreases locks@.len() - i,
    {
        if str_eq(locks[i].path.as_str(), path) {
            return Some(i);
        }
        i += 1;
    }
    None
}

/// Manages advisory file locks across domains.
pub struct LockManager {
    locks: Vec<FileLock>,
}

impl LockManager {
    /// The lock table: path to (holder, acquisition time).
    pub closed spec fn table(&self) -> Map<Seq<char>, (Seq<char>, u64)> {
        lock_map(self.locks@)
    }

    /// Well-formedness: no path occurs twice in the backing list.
    pub closed spec fn wf(&self) -> bool {
        unique_paths(self.locks@)
    }

    /// The path is currently held by this holder.
    pub open spec fn holds(&self, path: Seq<char>, holder: Seq<char>) -> bool {
        self.table().contains_key(path) && self.table()[path].0 == holder
    }

    pub fn new() -> (r: LockManager)
        ensures
            r.wf(),
            r.table() == Map::<Seq<char>, (Seq<char>, u64)>::empty(),
    {
        LockManager { locks: Vec::new() }
    }

    /// Acquire an advisory lock on a file path for a domain.
    ///
    /// A no-op if the path is already held by this same holder; an
    /// immediate `LockConflict` naming the current holder if held by a
    /// different one. Conflict is never queued or waited out.
    pub fn acquire(&mut self, path: String, holder: DomainId) -> (r: Result<(), LockError>)
        requires
            old(self).wf(),
        ensures
            final(self).wf(),
            match r {
                Ok(()) => {
                    &&& acquire_ok(old(self).table(), path@, holder@)
                    &&& final(self).holds(path@, holder@)
                    &&& final(self).table() == old(self).table().insert(
                        path@,
                        (holder@, final(self).table()[path@].1),
                    )
                    &&& old(self).table().contains_key(path@) ==> final(self).table() == old(
                        self,
                    ).table()
                },
                Err(LockError::LockConflict { path: cp, holder: ch }) => {
                    &&& !acquire_ok(old(self).table(), path@, holder@)
                    &&& cp@ == path@
                    &&& ch@ == old(self).table()[path@].0
                    &&& final(self).table() == old(self).table()
                },
            },
    {
        let ghost p = path@;
        let ghost h = holder@;
        match find_index(&self.locks, path.as_str()) {
            Some(i) => {
                proof {
                    lemma_entry_map_index(self.locks@, lock_key(), lock_val(), i as int);
                }
                if self.locks[i].holder.eq_id(&holder) {
                    proof {
                        assert(self.table()[p] == (h, self.table()[p].1));
                        assert(self.table().insert(p, (h, self.table()[p].1)) =~= self.table());
                    }
                    Ok(())
                } else {
                    let ch = self.locks[i].holder.clone_id();
                    Err(LockError::LockConflict { path, holder: ch })
                }
            },
            None => {
                proof {
                    lemma_entry_map_contains(self.locks@, lock_key(), lock_val(), p);
                }
                let ts = now_millis();
                let l = FileLock { path, holder, acquired_at: ts };
                proof {
                    lemma_entry_map_push(self.locks@, lock_key(), lock_val(), l);
                }
                self.locks.push(l);
                Ok(())
            },
        }
    }

    /// Release a lock on a file path.
    ///
    /// Releasing an unheld path succeeds (idempotent); releasing a path
    /// held by a different holder fails with `LockConflict` and leaves
    /// the lock unchanged.
    pub fn release(&mut self, path: &str, holder: &DomainId) -> (r: Result<(), LockError>)
        requires
            old(self).wf(),
        ensures
            final(self).wf(),
            match r {
                Ok(()) => {
                    &&& release_ok(old(self).table(), path@, holder@)
                    &&& final(self).table() == old(self).table().remove(path@)
                },
                Err(LockError::LockConflict { path: cp, holder: ch }) => {
                    &&& !release_ok(old(self).table(), path@, holder@)
                    &&& cp@ == path@
                    &&& ch@ == old(self).table()[path@].0
                    &&& final(self).table() == old(self).table()
                },
            },
    {
        match find_index(&self.locks, path) {
            Some(i) => {
                proof {
                    lemma_entry_map_index(self.locks@, lock_key(), lock_val(), i as int);
                }
                if self.locks[i].holder.eq_id(holder) {
                    proof {
                        lemma_entry_map_remove(self.locks@, lock_key(), lock_val(), i as int);
                    }
                    self.locks.remove(i);
                    Ok(())
                } else {
                    let ch = self.locks[i].holder.clone_id();
                    Err(LockError::LockConflict { path: path.to_owned(), holder: ch })
                }
            },
            None => {
                proof {
                    lemma_entry_map_contains(self.locks@, lock_key(), lock_val(), path@);
                    assert(self.table().remove(path@) =~= self.table());
                }
                Ok(())
            },
        }
    }

    /// The full current table as a flat list of records, one per held
    /// path, for the crash-recovery snapshot file. The embedding
    /// program serializes this list and atomically replaces any prior
    /// snapshot file with it (write-then-replace, never append).
    pub fn snapshot(&self) -> (r: Vec<FileLock>)
        requires
            self.wf(),
        ensures
            unique_paths(r@),
            lock_map(r@) == self.table(),
    {
        let mut out: Vec<FileLock> = Vec::new();
        let mut i: usize = 0;
        while i < self.locks.len()
            invariant
                i <= self.locks@.len(),
                locks_match(out@, self.locks@.take(i as int)),
            decreases self.locks@.len() - i,
        {
            let l = &self.locks[i];
            out.push(
                FileLock {
                    path: l.path.clone(),
                    holder: l.holder.clone_id(),
                    acquired_at: l.acquired_at,
                },
            );
            i += 1;
            proof {
                assert(self.locks@.take(i as int).drop_last() =~= self.locks@.take(i - 1));
            }
        }
        proof {
            assert(self.locks@.take(self.locks@.len() as int) =~= self.locks@);
            lemma_locks_match_map(out@, self.locks@);
        }
        out
    }

    /// Insert one record, superseding any existing record with the
    /// same path.
    fn insert_record(&mut self, l: FileLock)
        requires
            old(self).wf(),
        ensures
            final(self).wf(),
            final(self).table() == old(self).table().insert(l.path@, (l.holder@, l.acquired_at)),
    {
        let ghost t0 = self.table();
        match find_index(&self.locks, l.path.as_str()) {
            Some(i) => {
                proof {
                    lemma_entry_map_remove(self.locks@, lock_key(), lock_val(), i as int);
                }
                self.locks.remove(i);
            },
            None => {
                proof {
                    lemma_entry_map_contains(self.locks@, lock_key(), lock_val(), l.path@);
                    assert(self.table().remove(l.path@) =~= self.table());
                }
            },
        }
        proof {
            assert(self.table() == t0.remove(l.path@));
            lemma_entry_map_contains(self.locks@, lock_key(), lock_val(), l.path@);
            lemma_entry_map_push(self.locks@, lock_key(), lock_val(), l);
        }
        self.locks.push(l);
        proof {
            assert(self.table() =~= t0.insert(l.path@, (l.holder@, l.acquired_at)));
        }
    }

    /// Rebuild a lock table from snapshot records, later records with
    /// the same path superseding earlier ones. Used only at startup,
    /// never as a mid-run merge.
    pub fn restore(records: Vec<FileLock>) -> (r: LockManager)
        ensures
            r.wf(),
            r.table() == lock_map(records@),
    {
        let mut m = LockManager::new();
        proof {
            assert(lock_map(records@.take(0)) =~= Map::<Seq<char>, (Seq<char>, u64)>::empty());
        }
        let mut i: usize = 0;
        while i < records.len()
            invariant
                i <= records@.len(),
                m.wf(),
                m.table() == lock_map(records@.take(i as int)),
            decreases records@.len() - i,
        {
            let rec = &records[i];
            m.insert_record(
                FileLock {
                    path: rec.path.clone(),
                    holder: rec.holder.clone_id(),
                    acquired_at: rec.acquired_at,
                },
            );
            i += 1;
            proof {
                assert(records@.take(i as int).drop_last() =~= records@.take(i - 1));
                assert(records@.take(i as int).last() == records@[i - 1]);
            }
        }
        proof {
            assert(records@.take(records@.len() as int) =~= records@);
        }
        m
    }

    /// A consistent point-in-time view of all currently held locks.
    pub fn list(&self) -> (r: &Vec<FileLock>)
        requires
            self.wf(),
        ensures
            unique_paths(r@),
            lock_map(r@) == self.table(),
    {
        &self.locks
    }
}

impl Default for LockManager {
    fn default() -> (r: LockManager)
        ensures
            r.wf(),
            r.table() == Map::<Seq<char>, (Seq<char>, u64)>::empty(),
    {
        LockManager::new()
    }
}

} // verus!
