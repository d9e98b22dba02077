//! The catalog: one row per indexed media file and its thumbnail state.
//! Rows are created `Pending` by the indexer, claimed by the worker
//! (`Pending -> Generating`) and closed as `Ready` or `Failed`. A row's id is
//! its position; rows are never removed, so ids are never reused.

use crate::keys::get_thumbnail_filename;
use crate::keys::thumbnail_filename;
use vstd::prelude::*;

verus! {

/// Where a row stands in thumbnail generation.
#[derive(Clone, Copy, Debug, PartialEq, Eq, Structural)]
pub enum Status {
    Pending,
    Generating,
    Ready,
    Failed,
}

/// One indexed media file.
#[derive(Debug)]
pub struct MediaFile {
    pub id: usize,
    pub absolute_path: String,
    /// Name of the cached artifact, derived from `absolute_path`.
    pub cache_key: String,
    pub status: Status,
    /// Set exactly when the row is `Ready`.
    pub thumbnail_location: Option<String>,
    /// Set exactly when the row is `Failed`.
    pub last_error: Option<String>,
    pub discovered_at: u64,
    pub updated_at: u64,
}

/// Why a catalog transition was refused.
#[derive(Clone, Copy, Debug, PartialEq, Eq, Structural)]
pub enum CatalogError {
    /// No row has this id.
    NotFound,
    /// The row is not `Generating`, so it cannot be closed.
    NotGenerating,
}

impl MediaFile {
    /// The row's own invariant: the optional fields follow the status, and
    /// the cache key is the one derived from the path.
    pub open spec fn wf(&self) -> bool {
        &&& (self.status == Status::Ready) <==> self.thumbnail_location is Some
        &&& (self.status == Status::Failed) <==> self.last_error is Some
        &&& self.cache_key@ == thumbnail_filename(self.absolute_path@)
    }

    /// `self` is `old` moved to `status` at time `now`, with its identity
    /// kept.
    pub open spec fn moved_from(&self, old: MediaFile, status: Status, now: u64) -> bool {
        &&& self.id == old.id
        &&& self.absolute_path == old.absolute_path
        &&& self.cache_key == old.cache_key
        &&& self.discovered_at == old.discovered_at
        &&& self.status == status
        &&& self.updated_at == now
    }

    /// A copy of the row.
    pub fn duplicate(&self) -> (r: MediaFile)
        ensures
            r == *self,
    {
        MediaFile {
            id: self.id,
            absolute_path: self.absolute_path.clone(),
            cache_key: self.cache_key.clone(),
            status: self.status,
            thumbnail_location: match &self.thumbnail_location {
                Some(l) => Some(l.clone()),
                None => None,
            },
            last_error: match &self.last_error {
                Some(e) => Some(e.clone()),
                None => None,
            },
            discovered_at: self.discovered_at,
            updated_at: self.updated_at,
        }
    }
}

/// The catalog's invariant over its rows: ids are positions, each row is
/// well formed, and no two rows share a path.
pub open spec fn rows_wf(rows: Seq<MediaFile>) -> bool {
    &&& forall|i: int| 0 <= i < rows.len() ==> (#[trigger] rows[i]).id == i && rows[i].wf()
    &&& forall|i: int, j: int|
        0 <= i < rows.len() && 0 <= j < rows.len() && i != j ==> (#[trigger] rows[i]).absolute_path@
            != (#[trigger] rows[j]).absolute_path@
}

/// Whether some row has this path.
pub open spec fn has_path(rows: Seq<MediaFile>, path: Seq<char>) -> bool {
    exists|i: int| 0 <= i < rows.len() && (#[trigger] rows[i]).absolute_path@ == path
}

/// The position of the row with this path, where one exists.
pub open spec fn position_of(rows: Seq<MediaFile>, path: Seq<char>) -> int {
    choose|i: int| 0 <= i < rows.len() && (#[trigger] rows[i]).absolute_path@ == path
}

/// The status of the row with this path, if the path is indexed.
pub open spec fn status_of(rows: Seq<MediaFile>, path: Seq<char>) -> Option<Status> {
    if has_path(rows, path) {
        Some(rows[position_of(rows, path)].status)
    } else {
        None
    }
}

/// The ids of the rows that wait to be claimed.
pub open spec fn pending_ids(rows: Seq<MediaFile>) -> Set<int> {
    Set::new(|i: int| 0 <= i < rows.len() && rows[i].status == Status::Pending)
}

/// `new` is `old` after indexing `path` at `now`, the id of its row being
/// `id`: a known path leaves every row as it was; an unknown one adds a
/// fresh `Pending` row at the end.
pub open spec fn upserted(old: Seq<MediaFile>, new: Seq<MediaFile>, path: Seq<char>, now: u64, id: usize) -> bool {
    if has_path(old, path) {
        new == old && id == position_of(old, path)
    } else {
        &&& new.len() == old.len() + 1
        &&& new.subrange(0, old.len() as int) == old
        &&& id == old.len()
        &&& new[id as int].id == id
        &&& new[id as int].absolute_path@ == path
        &&& new[id as int].cache_key@ == thumbnail_filename(path)
        &&& new[id as int].status == Status::Pending
        &&& new[id as int].thumbnail_location is None
        &&& new[id as int].last_error is None
        &&& new[id as int].discovered_at == now
        &&& new[id as int].updated_at == now
    }
}

/// `new` is `old` with only row `id` replaced by `row`.
pub open spec fn replaced(old: Seq<MediaFile>, new: Seq<MediaFile>, id: int, row: MediaFile) -> bool {
    &&& 0 <= id < old.len()
    &&& new == old.update(id, row)
}

/// `new` is `old` after a claim at `now` that returned `r`: with no pending
/// row nothing changes and nothing is returned; otherwise one pending row
/// moves to `Generating` and is returned as it now stands.
pub open spec fn claimed(old: Seq<MediaFile>, new: Seq<MediaFile>, r: Option<MediaFile>, now: u64) -> bool {
    match r {
        None => pending_ids(old).is_empty() && new == old,
        Some(row) => {
            &&& pending_ids(old).contains(row.id as int)
            &&& row.moved_from(old[row.id as int], Status::Generating, now)
            &&& row.thumbnail_location is None
            &&& row.last_error is None
            &&& replaced(old, new, row.id as int, row)
        },
    }
}

/// The catalog of indexed media files. Its rows change only through the
/// transitions below.
pub struct Catalog {
    rows: Vec<MediaFile>,
}

impl View for Catalog {
    type V = Seq<MediaFile>;

    /// The rows, in id order.
    closed spec fn view(&self) -> Seq<MediaFile> {
        self.rows@
    }
}

impl Catalog {
    /// The catalog's invariant.
    pub open spec fn wf(&self) -> bool {
        rows_wf(self@)
    }

    /// An empty catalog.
    pub fn new() -> (r: Catalog)
        ensures
            r.wf(),
            r@.len() == 0,
    {
        Catalog { rows: Vec::new() }
    }

    /// The number of rows.
    pub fn len(&self) -> (r: usize)
        ensures
            r == self@.len(),
    {
        self.rows.len()
    }

    fn find_path(&self, path: &str) -> (r: Option<usize>)
        requires
            self.wf(),
        ensures
            r is None <==> !has_path(self@, path@),
            r is Some ==> r->0 == position_of(self@, path@) && r->0 < self@.len(),
    {
        let wanted = path.to_owned();
        let mut i: usize = 0;
        while i < self.rows.len()
            invariant
                self.wf(),
                wanted@ == path@,
                0 <= i <= self@.len(),
                forall|j: int| 0 <= j < i ==> (#[trigger] self@[j]).absolute_path@ != path@,
            decreases self@.len() - i,
        {
            if self.rows[i].absolute_path == wanted {
                proof {
                    let p = position_of(self@, path@);
                    assert(self@[i as int].absolute_path@ == path@);
                    assert(has_path(self@, path@));
                    assert(self@[p].absolute_path@ == path@);
                }
                return Some(i);
            }
            i = i + 1;
        }
        None
    }

    /// Records `path` as `Pending` if it is unseen; a known path keeps its
    /// row as it is, whatever its status. Returns the id of the path's row.
    pub fn upsert_pending(&mut self, path: &str, now: u64) -> (r: usize)
        requires
            old(self).wf(),
        ensures
            final(self).wf(),
            upserted(old(self)@, final(self)@, path@, now, r),
    {
        match self.find_path(path) {
            Some(i) => i,
            None => {
                let ghost old_rows = self@;
                let id = self.rows.len();
                let row = MediaFile {
                    id,
                    absolute_path: path.to_owned(),
                    cache_key: get_thumbnail_filename(path),
                    status: Status::Pending,
                    thumbnail_location: None,
                    last_error: None,
                    discovered_at: now,
                    updated_at: now,
                };
                self.rows.push(row);
                proof {
                    assert(self@.subrange(0, old_rows.len() as int) =~= old_rows);
                    assert forall|i: int, j: int|
                        0 <= i < self@.len() && 0 <= j < self@.len() && i != j
                        implies (#[trigger] self@[i]).absolute_path@
                        != (#[trigger] self@[j]).absolute_path@ by {
                        if i < old_rows.len() && j < old_rows.len() {
                            assert(old_rows[i] == self@[i]);
                            assert(old_rows[j] == self@[j]);
                        } else if i < old_rows.len() {
                            assert(old_rows[i] == self@[i]);
                        } else {
                            assert(old_rows[j] == self@[j]);
                        }
                    }
                }
                id
            },
        }
    }

    /// Claims one `Pending` row: it moves to `Generating` and is returned as
    /// it now stands. Returns `None`, changing nothing, when no row is
    /// pending. A claimed row is no longer pending, so no later claim
    /// returns it again.
    pub fn claim_next_pending(&mut self, now: u64) -> (r: Option<MediaFile>)
        requires
            old(self).wf(),
        ensures
            final(self).wf(),
            claimed(old(self)@, final(self)@, r, now),
    {
        match self.first_pending() {
            None => {
                assert(pending_ids(self@) =~= Set::empty());
                None
            },
            Some(i) => {
                assert(pending_ids(self@).contains(i as int));
                Some(self.start_generating(i, now))
            },
        }
    }

    fn first_pending(&self) -> (r: Option<usize>)
        ensures
            r is None ==> forall|j: int|
                0 <= j < self@.len() ==> (#[trigger] self@[j]).status != Status::Pending,
            r is Some ==> r->0 < self@.len() && self@[r->0 as int].status == Status::Pending,
    {
        let mut i: usize = 0;
        while i < self.rows.len()
            invariant
                0 <= i <= self@.len(),
                forall|j: int| 0 <= j < i ==> (#[trigger] self@[j]).status != Status::Pending,
            decreases self@.len() - i,
        {
            if self.rows[i].status == Status::Pending {
                return Some(i);
            }
            i = i + 1;
        }
        None
    }

    fn start_generating(&mut self, i: usize, now: u64) -> (out: MediaFile)
        requires
            old(self).wf(),
            i < old(self)@.len(),
            old(self)@[i as int].status == Status::Pending,
        ensures
            final(self).wf(),
            out.id == i,
            out.moved_from(old(self)@[i as int], Status::Generating, now),
            out.thumbnail_location is None,
            out.last_error is None,
            replaced(old(self)@, final(self)@, i as int, out),
    {
        let ghost old_rows = self@;
        let row = MediaFile {
            id: self.rows[i].id,
            absolute_path: self.rows[i].absolute_path.clone(),
            cache_key: self.rows[i].cache_key.clone(),
            status: Status::Generating,
            thumbnail_location: None,
            last_error: None,
            discovered_at: self.rows[i].discovered_at,
            updated_at: now,
        };
        let out = row.duplicate();
        self.rows.set(i, row);
        proof {
            assert(self@ =~= old_rows.update(i as int, out));
            assert forall|a: int, b: int|
                0 <= a < self@.len() && 0 <= b < self@.len() && a != b
                implies (#[trigger] self@[a]).absolute_path@
                != (#[trigger] self@[b]).absolute_path@ by {
                assert(old_rows[a].absolute_path == self@[a].absolute_path);
                assert(old_rows[b].absolute_path == self@[b].absolute_path);
            }
        }
        out
    }

    /// Closes a `Generating` row as `Ready`, with its artifact at
    /// `location`. Refused, changing nothing, with `NotFound` for an unknown
    /// id and `NotGenerating` for a row in any other state.
    pub fn mark_ready(&mut self, id: usize, location: String, now: u64) -> (r: Result<(), CatalogError>)
        requires
            old(self).wf(),
        ensures
            final(self).wf(),
            (id >= old(self)@.len()) <==> r == Err::<(), CatalogError>(CatalogError::NotFound),
            (id < old(self)@.len() && old(self)@[id as int].status != Status::Generating)
                <==> r == Err::<(), CatalogError>(CatalogError::NotGenerating),
            r is Err ==> final(self)@ == old(self)@,
            r is Ok ==> {
                let row = final(self)@[id as int];
                &&& replaced(old(self)@, final(self)@, id as int, row)
                &&& row.moved_from(old(self)@[id as int], Status::Ready, now)
                &&& row.thumbnail_location == Some(location)
                &&& row.last_error is None
            },
    {
        self.close(id, Some(location), None, now)
    }

    /// Closes a `Generating` row as `Failed`, recording `error`. Refused,
    /// changing nothing, with `NotFound` for an unknown id and
    /// `NotGenerating` for a row in any other state.
    pub fn mark_failed(&mut self, id: usize, error: String, now: u64) -> (r: Result<(), CatalogError>)
        requires
            old(self).wf(),
        ensures
            final(self).wf(),
            (id >= old(self)@.len()) <==> r == Err::<(), CatalogError>(CatalogError::NotFound),
            (id < old(self)@.len() && old(self)@[id as int].status != Status::Generating)
                <==> r == Err::<(), CatalogError>(CatalogError::NotGenerating),
            r is Err ==> final(self)@ == old(self)@,
            r is Ok ==> {
                let row = final(self)@[id as int];
                &&& replaced(old(self)@, final(self)@, id as int, row)
                &&& row.moved_from(old(self)@[id as int], Status::Failed, now)
                &&& row.last_error == Some(error)
                &&& row.thumbnail_location is None
            },
    {
        self.close(id, None, Some(error), now)
    }

    fn close(&mut self, id: usize, location: Option<String>, error: Option<String>, now: u64) -> (r: Result<(), CatalogError>)
        requires
            old(self).wf(),
            location is Some != error is Some,
        ensures
            final(self).wf(),
            (id >= old(self)@.len()) <==> r == Err::<(), CatalogError>(CatalogError::NotFound),
            (id < old(self)@.len() && old(self)@[id as int].status != Status::Generating)
                <==> r == Err::<(), CatalogError>(CatalogError::NotGenerating),
            r is Err ==> final(self)@ == old(self)@,
            r is Ok ==> {
                let row = final(self)@[id as int];
                &&& replaced(old(self)@, final(self)@, id as int, row)
                &&& row.moved_from(
                    old(self)@[id as int],
                    if location is Some { Status::Ready } else { Status::Failed },
                    now,
                )
                &&& row.thumbnail_location == location
                &&& row.last_error == error
            },
    {
        if id >= self.rows.len() {
            return Err(CatalogError::NotFound);
        }
        if self.rows[id].status != Status::Generating {
            return Err(CatalogError::NotGenerating);
        }
        let ghost old_rows = self@;
        let status = if location.is_some() { Status::Ready } else { Status::Failed };
        let row = MediaFile {
            id,
            absolute_path: self.rows[id].absolute_path.clone(),
            cache_key: self.rows[id].cache_key.clone(),
            status,
            thumbnail_location: location,
            last_error: error,
            discovered_at: self.rows[id].discovered_at,
            updated_at: now,
        };
        self.rows.set(id, row);
        proof {
            assert forall|a: int, b: int|
                0 <= a < self@.len() && 0 <= b < self@.len() && a != b
                implies (#[trigger] self@[a]).absolute_path@
                != (#[trigger] self@[b]).absolute_path@ by {
                assert(old_rows[a].absolute_path == self@[a].absolute_path);
                assert(old_rows[b].absolute_path == self@[b].absolute_path);
            }
        }
        Ok(())
    }

    /// The row with this id, if there is one.
    pub fn get_by_id(&self, id: usize) -> (r: Option<MediaFile>)
        ensures
            r is Some <==> id < self@.len(),
            r is Some ==> r->0 == self@[id as int],
    {
        if id < self.rows.len() {
            Some(self.rows[id].duplicate())
        } else {
            None
        }
    }

    /// The row with this path, if the path is indexed.
    pub fn get_by_path(&self, path: &str) -> (r: Option<MediaFile>)
        requires
            self.wf(),
        ensures
            r is Some <==> has_path(self@, path@),
            r is Some ==> r->0 == self@[position_of(self@, path@)],
    {
        match self.find_path(path) {
            Some(i) => Some(self.rows[i].duplicate()),
            None => None,
        }
    }

    /// Returns every `Generating` row to `Pending`, as after a restart that
    /// interrupted their generation; every other row is left as it is.
    pub fn recover_interrupted(&mut self, now: u64)
        requires
            old(self).wf(),
        ensures
            final(self).wf(),
            final(self)@.len() == old(self)@.len(),
            forall|i: int|
                0 <= i < old(self)@.len() ==> {
                    let (a, b) = (old(self)@[i], #[trigger] final(self)@[i]);
                    if a.status == Status::Generating {
                        b.moved_from(a, Status::Pending, now) && b.thumbnail_location is None
                            && b.last_error is None
                    } else {
                        b == a
                    }
                },
    {
        let ghost old_rows = self@;
        let mut i: usize = 0;
        while i < self.rows.len()
            invariant
                rows_wf(self@),
                self@.len() == old_rows.len(),
                0 <= i <= old_rows.len(),
                forall|j: int|
                    0 <= j < old_rows.len() ==> (#[trigger] self@[j]).absolute_path
                        == old_rows[j].absolute_path,
                forall|j: int|
                    i <= j < old_rows.len() ==> #[trigger] self@[j] == old_rows[j],
                forall|j: int|
                    0 <= j < i ==> {
                        let (a, b) = (old_rows[j], #[trigger] self@[j]);
                        if a.status == Status::Generating {
                            b.moved_from(a, Status::Pending, now) && b.thumbnail_location is None
                                && b.last_error is None
                        } else {
                            b == a
                        }
                    },
            decreases old_rows.len() - i,
        {
            if self.rows[i].status == Status::Generating {
                let ghost before = self@;
                let row = MediaFile {
                    id: self.rows[i].id,
                    absolute_path: self.rows[i].absolute_path.clone(),
                    cache_key: self.rows[i].cache_key.clone(),
                    status: Status::Pending,
                    thumbnail_location: None,
                    last_error: None,
                    discovered_at: self.rows[i].discovered_at,
                    updated_at: now,
                };
                self.rows.set(i, row);
                proof {
                    assert forall|a: int, b: int|
                        0 <= a < self@.len() && 0 <= b < self@.len() && a != b
                        implies (#[trigger] self@[a]).absolute_path@
                        != (#[trigger] self@[b]).absolute_path@ by {
                        assert(before[a].absolute_path == self@[a].absolute_path);
                        assert(before[b].absolute_path == self@[b].absolute_path);
                    }
                }
            }
            i = i + 1;
        }
    }
}

/// Indexing an unseen path leaves it `Pending`: a thumbnail request right
/// after indexing finds the file, and finds it not yet available.
pub proof fn lemma_indexed_path_is_pending(
    c0: Seq<MediaFile>,
    c1: Seq<MediaFile>,
    path: Seq<char>,
    now: u64,
    id: usize,
)
    requires
        rows_wf(c0),
        rows_wf(c1),
        !has_path(c0, path),
        upserted(c0, c1, path, now, id),
    ensures
        status_of(c1, path) == Some(Status::Pending),
{
    assert(c1[id as int].absolute_path@ == path);
    assert(has_path(c1, path));
    let p = position_of(c1, path);
    assert(p == id);
}

proof fn lemma_pending_finite(rows: Seq<MediaFile>)
    ensures
        pending_ids(rows).finite(),
{
    vstd::set_lib::lemma_int_range(0, rows.len() as int);
    assert(pending_ids(rows).subset_of(vstd::set_lib::set_int_range(0, rows.len() as int)));
    vstd::set_lib::lemma_len_subset(pending_ids(rows), vstd::set_lib::set_int_range(0, rows.len() as int));
}

proof fn lemma_claim_step(c0: Seq<MediaFile>, c1: Seq<MediaFile>, r: Option<MediaFile>, t: u64)
    requires
        claimed(c0, c1, r, t),
    ensures
        r is None ==> pending_ids(c1) == pending_ids(c0),
        r is Some ==> pending_ids(c1) == pending_ids(c0).remove(r->0.id as int),
{
    if r is Some {
        assert(pending_ids(c1) =~= pending_ids(c0).remove(r->0.id as int));
    }
}

/// `states[k + 1]` follows `states[k]` by a claim at `times[k]` that returned
/// `results[k]`, for each `k`.
pub open spec fn claim_run(states: Seq<Seq<MediaFile>>, results: Seq<Option<MediaFile>>, times: Seq<u64>) -> bool {
    &&& states.len() == results.len() + 1
    &&& times.len() == results.len()
    &&& forall|k: int|
        0 <= k < results.len() ==> claimed(#[trigger] states[k], states[k + 1], results[k], times[k])
}

proof fn lemma_claim_run_prefix(states: Seq<Seq<MediaFile>>, results: Seq<Option<MediaFile>>, times: Seq<u64>, k: int)
    requires
        claim_run(states, results, times),
        0 <= k <= results.len(),
    ensures
        pending_ids(states[k]).finite(),
        pending_ids(states[k]).len() == if k <= pending_ids(states[0]).len() {
            pending_ids(states[0]).len() - k
        } else {
            0
        },
        forall|j: int|
            0 <= j < k ==> ((#[trigger] results[j]) is Some <==> j < pending_ids(states[0]).len()),
        forall|j: int|
            0 <= j < k && (#[trigger] results[j]) is Some ==> !pending_ids(states[k]).contains(
                results[j]->0.id as int,
            ),
    decreases k,
{
    lemma_pending_finite(states[k]);
    lemma_pending_finite(states[0]);
    if k > 0 {
        let p = k - 1;
        lemma_claim_run_prefix(states, results, times, p);
        assert(claimed(states[p], states[p + 1], results[p], times[p]));
        lemma_claim_step(states[p], states[p + 1], results[p], times[p]);
        let before = pending_ids(states[p]);
        match results[p] {
            None => {
                assert(before.len() == 0);
            },
            Some(row) => {
                assert(before.contains(row.id as int));
                vstd::set::axiom_set_remove_len(before, row.id as int);
                if before.len() == 0 {
                    vstd::set_lib::lemma_set_empty_equivalency_len(before);
                    assert(false);
                }
            },
        }
    }
}

/// Claims are exclusive and bounded: in a run of N successive claims on a
/// catalog with M pending rows, exactly the first min(N, M) claims return a
/// row, and no row is returned twice.
pub proof fn lemma_claim_run(states: Seq<Seq<MediaFile>>, results: Seq<Option<MediaFile>>, times: Seq<u64>)
    requires
        claim_run(states, results, times),
    ensures
        forall|k: int|
            0 <= k < results.len() ==> ((#[trigger] results[k]) is Some <==> k < pending_ids(
                states[0],
            ).len()),
        forall|j: int, k: int|
            0 <= j < k < results.len() && (#[trigger] results[j]) is Some && (#[trigger] results[k]) is Some
                ==> results[j]->0.id != results[k]->0.id,
{
    lemma_claim_run_prefix(states, results, times, results.len() as int);
    assert forall|j: int, k: int|
        0 <= j < k < results.len() && (#[trigger] results[j]) is Some && (#[trigger] results[k]) is Some
        implies results[j]->0.id != results[k]->0.id by {
        lemma_claim_run_prefix(states, results, times, k);
        assert(claimed(states[k], states[k + 1], results[k], times[k]));
    }
}

} // verus!
