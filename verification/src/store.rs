//! The sample table: rows in ascending id order, each with its uploaded flag.

use vstd::prelude::*;

use crate::solar_data::{SampleView, SolarData};

verus! {

/// One row of the table.
#[derive(Debug, Clone, PartialEq, Eq)]
pub struct StoredSample {
    pub sample: SolarData,
    pub uploaded: bool,
}

/// The mathematical value of a row.
pub struct RowView {
    pub sample: SampleView,
    pub uploaded: bool,
}

impl View for StoredSample {
    type V = RowView;

    open spec fn view(&self) -> RowView {
        RowView { sample: self.sample@, uploaded: self.uploaded }
    }
}

impl DeepView for StoredSample {
    type V = RowView;

    open spec fn deep_view(&self) -> RowView {
        self@
    }
}

/// Ids grow from row to row, so no id occurs twice.
pub open spec fn ids_ascending(rows: Seq<RowView>) -> bool {
    forall|i: int, j: int| 0 <= i < j < rows.len() ==> rows[i].sample.id < rows[j].sample.id
}

/// The row waits for upload and belongs to the tracker.
pub open spec fn is_pending(row: RowView, device_id: u8, tracker_id: u8) -> bool {
    !row.uploaded && row.sample.device_id == device_id && row.sample.tracker_id == tracker_id
}

/// The samples of a tracker that wait for upload, in the order of the table.
pub open spec fn pending(rows: Seq<RowView>, device_id: u8, tracker_id: u8) -> Seq<SampleView>
    decreases rows.len(),
{
    if rows.len() == 0 {
        Seq::empty()
    } else {
        let before = pending(rows.drop_last(), device_id, tracker_id);
        if is_pending(rows.last(), device_id, tracker_id) {
            before.push(rows.last().sample)
        } else {
            before
        }
    }
}

/// The batch that a selection hands out: the first `limit` pending samples of
/// the tracker, or all of them where fewer wait.
pub open spec fn batch_of(rows: Seq<RowView>, device_id: u8, tracker_id: u8, limit: nat) -> Seq<
    SampleView,
> {
    let waiting = pending(rows, device_id, tracker_id);
    if waiting.len() <= limit {
        waiting
    } else {
        waiting.take(limit as int)
    }
}

/// The ids of a batch, in its order.
pub open spec fn ids_of(samples: Seq<SampleView>) -> Seq<u64> {
    samples.map_values(|sample: SampleView| sample.id)
}

/// The table after a commit of `ids`: a row is uploaded if it was before or
/// if its id is among `ids`; nothing else changes.
pub open spec fn mark_rows(rows: Seq<RowView>, ids: Set<u64>) -> Seq<RowView> {
    Seq::new(
        rows.len(),
        |i: int|
            RowView {
                sample: rows[i].sample,
                uploaded: rows[i].uploaded || ids.contains(rows[i].sample.id),
            },
    )
}

/// The uploaded flag of the row with this id; `None` where no row has it.
pub open spec fn flag_of(rows: Seq<RowView>, id: u64) -> Option<bool>
    decreases rows.len(),
{
    if rows.len() == 0 {
        None
    } else if rows.last().sample.id == id {
        Some(rows.last().uploaded)
    } else {
        flag_of(rows.drop_last(), id)
    }
}

/// The id that the next stored reading gets.
pub open spec fn next_id(rows: Seq<RowView>) -> int {
    if rows.len() == 0 {
        1
    } else {
        rows.last().sample.id + 1
    }
}

/// A reading under the id `id`.
pub open spec fn with_id(reading: SampleView, id: u64) -> SampleView {
    SampleView { id, ..reading }
}

/// The samples of all trackers, with the flag that says which were delivered.
#[derive(Debug, Clone, PartialEq, Eq)]
pub struct SampleStore {
    rows: Vec<StoredSample>,
}

impl View for SampleStore {
    type V = Seq<RowView>;

    closed spec fn view(&self) -> Seq<RowView> {
        self.rows.deep_view()
    }
}

/// `pending` grows with the table: what waits among the first `n` rows is
/// the start of what waits in the whole table.
pub proof fn lemma_pending_prefix(rows: Seq<RowView>, device_id: u8, tracker_id: u8, n: int)
    requires
        0 <= n <= rows.len(),
    ensures
        pending(rows.take(n), device_id, tracker_id).len() <= pending(
            rows,
            device_id,
            tracker_id,
        ).len(),
        pending(rows.take(n), device_id, tracker_id) == pending(rows, device_id, tracker_id).take(
            pending(rows.take(n), device_id, tracker_id).len() as int,
        ),
    decreases rows.len(),
{
    if n == rows.len() {
        assert(rows.take(n) == rows);
    } else {
        assert(rows.drop_last().take(n) == rows.take(n));
        lemma_pending_prefix(rows.drop_last(), device_id, tracker_id, n);
    }
}

fn holds_id(ids: &Vec<u64>, id: u64) -> (found: bool)
    ensures
        found == ids@.to_set().contains(id),
{
    let mut k: usize = 0;
    while k < ids.len()
        invariant
            k <= ids.len(),
            forall|j: int| 0 <= j < k ==> ids@[j] != id,
        decreases ids.len() - k,
    {
        if ids[k] == id {
            return true;
        }
        k += 1;
    }
    false
}

impl SampleStore {
    /// The table is in order.
    pub open spec fn well_formed(&self) -> bool {
        ids_ascending(self@)
    }

    /// A table without rows.
    pub fn new() -> (store: SampleStore)
        ensures
            store.well_formed(),
            store@ == Seq::<RowView>::empty(),
    {
        SampleStore { rows: Vec::new() }
    }

    /// The number of rows.
    pub fn len(&self) -> (n: usize)
        ensures
            n == self@.len(),
    {
        self.rows.len()
    }

    /// Stores a reading as a new pending row under the next free id, and
    /// returns that id. The id that `reading` came with is not used. Without
    /// a free id the table stays as it is.
    pub fn insert(&mut self, reading: SolarData) -> (id: Option<u64>)
        requires
            old(self).well_formed(),
        ensures
            final(self).well_formed(),
            id is Some <==> next_id(old(self)@) <= u64::MAX,
            id matches Some(given) ==> given == next_id(old(self)@) && final(self)@ == old(self)@.push(
                RowView { sample: with_id(reading@, given), uploaded: false },
            ),
            id is None ==> final(self)@ == old(self)@,
    {
        let n: usize = self.rows.len();
        let given: u64 = if n == 0 {
            1
        } else {
            let last: u64 = self.rows[n - 1].sample.id;
            if last == u64::MAX {
                return None;
            }
            last + 1
        };
        let mut sample = reading;
        sample.id = given;
        let ghost before = self@;
        self.rows.push(StoredSample { sample, uploaded: false });
        proof {
            assert forall|i: int, j: int| 0 <= i < j < self@.len() implies self@[i].sample.id
                < self@[j].sample.id by {
                if j < before.len() {
                    assert(self@[i] == before[i] && self@[j] == before[j]);
                } else if i < before.len() - 1 {
                    assert(before[i].sample.id < before[before.len() - 1].sample.id);
                }
            }
        }
        Some(given)
    }

    /// Whether the row with this id is uploaded; `None` where no row has it.
    pub fn is_uploaded(&self, id: u64) -> (flag: Option<bool>)
        ensures
            flag == flag_of(self@, id),
    {
        let ghost rows = self@;
        let mut i: usize = self.rows.len();
        assert(rows.take(i as int) == rows);
        while i > 0
            invariant
                i <= self.rows.len(),
                rows == self@,
                flag_of(rows, id) == flag_of(rows.take(i as int), id),
            decreases i,
        {
            i -= 1;
            assert(rows.take(i + 1).drop_last() == rows.take(i as int));
            if self.rows[i].sample.id == id {
                return Some(self.rows[i].uploaded);
            }
        }
        None
    }

    /// The first `limit` samples of the tracker that wait for upload, in
    /// ascending id order; fewer where fewer wait, none where none waits.
    pub fn select_pending(&self, device_id: u8, tracker_id: u8, limit: usize) -> (batch: Vec<
        SolarData,
    >)
        ensures
            batch.deep_view() == batch_of(self@, device_id, tracker_id, limit as nat),
            batch.len() <= limit,
    {
        let ghost rows = self@;
        let mut batch: Vec<SolarData> = Vec::new();
        let mut i: usize = 0;
        while i < self.rows.len() && batch.len() < limit
            invariant
                i <= self.rows.len(),
                rows == self@,
                batch.len() <= limit,
                batch.deep_view() == pending(rows.take(i as int), device_id, tracker_id),
            decreases self.rows.len() - i,
        {
            let row = &self.rows[i];
            assert(rows.take(i + 1).drop_last() == rows.take(i as int));
            if !row.uploaded && row.sample.device_id == device_id && row.sample.tracker_id
                == tracker_id {
                batch.push(row.sample.duplicate());
            }
            i += 1;
        }
        proof {
            lemma_pending_prefix(rows, device_id, tracker_id, i as int);
            if i == self.rows.len() {
                assert(rows.take(i as int) == rows);
            }
        }
        batch
    }

    /// Commits a delivery: sets the uploaded flag of exactly the rows whose
    /// id is among `ids`. Ids need not be contiguous; one that no row has
    /// changes nothing.
    pub fn mark_uploaded(&mut self, ids: &Vec<u64>)
        requires
            old(self).well_formed(),
        ensures
            final(self).well_formed(),
            final(self)@ == mark_rows(old(self)@, ids@.to_set()),
    {
        let ghost before = self@;
        let ghost wanted = ids@.to_set();
        let mut i: usize = 0;
        while i < self.rows.len()
            invariant
                i <= self.rows.len(),
                wanted == ids@.to_set(),
                self@.len() == before.len(),
                forall|k: int| 0 <= k < i ==> self@[k] == mark_rows(before, wanted)[k],
                forall|k: int| i <= k < before.len() ==> self@[k] == before[k],
            decreases self.rows.len() - i,
        {
            if holds_id(ids, self.rows[i].sample.id) {
                self.rows[i].uploaded = true;
            }
            i += 1;
        }
    }
}

} // verus!
