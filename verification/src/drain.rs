//! What cycles of select, deliver and commit do to the sample table.

use vstd::prelude::*;

use crate::solar_data::SampleView;
use crate::store::{batch_of, ids_ascending, ids_of, is_pending, mark_rows, pending, RowView};

verus! {

/// The table after one successful cycle for a tracker: a batch of at most
/// `limit` samples is selected and delivered, and exactly its ids are
/// committed.
pub open spec fn cycle(rows: Seq<RowView>, device_id: u8, tracker_id: u8, limit: nat) -> Seq<
    RowView,
> {
    mark_rows(rows, ids_of(batch_of(rows, device_id, tracker_id, limit)).to_set())
}

/// The table after `cycles` successful cycles for a tracker.
pub open spec fn after_cycles(
    rows: Seq<RowView>,
    device_id: u8,
    tracker_id: u8,
    limit: nat,
    cycles: nat,
) -> Seq<RowView>
    decreases cycles,
{
    if cycles == 0 {
        rows
    } else {
        cycle(
            after_cycles(rows, device_id, tracker_id, limit, (cycles - 1) as nat),
            device_id,
            tracker_id,
            limit,
        )
    }
}

/// How many of `total` waiting samples `cycles` cycles of `limit` deliver.
pub open spec fn delivered(total: nat, limit: nat, cycles: nat) -> nat {
    if cycles * limit <= total {
        cycles * limit
    } else {
        total
    }
}

/// Ids grow along the sequence.
pub open spec fn sample_ids_ascending(samples: Seq<SampleView>) -> bool {
    forall|i: int, j: int| 0 <= i < j < samples.len() ==> samples[i].id < samples[j].id
}

spec fn has_id(samples: Seq<SampleView>, id: u64) -> bool {
    exists|k: int| 0 <= k < samples.len() && samples[k].id == id
}

spec fn without_ids(samples: Seq<SampleView>, ids: Set<u64>) -> Seq<SampleView>
    decreases samples.len(),
{
    if samples.len() == 0 {
        Seq::empty()
    } else {
        let before = without_ids(samples.drop_last(), ids);
        if ids.contains(samples.last().id) {
            before
        } else {
            before.push(samples.last())
        }
    }
}

proof fn lemma_id_set(samples: Seq<SampleView>, id: u64)
    ensures
        ids_of(samples).to_set().contains(id) <==> has_id(samples, id),
{
    let ids = ids_of(samples);
    if ids.to_set().contains(id) {
        let k = choose|k: int| 0 <= k < ids.len() && ids[k] == id;
        assert(samples[k].id == id);
    }
    if has_id(samples, id) {
        let k = choose|k: int| 0 <= k < samples.len() && samples[k].id == id;
        assert(ids[k] == id);
    }
}

proof fn lemma_pending_after_mark(rows: Seq<RowView>, ids: Set<u64>, device_id: u8, tracker_id: u8)
    ensures
        pending(mark_rows(rows, ids), device_id, tracker_id) == without_ids(
            pending(rows, device_id, tracker_id),
            ids,
        ),
    decreases rows.len(),
{
    let marked = mark_rows(rows, ids);
    if rows.len() > 0 {
        lemma_pending_after_mark(rows.drop_last(), ids, device_id, tracker_id);
        assert(marked.drop_last() == mark_rows(rows.drop_last(), ids));
        let before = pending(rows.drop_last(), device_id, tracker_id);
        if is_pending(rows.last(), device_id, tracker_id) {
            let waiting = before.push(rows.last().sample);
            assert(waiting.drop_last() == before);
            assert(waiting.last() == rows.last().sample);
        }
    }
}

proof fn lemma_without_all(samples: Seq<SampleView>, ids: Set<u64>)
    requires
        forall|k: int| 0 <= k < samples.len() ==> ids.contains(#[trigger] samples[k].id),
    ensures
        without_ids(samples, ids) == Seq::<SampleView>::empty(),
    decreases samples.len(),
{
    if samples.len() > 0 {
        lemma_without_all(samples.drop_last(), ids);
    }
}

proof fn lemma_without_none(samples: Seq<SampleView>, ids: Set<u64>)
    requires
        forall|k: int| 0 <= k < samples.len() ==> !ids.contains(#[trigger] samples[k].id),
    ensures
        without_ids(samples, ids) == samples,
    decreases samples.len(),
{
    if samples.len() > 0 {
        lemma_without_none(samples.drop_last(), ids);
        assert(samples.drop_last().push(samples.last()) == samples);
    }
}

proof fn lemma_without_first(samples: Seq<SampleView>, n: int)
    requires
        sample_ids_ascending(samples),
        0 <= n <= samples.len(),
    ensures
        without_ids(samples, ids_of(samples.take(n)).to_set()) == samples.skip(n),
    decreases samples.len(),
{
    let ids = ids_of(samples.take(n)).to_set();
    if samples.len() > 0 {
        let front = samples.drop_last();
        let last = samples.last();
        if n <= front.len() {
            assert(samples.take(n) == front.take(n));
            lemma_without_first(front, n);
            lemma_id_set(samples.take(n), last.id);
            if has_id(samples.take(n), last.id) {
                let k = choose|k: int| 0 <= k < n && samples.take(n)[k].id == last.id;
                assert(samples[k].id < samples[samples.len() - 1].id);
            }
            assert(front.skip(n).push(last) == samples.skip(n));
        } else {
            assert(samples.take(n) == samples);
            assert forall|k: int| 0 <= k < samples.len() implies ids.contains(
                #[trigger] samples[k].id,
            ) by {
                lemma_id_set(samples, samples[k].id);
            }
            lemma_without_all(front, ids);
            assert(samples.skip(n) == Seq::<SampleView>::empty());
        }
    }
}

/// Row `i` of the table waits for the tracker and holds `sample`.
pub open spec fn pending_row_of(
    rows: Seq<RowView>,
    device_id: u8,
    tracker_id: u8,
    sample: SampleView,
    i: int,
) -> bool {
    0 <= i < rows.len() && is_pending(rows[i], device_id, tracker_id) && rows[i].sample == sample
}

/// Some row of the table waits for the tracker and holds `sample`.
pub open spec fn waits_in(
    rows: Seq<RowView>,
    device_id: u8,
    tracker_id: u8,
    sample: SampleView,
) -> bool {
    exists|i: int| pending_row_of(rows, device_id, tracker_id, sample, i)
}

/// Every waiting sample is the sample of a pending row of the table.
pub proof fn lemma_pending_members(rows: Seq<RowView>, device_id: u8, tracker_id: u8)
    ensures
        forall|k: int|
            0 <= k < pending(rows, device_id, tracker_id).len() ==> waits_in(
                rows,
                device_id,
                tracker_id,
                #[trigger] pending(rows, device_id, tracker_id)[k],
            ),
    decreases rows.len(),
{
    let waiting = pending(rows, device_id, tracker_id);
    if rows.len() > 0 {
        let front = rows.drop_last();
        lemma_pending_members(front, device_id, tracker_id);
        let before = pending(front, device_id, tracker_id);
        assert forall|k: int| 0 <= k < waiting.len() implies waits_in(
            rows,
            device_id,
            tracker_id,
            #[trigger] waiting[k],
        ) by {
            if k < before.len() {
                assert(waiting[k] == before[k]);
                assert(waits_in(front, device_id, tracker_id, before[k]));
                let i = choose|i: int|
                    pending_row_of(front, device_id, tracker_id, before[k], i);
                assert(pending_row_of(rows, device_id, tracker_id, waiting[k], i));
            } else {
                assert(pending_row_of(rows, device_id, tracker_id, waiting[k], rows.len() - 1));
            }
        }
    }
}

/// Every pending row of the tracker is among the waiting samples.
pub proof fn lemma_pending_rows_wait(rows: Seq<RowView>, device_id: u8, tracker_id: u8)
    ensures
        forall|i: int|
            0 <= i < rows.len() && is_pending(#[trigger] rows[i], device_id, tracker_id)
                ==> pending(rows, device_id, tracker_id).contains(rows[i].sample),
    decreases rows.len(),
{
    let waiting = pending(rows, device_id, tracker_id);
    if rows.len() > 0 {
        let front = rows.drop_last();
        lemma_pending_rows_wait(front, device_id, tracker_id);
        let before = pending(front, device_id, tracker_id);
        assert forall|i: int|
            0 <= i < rows.len() && is_pending(
                #[trigger] rows[i],
                device_id,
                tracker_id,
            ) implies waiting.contains(rows[i].sample) by {
            if i < front.len() {
                assert(is_pending(front[i], device_id, tracker_id));
                let k = choose|k: int| 0 <= k < before.len() && before[k] == front[i].sample;
                assert(waiting[k] == rows[i].sample);
            } else {
                assert(waiting[waiting.len() - 1] == rows[i].sample);
            }
        }
    }
}

/// The samples of a tracker wait in ascending id order.
pub proof fn lemma_pending_ascending(rows: Seq<RowView>, device_id: u8, tracker_id: u8)
    requires
        ids_ascending(rows),
    ensures
        sample_ids_ascending(pending(rows, device_id, tracker_id)),
    decreases rows.len(),
{
    let waiting = pending(rows, device_id, tracker_id);
    if rows.len() > 0 {
        let front = rows.drop_last();
        assert(ids_ascending(front)) by {
            assert forall|i: int, j: int| 0 <= i < j < front.len() implies front[i].sample.id
                < front[j].sample.id by {
                assert(rows[i].sample.id < rows[j].sample.id);
            }
        }
        lemma_pending_ascending(front, device_id, tracker_id);
        lemma_pending_members(front, device_id, tracker_id);
        let before = pending(front, device_id, tracker_id);
        assert forall|i: int, j: int| 0 <= i < j < waiting.len() implies waiting[i].id
            < waiting[j].id by {
            if j < before.len() {
                assert(waiting[i] == before[i] && waiting[j] == before[j]);
            } else {
                assert(waiting[i] == before[i]);
                assert(waits_in(front, device_id, tracker_id, before[i]));
                let a = choose|a: int| pending_row_of(front, device_id, tracker_id, before[i], a);
                assert(rows[a].sample.id < rows[rows.len() - 1].sample.id);
            }
        }
    }
}

/// Committing the same ids a second time changes nothing.
pub proof fn lemma_mark_idempotent(rows: Seq<RowView>, ids: Set<u64>)
    ensures
        mark_rows(mark_rows(rows, ids), ids) == mark_rows(rows, ids),
{
}

/// A commit keeps the table in order.
pub proof fn lemma_mark_keeps_order(rows: Seq<RowView>, ids: Set<u64>)
    requires
        ids_ascending(rows),
    ensures
        ids_ascending(mark_rows(rows, ids)),
{
}

/// After a cycle, the rows that are uploaded are those that were uploaded
/// before and those whose sample was in the batch: no other row changes, and
/// no row changes in anything but its flag.
pub proof fn lemma_cycle_marks_exactly_the_batch(
    rows: Seq<RowView>,
    device_id: u8,
    tracker_id: u8,
    limit: nat,
)
    requires
        ids_ascending(rows),
    ensures
        cycle(rows, device_id, tracker_id, limit).len() == rows.len(),
        forall|i: int|
            0 <= i < rows.len() ==> (#[trigger] cycle(
                rows,
                device_id,
                tracker_id,
                limit,
            )[i]).sample == rows[i].sample,
        forall|i: int|
            0 <= i < rows.len() ==> ((#[trigger] cycle(
                rows,
                device_id,
                tracker_id,
                limit,
            )[i]).uploaded <==> rows[i].uploaded || batch_of(
                rows,
                device_id,
                tracker_id,
                limit,
            ).contains(rows[i].sample)),
{
    let batch = batch_of(rows, device_id, tracker_id, limit);
    let waiting = pending(rows, device_id, tracker_id);
    let after = cycle(rows, device_id, tracker_id, limit);
    lemma_pending_members(rows, device_id, tracker_id);
    assert forall|i: int| 0 <= i < rows.len() implies ((#[trigger] after[i]).uploaded
        <==> rows[i].uploaded || batch.contains(rows[i].sample)) by {
        lemma_id_set(batch, rows[i].sample.id);
        if has_id(batch, rows[i].sample.id) {
            let k = choose|k: int| 0 <= k < batch.len() && batch[k].id == rows[i].sample.id;
            assert(batch[k] == waiting[k]);
            assert(waits_in(rows, device_id, tracker_id, waiting[k]));
            let a = choose|a: int| pending_row_of(rows, device_id, tracker_id, waiting[k], a);
            if a < i {
                assert(rows[a].sample.id < rows[i].sample.id);
            }
            if i < a {
                assert(rows[i].sample.id < rows[a].sample.id);
            }
            assert(batch[k] == rows[i].sample);
        }
        if batch.contains(rows[i].sample) {
            let k = choose|k: int| 0 <= k < batch.len() && batch[k] == rows[i].sample;
            assert(batch[k].id == rows[i].sample.id);
        }
    }
}

/// A cycle takes the batch, and nothing else, off the front of what waits
/// for the tracker.
pub proof fn lemma_cycle_removes_the_batch(
    rows: Seq<RowView>,
    device_id: u8,
    tracker_id: u8,
    limit: nat,
)
    requires
        ids_ascending(rows),
    ensures
        ids_ascending(cycle(rows, device_id, tracker_id, limit)),
        pending(cycle(rows, device_id, tracker_id, limit), device_id, tracker_id) == pending(
            rows,
            device_id,
            tracker_id,
        ).skip(batch_of(rows, device_id, tracker_id, limit).len() as int),
{
    let waiting = pending(rows, device_id, tracker_id);
    let batch = batch_of(rows, device_id, tracker_id, limit);
    let n = batch.len() as int;
    assert(batch == waiting.take(n));
    lemma_pending_ascending(rows, device_id, tracker_id);
    lemma_pending_after_mark(rows, ids_of(batch).to_set(), device_id, tracker_id);
    lemma_without_first(waiting, n);
}

/// A cycle for one tracker leaves what waits for every other tracker as it
/// was.
pub proof fn lemma_cycle_keeps_other_trackers(
    rows: Seq<RowView>,
    device_id: u8,
    tracker_id: u8,
    limit: nat,
    other_device_id: u8,
    other_tracker_id: u8,
)
    requires
        ids_ascending(rows),
        device_id != other_device_id || tracker_id != other_tracker_id,
    ensures
        pending(cycle(rows, device_id, tracker_id, limit), other_device_id, other_tracker_id)
            == pending(rows, other_device_id, other_tracker_id),
{
    let waiting = pending(rows, device_id, tracker_id);
    let batch = batch_of(rows, device_id, tracker_id, limit);
    let others = pending(rows, other_device_id, other_tracker_id);
    let ids = ids_of(batch).to_set();
    lemma_pending_members(rows, device_id, tracker_id);
    lemma_pending_members(rows, other_device_id, other_tracker_id);
    assert forall|k: int| 0 <= k < others.len() implies !ids.contains(
        #[trigger] others[k].id,
    ) by {
        lemma_id_set(batch, others[k].id);
        if has_id(batch, others[k].id) {
            let j = choose|j: int| 0 <= j < batch.len() && batch[j].id == others[k].id;
            assert(batch[j] == waiting[j]);
            assert(waits_in(rows, device_id, tracker_id, waiting[j]));
            assert(waits_in(rows, other_device_id, other_tracker_id, others[k]));
            let a = choose|a: int| pending_row_of(rows, device_id, tracker_id, waiting[j], a);
            let b = choose|b: int|
                pending_row_of(rows, other_device_id, other_tracker_id, others[k], b);
            if a < b {
                assert(rows[a].sample.id < rows[b].sample.id);
            }
            if b < a {
                assert(rows[b].sample.id < rows[a].sample.id);
            }
        }
    }
    lemma_pending_after_mark(rows, ids, other_device_id, other_tracker_id);
    lemma_without_none(others, ids);
}

proof fn lemma_delivered_step(total: nat, limit: nat, cycles: nat)
    ensures
        cycles == 0 ==> delivered(total, limit, cycles) == 0,
        delivered(total, limit, cycles) <= delivered(total, limit, cycles + 1) <= total,
        delivered(total, limit, cycles + 1) - delivered(total, limit, cycles) == if total
            - delivered(total, limit, cycles) <= limit {
            total - delivered(total, limit, cycles)
        } else {
            limit as int
        },
{
    assert((cycles + 1) * limit == cycles * limit + limit) by (nonlinear_arith);
    assert(0 <= cycles * limit) by (nonlinear_arith);
    assert(cycles == 0 ==> cycles * limit == 0) by (nonlinear_arith);
}

/// Repeated cycles drain a tracker in ascending id order: after `cycles`
/// cycles the first `delivered(..)` of the samples that waited at the start
/// are gone from the waiting list and the rest still wait, in their order;
/// the next batch is the stretch of the first waiting list that follows.
pub proof fn lemma_cycles_drain(
    rows: Seq<RowView>,
    device_id: u8,
    tracker_id: u8,
    limit: nat,
    cycles: nat,
)
    requires
        ids_ascending(rows),
    ensures
        ids_ascending(after_cycles(rows, device_id, tracker_id, limit, cycles)),
        pending(after_cycles(rows, device_id, tracker_id, limit, cycles), device_id, tracker_id)
            == pending(rows, device_id, tracker_id).skip(
            delivered(pending(rows, device_id, tracker_id).len(), limit, cycles) as int,
        ),
        batch_of(after_cycles(rows, device_id, tracker_id, limit, cycles), device_id, tracker_id, limit)
            == pending(rows, device_id, tracker_id).subrange(
            delivered(pending(rows, device_id, tracker_id).len(), limit, cycles) as int,
            delivered(pending(rows, device_id, tracker_id).len(), limit, cycles + 1) as int,
        ),
    decreases cycles,
{
    let waiting = pending(rows, device_id, tracker_id);
    let total = waiting.len();
    let now = after_cycles(rows, device_id, tracker_id, limit, cycles);
    let done = delivered(total, limit, cycles) as int;
    let next = delivered(total, limit, cycles + 1) as int;
    lemma_delivered_step(total, limit, cycles);
    if cycles == 0 {
        assert(waiting.skip(0) == waiting);
    } else {
        let fewer = (cycles - 1) as nat;
        let earlier = after_cycles(rows, device_id, tracker_id, limit, fewer);
        let before = delivered(total, limit, fewer) as int;
        lemma_delivered_step(total, limit, fewer);
        lemma_cycles_drain(rows, device_id, tracker_id, limit, fewer);
        lemma_cycle_removes_the_batch(earlier, device_id, tracker_id, limit);
        assert(batch_of(earlier, device_id, tracker_id, limit).len() == done - before);
        assert(waiting.skip(before).skip(done - before) == waiting.skip(done));
    }
    assert(pending(now, device_id, tracker_id) == waiting.skip(done));
    if total - done <= limit {
        assert(waiting.skip(done) == waiting.subrange(done, next));
    } else {
        assert(waiting.skip(done).take(limit as int) == waiting.subrange(done, next));
    }
}

/// With a batch size of at least one, as many cycles as samples wait leave
/// nothing waiting, and the selection that follows is empty.
pub proof fn lemma_drained(
    rows: Seq<RowView>,
    device_id: u8,
    tracker_id: u8,
    limit: nat,
    cycles: nat,
)
    requires
        ids_ascending(rows),
        limit >= 1,
        cycles * limit >= pending(rows, device_id, tracker_id).len(),
    ensures
        pending(after_cycles(rows, device_id, tracker_id, limit, cycles), device_id, tracker_id)
            == Seq::<SampleView>::empty(),
        batch_of(after_cycles(rows, device_id, tracker_id, limit, cycles), device_id, tracker_id, limit)
            == Seq::<SampleView>::empty(),
{
    lemma_cycles_drain(rows, device_id, tracker_id, limit, cycles);
    lemma_delivered_step(pending(rows, device_id, tracker_id).len(), limit, cycles);
}

} // verus!
