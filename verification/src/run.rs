//! A whole run, with a caller that does what the driver asks for.

use vstd::prelude::*;

use crate::civil_time::local_time_of;
use crate::drain::{
    cycle, lemma_cycle_marks_exactly_the_batch, lemma_cycle_removes_the_batch,
    lemma_pending_members, lemma_pending_rows_wait, pending_row_of, waits_in,
};
use crate::driver::{
    after_fetch, next_of, turn_to, ActionView, EventView, PlanView, StateView, BATCH_LIMIT,
};
use crate::request::{can_request, fits_header, RequestView};
use crate::solar_data::SampleView;
use crate::store::{batch_of, ids_ascending, ids_of, is_pending, mark_rows, pending, RowView};

verus! {

/// Where a run stands: the table, the state of the driver and the action
/// that the driver asked for last.
pub struct RunView {
    pub rows: Seq<RowView>,
    pub state: StateView,
    pub action: ActionView,
}

/// What a faithful caller makes of an action, as the table afterwards and
/// the event to hand back: a selection reads the table, a delivery is
/// answered by the remote service with the status that `answers` gives for
/// the request, and a commit marks the rows of the table. The two actions
/// that end a run leave nothing to perform.
pub open spec fn perform(
    rows: Seq<RowView>,
    action: ActionView,
    answers: spec_fn(RequestView) -> u32,
) -> Option<(Seq<RowView>, EventView)> {
    match action {
        ActionView::Select { device_id, tracker_id, limit } => Some(
            (
                rows,
                EventView::Fetched { batch: batch_of(rows, device_id, tracker_id, limit as nat) },
            ),
        ),
        ActionView::Send { request } => Some((rows, EventView::Sent { status: answers(request) })),
        ActionView::Commit { ids } => Some((mark_rows(rows, ids.to_set()), EventView::Committed)),
        ActionView::Finish => None,
        ActionView::Abort { error } => None,
    }
}

/// One turn of the run: the caller performs the action and the driver
/// decides on the event. A run that has ended stays where it is.
pub open spec fn one_step(
    plan: PlanView,
    at: RunView,
    answers: spec_fn(RequestView) -> u32,
) -> RunView {
    match perform(at.rows, at.action, answers) {
        Some(done) => {
            let next = next_of(plan, at.state, done.1);
            RunView { rows: done.0, state: next.0, action: next.1 }
        },
        None => at,
    }
}

/// The run after `steps` turns.
pub open spec fn run(
    plan: PlanView,
    at: RunView,
    answers: spec_fn(RequestView) -> u32,
    steps: nat,
) -> RunView
    decreases steps,
{
    if steps == 0 {
        at
    } else {
        run(plan, one_step(plan, at, answers), answers, (steps - 1) as nat)
    }
}

/// The run at its start on the table `rows`.
pub open spec fn at_start(plan: PlanView, rows: Seq<RowView>) -> RunView {
    RunView { rows, state: turn_to(plan, 0).0, action: turn_to(plan, 0).1 }
}

/// One of the first `upto` trackers of the plan has the key of `sample`.
pub open spec fn names(plan: PlanView, upto: int, sample: SampleView) -> bool {
    exists|t: int| names_at(plan, upto, sample, t)
}

/// The tracker at place `t` is one of the first `upto` of the plan and has
/// the key of `sample`.
pub open spec fn names_at(plan: PlanView, upto: int, sample: SampleView, t: int) -> bool {
    0 <= t < upto && t < plan.trackers.len() && plan.trackers[t].device_id == sample.device_id
        && plan.trackers[t].array_id == sample.tracker_id
}

/// The table once the first `upto` trackers of the plan are drained: their
/// rows are uploaded, and every other row is as it was.
pub open spec fn drained_table(rows: Seq<RowView>, plan: PlanView, upto: int) -> Seq<RowView> {
    Seq::new(
        rows.len(),
        |i: int|
            RowView {
                sample: rows[i].sample,
                uploaded: rows[i].uploaded || names(plan, upto, rows[i].sample),
            },
    )
}

/// The plan can be held in memory, and every header value of it can be
/// written.
pub open spec fn plan_fits(plan: PlanView) -> bool {
    &&& plan.trackers.len() <= usize::MAX
    &&& fits_header(plan.api_key)
    &&& forall|t: int| 0 <= t < plan.trackers.len() ==> fits_header(#[trigger] plan.trackers[t].system_id)
}

/// Every row that the run will deliver has a local time.
pub open spec fn deliverable(plan: PlanView, rows: Seq<RowView>) -> bool {
    forall|i: int|
        0 <= i < rows.len() && !(#[trigger] rows[i]).uploaded && names(
            plan,
            plan.trackers.len() as int,
            rows[i].sample,
        ) ==> local_time_of(rows[i].sample.timestamp) is Some
}

spec fn mark_all(rows: Seq<RowView>, device_id: u8, tracker_id: u8) -> Seq<RowView> {
    Seq::new(
        rows.len(),
        |i: int|
            RowView {
                sample: rows[i].sample,
                uploaded: rows[i].uploaded || (rows[i].sample.device_id == device_id
                    && rows[i].sample.tracker_id == tracker_id),
            },
    )
}

proof fn lemma_run_joins(
    plan: PlanView,
    at: RunView,
    answers: spec_fn(RequestView) -> u32,
    first: nat,
    second: nat,
)
    ensures
        run(plan, at, answers, first + second) == run(
            plan,
            run(plan, at, answers, first),
            answers,
            second,
        ),
    decreases first,
{
    if first > 0 {
        lemma_run_joins(plan, one_step(plan, at, answers), answers, (first - 1) as nat, second);
    }
}

/// From a selection for the tracker at place `k`, the run reaches the turn
/// to the next tracker with every row of tracker `k` uploaded.
proof fn lemma_tracker_drains(
    plan: PlanView,
    rows: Seq<RowView>,
    answers: spec_fn(RequestView) -> u32,
    k: int,
) -> (steps: nat)
    requires
        0 <= k < plan.trackers.len(),
        ids_ascending(rows),
        plan_fits(plan),
        deliverable(plan, rows),
    ensures
        run(
            plan,
            RunView { rows, state: turn_to(plan, k).0, action: turn_to(plan, k).1 },
            answers,
            steps,
        ) == (RunView {
            rows: mark_all(rows, plan.trackers[k].device_id, plan.trackers[k].array_id),
            state: turn_to(plan, k + 1).0,
            action: turn_to(plan, k + 1).1,
        }),
    decreases pending(rows, plan.trackers[k].device_id, plan.trackers[k].array_id).len(),
{
    let device_id = plan.trackers[k].device_id;
    let tracker_id = plan.trackers[k].array_id;
    let waiting = pending(rows, device_id, tracker_id);
    let batch = batch_of(rows, device_id, tracker_id, BATCH_LIMIT as nat);
    let at = RunView { rows, state: turn_to(plan, k).0, action: turn_to(plan, k).1 };
    let fetched = one_step(plan, at, answers);
    lemma_pending_members(rows, device_id, tracker_id);
    assert(fetched.rows == rows);
    assert((fetched.state, fetched.action) == after_fetch(plan, k, batch));
    if waiting.len() == 0 {
        lemma_pending_rows_wait(rows, device_id, tracker_id);
        assert forall|i: int| 0 <= i < rows.len() implies #[trigger] rows[i] == mark_all(
            rows,
            device_id,
            tracker_id,
        )[i] by {
            if is_pending(rows[i], device_id, tracker_id) {
                assert(waiting.contains(rows[i].sample));
            }
        }
        assert(rows == mark_all(rows, device_id, tracker_id));
        assert(run(plan, at, answers, 1) == fetched) by {
            reveal_with_fuel(run, 2);
        }
        1
    } else {
        assert forall|j: int| 0 <= j < batch.len() implies local_time_of(
            (#[trigger] batch[j]).timestamp,
        ) is Some by {
            assert(batch[j] == waiting[j]);
            assert(waits_in(rows, device_id, tracker_id, waiting[j]));
            let a = choose|a: int| pending_row_of(rows, device_id, tracker_id, waiting[j], a);
            assert(names_at(plan, plan.trackers.len() as int, rows[a].sample, k));
        }
        assert(can_request(batch, plan.trackers[k].system_id, plan.api_key));
        let sent = one_step(plan, fetched, answers);
        assert(sent == RunView {
            rows,
            state: StateView::Committing { tracker: k as usize },
            action: ActionView::Commit { ids: ids_of(batch) },
        });
        let committed = one_step(plan, sent, answers);
        let next = cycle(rows, device_id, tracker_id, BATCH_LIMIT as nat);
        assert(committed == RunView {
            rows: next,
            state: turn_to(plan, k).0,
            action: turn_to(plan, k).1,
        });
        lemma_cycle_removes_the_batch(rows, device_id, tracker_id, BATCH_LIMIT as nat);
        lemma_cycle_marks_exactly_the_batch(rows, device_id, tracker_id, BATCH_LIMIT as nat);
        assert forall|i: int|
            0 <= i < next.len() && !(#[trigger] next[i]).uploaded && names(
                plan,
                plan.trackers.len() as int,
                next[i].sample,
            ) implies local_time_of(next[i].sample.timestamp) is Some by {
            assert(!rows[i].uploaded);
        }
        let rest = lemma_tracker_drains(plan, next, answers, k);
        assert forall|i: int| 0 <= i < rows.len() implies #[trigger] mark_all(
            next,
            device_id,
            tracker_id,
        )[i] == mark_all(rows, device_id, tracker_id)[i] by {
            if batch.contains(rows[i].sample) {
                let j = choose|j: int| 0 <= j < batch.len() && batch[j] == rows[i].sample;
                assert(batch[j] == waiting[j]);
                assert(waits_in(rows, device_id, tracker_id, waiting[j]));
            }
        }
        assert(mark_all(next, device_id, tracker_id) == mark_all(rows, device_id, tracker_id));
        assert(run(plan, at, answers, 3) == committed) by {
            reveal_with_fuel(run, 4);
        }
        lemma_run_joins(plan, at, answers, 3, rest);
        3 + rest
    }
}

proof fn lemma_plan_drains(
    plan: PlanView,
    rows: Seq<RowView>,
    answers: spec_fn(RequestView) -> u32,
    k: int,
) -> (steps: nat)
    requires
        0 <= k <= plan.trackers.len(),
        ids_ascending(rows),
        plan_fits(plan),
        deliverable(plan, rows),
    ensures
        run(
            plan,
            RunView {
                rows: drained_table(rows, plan, k),
                state: turn_to(plan, k).0,
                action: turn_to(plan, k).1,
            },
            answers,
            steps,
        ) == (RunView {
            rows: drained_table(rows, plan, plan.trackers.len() as int),
            state: StateView::Done,
            action: ActionView::Finish,
        }),
    decreases plan.trackers.len() - k,
{
    let now = drained_table(rows, plan, k);
    if k == plan.trackers.len() {
        0
    } else {
        let device_id = plan.trackers[k].device_id;
        let tracker_id = plan.trackers[k].array_id;
        assert(ids_ascending(now));
        assert(deliverable(plan, now)) by {
            assert forall|i: int|
                0 <= i < now.len() && !(#[trigger] now[i]).uploaded && names(
                    plan,
                    plan.trackers.len() as int,
                    now[i].sample,
                ) implies local_time_of(now[i].sample.timestamp) is Some by {
                assert(!rows[i].uploaded);
            }
        }
        let first = lemma_tracker_drains(plan, now, answers, k);
        assert forall|i: int| 0 <= i < rows.len() implies #[trigger] mark_all(
            now,
            device_id,
            tracker_id,
        )[i] == drained_table(rows, plan, k + 1)[i] by {
            let sample = rows[i].sample;
            let upto = k + 1;
            if names(plan, upto, sample) {
                let t = choose|t: int| names_at(plan, upto, sample, t);
                if t < k {
                    assert(names_at(plan, k, sample, t));
                }
            }
            if names(plan, k, sample) {
                let t = choose|t: int| names_at(plan, k, sample, t);
                assert(names_at(plan, upto, sample, t));
            }
            if sample.device_id == device_id && sample.tracker_id == tracker_id {
                assert(names_at(plan, upto, sample, k));
            }
        }
        assert(mark_all(now, device_id, tracker_id) == drained_table(rows, plan, k + 1));
        let rest = lemma_plan_drains(plan, rows, answers, k + 1);
        lemma_run_joins(
            plan,
            RunView { rows: now, state: turn_to(plan, k).0, action: turn_to(plan, k).1 },
            answers,
            first,
            rest,
        );
        first + rest
    }
}

/// A run drains every tracker of the plan. On a table in order, with a plan
/// whose header values can be written and samples that have a local time,
/// and with a caller that does what it is asked, the run ends after the
/// returned number of turns, whatever the remote service answers: the driver
/// asks to finish, the rows of the plan's trackers are uploaded, and every
/// other row is as it was.
pub proof fn lemma_run_drains_the_plan(
    plan: PlanView,
    rows: Seq<RowView>,
    answers: spec_fn(RequestView) -> u32,
) -> (steps: nat)
    requires
        ids_ascending(rows),
        plan_fits(plan),
        deliverable(plan, rows),
    ensures
        run(plan, at_start(plan, rows), answers, steps) == (RunView {
            rows: drained_table(rows, plan, plan.trackers.len() as int),
            state: StateView::Done,
            action: ActionView::Finish,
        }),
        forall|t: int|
            0 <= t < plan.trackers.len() ==> pending(
                drained_table(rows, plan, plan.trackers.len() as int),
                (#[trigger] plan.trackers[t]).device_id,
                plan.trackers[t].array_id,
            ).len() == 0,
{
    let end = drained_table(rows, plan, plan.trackers.len() as int);
    assert(drained_table(rows, plan, 0) == rows) by {
        assert forall|i: int| 0 <= i < rows.len() implies !names(plan, 0, (#[trigger] rows[i]).sample) by {
            if names(plan, 0, rows[i].sample) {
                let t = choose|t: int| names_at(plan, 0, rows[i].sample, t);
            }
        }
    }
    assert forall|t: int| 0 <= t < plan.trackers.len() implies pending(
        end,
        (#[trigger] plan.trackers[t]).device_id,
        plan.trackers[t].array_id,
    ).len() == 0 by {
        let device_id = plan.trackers[t].device_id;
        let tracker_id = plan.trackers[t].array_id;
        let waiting = pending(end, device_id, tracker_id);
        lemma_pending_members(end, device_id, tracker_id);
        if waiting.len() > 0 {
            assert(waits_in(end, device_id, tracker_id, waiting[0]));
            let a = choose|a: int| pending_row_of(end, device_id, tracker_id, waiting[0], a);
            assert(names_at(plan, plan.trackers.len() as int, rows[a].sample, t));
        }
    }
    lemma_plan_drains(plan, rows, answers, 0)
}

} // verus!
