//! The order of a run: per tracker fetch, deliver and commit until nothing
//! waits, one tracker after the other.
//!
//! The driver decides and the caller acts. Each decision is an action for
//! the caller to perform; what came of it is handed back as an event.

use vstd::prelude::*;

use crate::error::SyncError;
use crate::request::{can_request, prepare_request, request_of, RequestView, UploadRequest};
use crate::solar_data::{SampleView, SolarData};
use crate::store::ids_of;

verus! {

/// The most samples that one batch carries.
pub const BATCH_LIMIT: usize = 30;

/// A configured monitoring channel and the remote system it reports to.
#[derive(Debug, Clone, PartialEq, Eq)]
pub struct Tracker {
    pub device_id: u8,
    pub array_id: u8,
    pub system_id: String,
}

/// The mathematical value of a [`Tracker`].
pub struct TrackerView {
    pub device_id: u8,
    pub array_id: u8,
    pub system_id: Seq<char>,
}

impl View for Tracker {
    type V = TrackerView;

    open spec fn view(&self) -> TrackerView {
        TrackerView {
            device_id: self.device_id,
            array_id: self.array_id,
            system_id: self.system_id@,
        }
    }
}

impl DeepView for Tracker {
    type V = TrackerView;

    open spec fn deep_view(&self) -> TrackerView {
        self@
    }
}

/// What a run is configured with: the trackers in the order in which they
/// are drained, and the API key of the account.
#[derive(Debug, Clone, PartialEq, Eq)]
pub struct SyncPlan {
    pub trackers: Vec<Tracker>,
    pub api_key: String,
}

/// The mathematical value of a [`SyncPlan`].
pub struct PlanView {
    pub trackers: Seq<TrackerView>,
    pub api_key: Seq<char>,
}

impl View for SyncPlan {
    type V = PlanView;

    open spec fn view(&self) -> PlanView {
        PlanView { trackers: self.trackers.deep_view(), api_key: self.api_key@ }
    }
}

/// Where a run stands.
#[derive(Debug, Clone, PartialEq, Eq)]
pub enum SyncState {
    /// A selection for the tracker at this place of the plan is under way.
    Fetching { tracker: usize },
    /// The batch with these ids is on its way to the remote service.
    Sending { tracker: usize, ids: Vec<u64> },
    /// The commit of the delivered batch is under way.
    Committing { tracker: usize },
    /// Every tracker is drained.
    Done,
    /// The run was given up.
    Failed { error: SyncError },
}

/// The mathematical value of a [`SyncState`].
pub enum StateView {
    Fetching { tracker: usize },
    Sending { tracker: usize, ids: Seq<u64> },
    Committing { tracker: usize },
    Done,
    Failed { error: SyncError },
}

impl View for SyncState {
    type V = StateView;

    open spec fn view(&self) -> StateView {
        match *self {
            SyncState::Fetching { tracker } => StateView::Fetching { tracker },
            SyncState::Sending { tracker, ids } => StateView::Sending { tracker, ids: ids@ },
            SyncState::Committing { tracker } => StateView::Committing { tracker },
            SyncState::Done => StateView::Done,
            SyncState::Failed { error } => StateView::Failed { error },
        }
    }
}

/// What came of the action that the driver asked for.
#[derive(Debug, Clone, PartialEq, Eq)]
pub enum SyncEvent {
    /// The selection returned this batch.
    Fetched { batch: Vec<SolarData> },
    /// The request was carried out and answered with this HTTP status.
    Sent { status: u32 },
    /// The commit was made.
    Committed,
    /// The action failed.
    Failed { error: SyncError },
}

/// The mathematical value of a [`SyncEvent`].
pub enum EventView {
    Fetched { batch: Seq<SampleView> },
    Sent { status: u32 },
    Committed,
    Failed { error: SyncError },
}

impl View for SyncEvent {
    type V = EventView;

    open spec fn view(&self) -> EventView {
        match *self {
            SyncEvent::Fetched { batch } => EventView::Fetched { batch: batch.deep_view() },
            SyncEvent::Sent { status } => EventView::Sent { status },
            SyncEvent::Committed => EventView::Committed,
            SyncEvent::Failed { error } => EventView::Failed { error },
        }
    }
}

/// What the caller is to do next.
#[derive(Debug, Clone, PartialEq, Eq)]
pub enum SyncAction {
    /// Select up to `limit` pending samples of the tracker, in ascending id
    /// order.
    Select { device_id: u8, tracker_id: u8, limit: usize },
    /// Carry out the request.
    Send { request: UploadRequest },
    /// Mark exactly these ids as uploaded, in one step.
    Commit { ids: Vec<u64> },
    /// Nothing is left to do: the run succeeded.
    Finish,
    /// Stop: the run failed.
    Abort { error: SyncError },
}

/// The mathematical value of a [`SyncAction`].
pub enum ActionView {
    Select { device_id: u8, tracker_id: u8, limit: usize },
    Send { request: RequestView },
    Commit { ids: Seq<u64> },
    Finish,
    Abort { error: SyncError },
}

impl View for SyncAction {
    type V = ActionView;

    open spec fn view(&self) -> ActionView {
        match *self {
            SyncAction::Select { device_id, tracker_id, limit } => ActionView::Select {
                device_id,
                tracker_id,
                limit,
            },
            SyncAction::Send { request } => ActionView::Send { request: request@ },
            SyncAction::Commit { ids } => ActionView::Commit { ids: ids@ },
            SyncAction::Finish => ActionView::Finish,
            SyncAction::Abort { error } => ActionView::Abort { error },
        }
    }
}

/// The run is given up for `error`.
pub open spec fn give_up(error: SyncError) -> (StateView, ActionView) {
    (StateView::Failed { error }, ActionView::Abort { error })
}

/// The run turns to the tracker at place `tracker` of the plan: a selection
/// for it, or the end of the run where the plan holds no such tracker.
pub open spec fn turn_to(plan: PlanView, tracker: int) -> (StateView, ActionView) {
    if 0 <= tracker < plan.trackers.len() {
        (
            StateView::Fetching { tracker: tracker as usize },
            ActionView::Select {
                device_id: plan.trackers[tracker].device_id,
                tracker_id: plan.trackers[tracker].array_id,
                limit: BATCH_LIMIT,
            },
        )
    } else {
        (StateView::Done, ActionView::Finish)
    }
}

/// What follows a selection that returned `batch` for the tracker at place
/// `tracker`: the next tracker where nothing waits, else the delivery of the
/// whole batch.
pub open spec fn after_fetch(plan: PlanView, tracker: int, batch: Seq<SampleView>) -> (
    StateView,
    ActionView,
) {
    if !(0 <= tracker < plan.trackers.len()) {
        give_up(SyncError::Protocol)
    } else if batch.len() == 0 {
        turn_to(plan, tracker + 1)
    } else if can_request(batch, plan.trackers[tracker].system_id, plan.api_key) {
        (
            StateView::Sending { tracker: tracker as usize, ids: ids_of(batch) },
            ActionView::Send {
                request: request_of(batch, plan.trackers[tracker].system_id, plan.api_key),
            },
        )
    } else {
        give_up(SyncError::Protocol)
    }
}

/// The state and the action that follow `event` in `state`.
///
/// A finished or failed run stays as it is. A failed action ends the run
/// with its error. A delivery is followed by the commit of exactly the ids
/// of the batch that was fetched, whatever the HTTP status; a commit by the
/// next selection for the same tracker. An event that does not answer the
/// action of the state ends the run with `Protocol`.
pub open spec fn next_of(plan: PlanView, state: StateView, event: EventView) -> (
    StateView,
    ActionView,
) {
    match state {
        StateView::Done => (StateView::Done, ActionView::Finish),
        StateView::Failed { error } => give_up(error),
        StateView::Fetching { tracker } => match event {
            EventView::Failed { error } => give_up(error),
            EventView::Fetched { batch } => after_fetch(plan, tracker as int, batch),
            _ => give_up(SyncError::Protocol),
        },
        StateView::Sending { tracker, ids } => match event {
            EventView::Failed { error } => give_up(error),
            EventView::Sent { status } => (
                StateView::Committing { tracker },
                ActionView::Commit { ids },
            ),
            _ => give_up(SyncError::Protocol),
        },
        StateView::Committing { tracker } => match event {
            EventView::Failed { error } => give_up(error),
            EventView::Committed => turn_to(plan, tracker as int),
            _ => give_up(SyncError::Protocol),
        },
    }
}

fn abort(error: SyncError) -> (next: (SyncState, SyncAction))
    ensures
        (next.0@, next.1@) == give_up(error),
{
    (SyncState::Failed { error }, SyncAction::Abort { error })
}

fn select_for(plan: &SyncPlan, tracker: usize) -> (next: (SyncState, SyncAction))
    ensures
        (next.0@, next.1@) == turn_to(plan@, tracker as int),
{
    if tracker < plan.trackers.len() {
        let entry = &plan.trackers[tracker];
        (
            SyncState::Fetching { tracker },
            SyncAction::Select {
                device_id: entry.device_id,
                tracker_id: entry.array_id,
                limit: BATCH_LIMIT,
            },
        )
    } else {
        (SyncState::Done, SyncAction::Finish)
    }
}

/// The ids of a batch, in its order.
pub fn batch_ids(batch: &Vec<SolarData>) -> (ids: Vec<u64>)
    ensures
        ids@ == ids_of(batch.deep_view()),
{
    let mut ids: Vec<u64> = Vec::new();
    let mut i: usize = 0;
    while i < batch.len()
        invariant
            i <= batch.len(),
            ids@ == ids_of(batch.deep_view().take(i as int)),
        decreases batch.len() - i,
    {
        ids.push(batch[i].id);
        i += 1;
    }
    ids
}

fn deliver(plan: &SyncPlan, tracker: usize, batch: Vec<SolarData>) -> (next: (
    SyncState,
    SyncAction,
))
    ensures
        (next.0@, next.1@) == after_fetch(plan@, tracker as int, batch.deep_view()),
{
    if tracker >= plan.trackers.len() {
        return abort(SyncError::Protocol);
    }
    if batch.len() == 0 {
        return select_for(plan, tracker + 1);
    }
    let entry = &plan.trackers[tracker];
    match prepare_request(&batch, entry.system_id.as_str(), plan.api_key.as_str()) {
        Ok(request) => {
            let ids = batch_ids(&batch);
            (SyncState::Sending { tracker, ids }, SyncAction::Send { request })
        },
        Err(_) => abort(SyncError::Protocol),
    }
}

/// The first state of a run and its first action: a selection for the first
/// tracker of the plan, or the end of the run where the plan names none.
pub fn start(plan: &SyncPlan) -> (first: (SyncState, SyncAction))
    ensures
        (first.0@, first.1@) == turn_to(plan@, 0),
{
    select_for(plan, 0)
}

/// Decides what follows `event` in `state`.
pub fn step(plan: &SyncPlan, state: SyncState, event: SyncEvent) -> (next: (SyncState, SyncAction))
    ensures
        (next.0@, next.1@) == next_of(plan@, state@, event@),
{
    match state {
        SyncState::Done => (SyncState::Done, SyncAction::Finish),
        SyncState::Failed { error } => abort(error),
        SyncState::Fetching { tracker } => match event {
            SyncEvent::Failed { error } => abort(error),
            SyncEvent::Fetched { batch } => deliver(plan, tracker, batch),
            _ => abort(SyncError::Protocol),
        },
        SyncState::Sending { tracker, ids } => match event {
            SyncEvent::Failed { error } => abort(error),
            SyncEvent::Sent { status } => (
                SyncState::Committing { tracker },
                SyncAction::Commit { ids },
            ),
            _ => abort(SyncError::Protocol),
        },
        SyncState::Committing { tracker } => match event {
            SyncEvent::Failed { error } => abort(error),
            SyncEvent::Committed => select_for(plan, tracker),
            _ => abort(SyncError::Protocol),
        },
    }
}

/// A cycle commits what it fetched: after a selection that returned a batch
/// which can be written as a request, the driver asks for the delivery of
/// that whole batch, then, whatever status the delivery was answered with,
/// for the commit of exactly the ids of that batch, and then for the next
/// selection of the same tracker.
pub proof fn lemma_cycle_commits_what_was_fetched(
    plan: PlanView,
    tracker: usize,
    batch: Seq<SampleView>,
    status: u32,
)
    requires
        tracker < plan.trackers.len(),
        batch.len() > 0,
        can_request(batch, plan.trackers[tracker as int].system_id, plan.api_key),
    ensures
        ({
            let fetched = next_of(
                plan,
                StateView::Fetching { tracker },
                EventView::Fetched { batch },
            );
            let sent = next_of(plan, fetched.0, EventView::Sent { status });
            let committed = next_of(plan, sent.0, EventView::Committed);
            &&& fetched.1 == ActionView::Send {
                request: request_of(batch, plan.trackers[tracker as int].system_id, plan.api_key),
            }
            &&& sent.1 == ActionView::Commit { ids: ids_of(batch) }
            &&& committed == turn_to(plan, tracker as int)
            &&& committed.1 == ActionView::Select {
                device_id: plan.trackers[tracker as int].device_id,
                tracker_id: plan.trackers[tracker as int].array_id,
                limit: BATCH_LIMIT,
            }
        }),
{
}

/// An empty selection ends the tracker: the driver asks for no delivery and
/// no commit, and turns to the tracker that follows in the plan, or ends the
/// run after the last one.
pub proof fn lemma_empty_batch_moves_on(plan: PlanView, tracker: usize)
    requires
        tracker < plan.trackers.len(),
    ensures
        next_of(
            plan,
            StateView::Fetching { tracker },
            EventView::Fetched { batch: Seq::<SampleView>::empty() },
        ) == turn_to(plan, tracker + 1),
        tracker + 1 == plan.trackers.len() ==> turn_to(plan, tracker + 1) == (
            StateView::Done,
            ActionView::Finish,
        ),
{
}

/// A failed action ends the run at once, with the error of the action.
pub proof fn lemma_failure_ends_the_run(
    plan: PlanView,
    state: StateView,
    error: SyncError,
    later: EventView,
)
    requires
        !(state is Done),
        !(state is Failed),
    ensures
        next_of(plan, state, EventView::Failed { error }) == give_up(error),
        next_of(plan, give_up(error).0, later) == give_up(error),
{
}

} // verus!
