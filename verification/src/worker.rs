//! The worker loop's decision core, as a state machine: what one poll cycle
//! does to the session and the attempt flag, and which actions — dispatching,
//! persisting, fetching a fresh session, sleeping, stopping — the driver must
//! take next. The driver performs the waiting and the requests; every
//! decision is taken here.

use vstd::prelude::*;
use crate::backoff::{backoff_secs, AttemptState};
use crate::errors::ProtocolError;
use crate::protocol::{EventModel, OutcomeModel, PollOutcome, Event, events_view};
use crate::session::{ServerConfig, SessionModel};
use crate::text::str_eq;

verus! {

/// An `Option<String>` as an optional character sequence.
pub open spec fn opt_str_view(o: Option<String>) -> Option<Seq<char>> {
    match o {
        Some(s) => Some(s@),
        None => None,
    }
}

/// The worker's whole state: the configuration it relays for, the session it
/// polls with, and whether the last attempt failed.
pub struct Worker {
    pub group_id: u64,
    pub chat_peer_id: i64,
    pub session: ServerConfig,
    pub attempt: AttemptState,
}

/// Mathematical model of a [`Worker`].
#[verifier::ext_equal]
pub struct WorkerModel {
    pub group_id: u64,
    pub chat_peer_id: i64,
    pub session: SessionModel,
    pub last_attempt_failed: bool,
}

impl View for Worker {
    type V = WorkerModel;

    open spec fn view(&self) -> WorkerModel {
        WorkerModel {
            group_id: self.group_id,
            chat_peer_id: self.chat_peer_id,
            session: self.session@,
            last_attempt_failed: self.attempt.last_attempt_failed,
        }
    }
}

/// How the poll's wait ended: cancellation was observed, or the request came
/// back and was interpreted (possibly as a failed cycle).
#[derive(Debug)]
pub enum PollWait {
    Cancelled,
    Delivered { outcome: Result<PollOutcome, ProtocolError> },
}

/// Mathematical model of a [`PollWait`]: a failed cycle carries no outcome.
#[verifier::ext_equal]
pub enum PollWaitModel {
    Cancelled,
    Delivered { outcome: Option<OutcomeModel> },
}

impl View for PollWait {
    type V = PollWaitModel;

    open spec fn view(&self) -> PollWaitModel {
        match self {
            PollWait::Cancelled => PollWaitModel::Cancelled,
            PollWait::Delivered { outcome } => PollWaitModel::Delivered {
                outcome: match outcome {
                    Ok(o) => Some(o@),
                    Err(_) => None,
                },
            },
        }
    }
}

/// What a cycle does after its events were dispatched: nothing more, persist
/// the (changed) session, or fetch a fresh session from upstream.
#[derive(Debug, PartialEq)]
pub enum AfterDispatch {
    Continue,
    Persist,
    FetchSession { all: bool, cursor: Option<String> },
}

/// Mathematical model of an [`AfterDispatch`].
#[verifier::ext_equal]
pub enum AfterModel {
    Continue,
    Persist,
    FetchSession { all: bool, cursor: Option<Seq<char>> },
}

impl View for AfterDispatch {
    type V = AfterModel;

    open spec fn view(&self) -> AfterModel {
        match self {
            AfterDispatch::Continue => AfterModel::Continue,
            AfterDispatch::Persist => AfterModel::Persist,
            AfterDispatch::FetchSession { all, cursor } => AfterModel::FetchSession {
                all: *all,
                cursor: opt_str_view(*cursor),
            },
        }
    }
}

/// The step a cycle takes after the poll wait: stop on cancellation, sleep
/// and retry on failure, or dispatch the events and then act on the session.
#[derive(Debug, PartialEq)]
pub enum CycleStep {
    Stop,
    Sleep { secs: u64 },
    Dispatch { events: Vec<Event>, after: AfterDispatch },
}

/// Mathematical model of a [`CycleStep`].
#[verifier::ext_equal]
pub enum StepModel {
    Stop,
    Sleep { secs: u64 },
    Dispatch { events: Seq<EventModel>, after: AfterModel },
}

impl View for CycleStep {
    type V = StepModel;

    open spec fn view(&self) -> StepModel {
        match self {
            CycleStep::Stop => StepModel::Stop,
            CycleStep::Sleep { secs } => StepModel::Sleep { secs: *secs },
            CycleStep::Dispatch { events, after } => StepModel::Dispatch {
                events: events_view(events@),
                after: after@,
            },
        }
    }
}

/// The step a session refresh ends with: sleep and retry on a failed fetch
/// (the stale session stays for the next attempt), or the session was
/// replaced and must be persisted.
#[derive(Debug, PartialEq)]
pub enum RefreshStep {
    Sleep { secs: u64 },
    Updated,
}

/// Mathematical model of a [`RefreshStep`].
#[verifier::ext_equal]
pub enum RefreshStepModel {
    Sleep { secs: u64 },
    Updated,
}

impl View for RefreshStep {
    type V = RefreshStepModel;

    open spec fn view(&self) -> RefreshStepModel {
        match self {
            RefreshStep::Sleep { secs } => RefreshStepModel::Sleep { secs: *secs },
            RefreshStep::Updated => RefreshStepModel::Updated,
        }
    }
}

/// One poll cycle's transition.
///
/// - Cancellation stops the loop with the state untouched.
/// - A failed cycle marks the attempt failed, leaves the session untouched,
///   and sleeps for the backoff interval computed from the flag before it.
/// - A successful cycle resets the attempt flag and dispatches the outcome's
///   events. With no refresh requested, a cursor that differs from the stored
///   one is adopted and persisted; otherwise nothing more happens. With a
///   refresh requested, a fresh session must be fetched.
pub open spec fn poll_step(w: WorkerModel, input: PollWaitModel) -> (WorkerModel, StepModel) {
    match input {
        PollWaitModel::Cancelled => (w, StepModel::Stop),
        PollWaitModel::Delivered { outcome } => match outcome {
            None => (
                WorkerModel { last_attempt_failed: true, ..w },
                StepModel::Sleep { secs: backoff_secs(w.last_attempt_failed) },
            ),
            Some(o) => {
                let w1 = WorkerModel { last_attempt_failed: false, ..w };
                if !o.refresh_key && !o.refresh_all {
                    match o.ts {
                        Some(t) => if t != w.session.ts {
                            (
                                WorkerModel {
                                    session: SessionModel { ts: t, ..w.session },
                                    ..w1
                                },
                                StepModel::Dispatch {
                                    events: o.events,
                                    after: AfterModel::Persist,
                                },
                            )
                        } else {
                            (
                                w1,
                                StepModel::Dispatch {
                                    events: o.events,
                                    after: AfterModel::Continue,
                                },
                            )
                        },
                        None => (
                            w1,
                            StepModel::Dispatch { events: o.events, after: AfterModel::Continue },
                        ),
                    }
                } else {
                    (
                        w1,
                        StepModel::Dispatch {
                            events: o.events,
                            after: AfterModel::FetchSession {
                                all: o.refresh_all,
                                cursor: o.ts,
                            },
                        },
                    )
                }
            },
        },
    }
}

/// The transition a session refresh makes.
///
/// - A failed fetch marks the attempt failed, keeps the stale session, and
///   sleeps for the backoff interval.
/// - A full refresh adopts the fetched triple whole; a key refresh adopts
///   only the fetched key. Either way, a cursor the outcome carried is
///   adopted on top, and the result must be persisted.
pub open spec fn refresh_step(
    w: WorkerModel,
    all: bool,
    cursor: Option<Seq<char>>,
    fetched: Option<SessionModel>,
) -> (WorkerModel, RefreshStepModel) {
    match fetched {
        None => (
            WorkerModel { last_attempt_failed: true, ..w },
            RefreshStepModel::Sleep { secs: backoff_secs(w.last_attempt_failed) },
        ),
        Some(nc) => {
            let server = if all {
                nc.server
            } else {
                w.session.server
            };
            let base_ts = if all {
                nc.ts
            } else {
                w.session.ts
            };
            let ts = match cursor {
                Some(t) => t,
                None => base_ts,
            };
            (
                WorkerModel { session: SessionModel { key: nc.key, server, ts }, ..w },
                RefreshStepModel::Updated,
            )
        },
    }
}

impl Worker {
    /// A worker starts with no failed attempt on record.
    pub fn new(group_id: u64, chat_peer_id: i64, session: ServerConfig) -> (w: Worker)
        ensures
            w@ == (WorkerModel {
                group_id,
                chat_peer_id,
                session: session@,
                last_attempt_failed: false,
            }),
    {
        Worker { group_id, chat_peer_id, session, attempt: AttemptState::new() }
    }

    /// Take one poll cycle's step.
    pub fn on_poll_wait(&mut self, input: PollWait) -> (step: CycleStep)
        ensures
            (final(self)@, step@) == poll_step(old(self)@, input@),
    {
        match input {
            PollWait::Cancelled => CycleStep::Stop,
            PollWait::Delivered { outcome } => match outcome {
                Err(_) => {
                    let secs = self.attempt.on_failure();
                    CycleStep::Sleep { secs }
                },
                Ok(o) => {
                    self.attempt.on_success();
                    let PollOutcome { ts, refresh_key, refresh_all, events } = o;
                    if !refresh_key && !refresh_all {
                        match ts {
                            Some(t) => {
                                if !str_eq(t.as_str(), self.session.ts.as_str()) {
                                    self.session.ts = t;
                                    CycleStep::Dispatch { events, after: AfterDispatch::Persist }
                                } else {
                                    CycleStep::Dispatch { events, after: AfterDispatch::Continue }
                                }
                            },
                            None => CycleStep::Dispatch {
                                events,
                                after: AfterDispatch::Continue,
                            },
                        }
                    } else {
                        CycleStep::Dispatch {
                            events,
                            after: AfterDispatch::FetchSession { all: refresh_all, cursor: ts },
                        }
                    }
                },
            },
        }
    }

    /// Take the step that ends a session refresh.
    pub fn on_refresh_result(
        &mut self,
        all: bool,
        cursor: Option<String>,
        fetched: Option<ServerConfig>,
    ) -> (step: RefreshStep)
        ensures
            (final(self)@, step@) == refresh_step(
                old(self)@,
                all,
                opt_str_view(cursor),
                match fetched {
                    Some(c) => Some(c@),
                    None => None,
                },
            ),
    {
        match fetched {
            None => {
                let secs = self.attempt.on_failure();
                RefreshStep::Sleep { secs }
            },
            Some(nc) => {
                if all {
                    self.session = nc;
                } else {
                    self.session.key = nc.key;
                }
                match cursor {
                    Some(t) => {
                        self.session.ts = t;
                    },
                    None => (),
                }
                RefreshStep::Updated
            },
        }
    }

    /// Record a failure during dispatch (a failed lookup or relay send) and
    /// return how long to sleep before going on.
    pub fn on_relay_failure(&mut self) -> (secs: u64)
        ensures
            secs == backoff_secs(old(self)@.last_attempt_failed),
            final(self)@ == (WorkerModel { last_attempt_failed: true, ..old(self)@ }),
    {
        self.attempt.on_failure()
    }
}

/// Backoff across whole cycles: after two consecutive failed cycles the
/// second sleeps the short interval, and when a successful cycle stands
/// between two failures the later failure sleeps the long interval again —
/// whatever state the worker started in and whatever the successful cycle's
/// outcome was.
pub proof fn lemma_cycle_backoff(w: WorkerModel, o: OutcomeModel)
    ensures
        ({
            let failed = PollWaitModel::Delivered { outcome: None };
            let (w1, _) = poll_step(w, failed);
            let (w2, s2) = poll_step(w1, failed);
            s2 == StepModel::Sleep { secs: crate::backoff::SHORT_INTERVAL_SECS }
        }),
        ({
            let failed = PollWaitModel::Delivered { outcome: None };
            let (w1, _) = poll_step(w, failed);
            let (w3, _) = poll_step(w1, PollWaitModel::Delivered { outcome: Some(o) });
            let (w4, s4) = poll_step(w3, failed);
            s4 == StepModel::Sleep { secs: crate::backoff::LONG_INTERVAL_SECS }
        }),
{
}

/// Cancellation observed during the poll's wait stops the loop at once: the
/// step carries no events to dispatch, nothing is persisted or fetched, and
/// the worker state is left untouched.
pub proof fn lemma_cancellation_stops_cycle(w: WorkerModel)
    ensures
        poll_step(w, PollWaitModel::Cancelled) == (w, StepModel::Stop),
{
}

} // verus!
