//! The retry loop that feeds stream events into the store and signals
//! readiness once the first full configuration has been applied.
//!
//! The loop itself is a state machine over one background run: a failure
//! counter and a one-shot readiness slot. Each stream item is one
//! [`SourceEvent`]; [`ConsumerState::step`] decides what it does to the
//! store and what the driver of the stream should do next.

use vstd::prelude::*;

use crate::message::Message;
use crate::models::FeatureFlagState;
use crate::store::{apply_flags, apply_init, apply_status, MemoryStore};

verus! {

/// How many consecutive stream failures end the run for good.
pub const MAX_CONSECUTIVE_FAILURES: u8 = 4;

/// Why reading from a stream of events ended without readiness.
#[derive(Clone, Copy, Debug, PartialEq, Eq)]
pub enum ReadError {
    /// The stream ended before any readiness value was published.
    TaskDropped,
    /// Reading failed four times in a row.
    RetryFailed,
}

/// The state of the store after consuming a message.
#[derive(Clone, Copy, Debug, PartialEq, Eq)]
pub enum InitState {
    /// The message was dropped because the store holds no full
    /// configuration yet.
    Pending,
    /// The message was applied, or absorbed as a no-op.
    Done,
}

/// One item observed on the stream: a decoded message, or a failure to
/// produce one (a connection error or an undecodable event).
#[derive(Debug, PartialEq)]
pub enum SourceEvent {
    Message(Message),
    Failure,
}

/// What the driver of the stream should do after one step.
#[derive(Clone, Copy, Debug, PartialEq, Eq)]
pub enum StepAction {
    /// Keep reading from the current stream.
    Continue,
    /// Ask the source for a fresh stream, then keep reading.
    Restart,
    /// Stop for good: the failure budget is spent.
    GiveUp,
}

/// The whole state of one background run, as the specification sees it.
pub ghost struct RunState {
    pub flags: Map<Seq<char>, FeatureFlagState>,
    pub init: bool,
    pub failures: int,
    pub ready: Option<Result<(), ReadError>>,
}

/// Publishes a value into the one-shot readiness slot: the first value
/// wins, later ones change nothing.
pub open spec fn publish(
    slot: Option<Result<(), ReadError>>,
    v: Result<(), ReadError>,
) -> Option<Result<(), ReadError>> {
    if slot is None {
        Some(v)
    } else {
        slot
    }
}

/// One step of the run: a failure counts toward the budget and publishes
/// the terminal error when the budget is spent; a message resets the
/// counter, goes to the store, and publishes readiness the first time the
/// store reports it applied. A run whose budget is already spent changes
/// nothing.
pub open spec fn step_spec(s: RunState, e: SourceEvent) -> RunState {
    if s.failures >= MAX_CONSECUTIVE_FAILURES as int {
        s
    } else {
        match e {
            SourceEvent::Failure => {
                let f = s.failures + 1;
                RunState {
                    failures: f,
                    ready: if f >= MAX_CONSECUTIVE_FAILURES as int {
                        publish(s.ready, Err(ReadError::RetryFailed))
                    } else {
                        s.ready
                    },
                    ..s
                }
            },
            SourceEvent::Message(m) => RunState {
                flags: apply_flags(s.flags, s.init, m),
                init: apply_init(s.init, m),
                failures: 0,
                ready: if apply_status(s.init, m) == InitState::Done {
                    publish(s.ready, Ok(()))
                } else {
                    s.ready
                },
            },
        }
    }
}

/// What the driver should do after one step.
pub open spec fn action_spec(s: RunState, e: SourceEvent) -> StepAction {
    if s.failures >= MAX_CONSECUTIVE_FAILURES as int {
        StepAction::GiveUp
    } else {
        match e {
            SourceEvent::Failure => {
                if s.failures + 1 >= MAX_CONSECUTIVE_FAILURES as int {
                    StepAction::GiveUp
                } else {
                    StepAction::Restart
                }
            },
            SourceEvent::Message(_) => StepAction::Continue,
        }
    }
}

/// The run folded over a whole sequence of events, stopping once the
/// failure budget is spent.
pub open spec fn run_spec(s: RunState, events: Seq<SourceEvent>) -> RunState
    decreases events.len(),
{
    if events.len() == 0 || s.failures >= MAX_CONSECUTIVE_FAILURES as int {
        s
    } else {
        run_spec(step_spec(s, events[0]), events.drop_first())
    }
}

/// What a waiter on readiness observes at the end of a run: the published
/// value, or the guard error when the run ended without publishing one.
pub open spec fn read_result(s: RunState) -> Result<(), ReadError> {
    match s.ready {
        Some(v) => v,
        None => Err(ReadError::TaskDropped),
    }
}

/// The consumer's own state: the consecutive-failure counter and the
/// one-shot readiness slot.
pub struct ConsumerState {
    failures: u8,
    ready: Option<Result<(), ReadError>>,
}

/// The run state formed by a consumer and the store it feeds.
pub open spec fn run_state(c: ConsumerState, st: MemoryStore) -> RunState {
    RunState {
        flags: st.flags(),
        init: st.initialized(),
        failures: c.failures_count(),
        ready: c.ready_slot(),
    }
}

impl ConsumerState {
    /// The number of consecutive failures seen since the last message.
    pub closed spec fn failures_count(&self) -> int {
        self.failures as int
    }

    /// The readiness slot: the first published value, if any.
    pub closed spec fn ready_slot(&self) -> Option<Result<(), ReadError>> {
        self.ready
    }

    /// A fresh run: no failures, nothing published.
    pub fn new() -> (r: ConsumerState)
        ensures
            r.failures_count() == 0,
            r.ready_slot() is None,
    {
        ConsumerState { failures: 0, ready: None }
    }

    /// Reads the readiness slot.
    pub fn readiness(&self) -> (r: Option<Result<(), ReadError>>)
        ensures
            r == self.ready_slot(),
    {
        self.ready
    }

    /// Feeds one stream item to the store and advances the run.
    pub fn step(&mut self, store: &mut MemoryStore, event: SourceEvent) -> (a: StepAction)
        requires
            old(store).wf(),
        ensures
            final(store).wf(),
            run_state(*final(self), *final(store)) == step_spec(
                run_state(*old(self), *old(store)),
                event,
            ),
            a == action_spec(run_state(*old(self), *old(store)), event),
    {
        if self.failures >= MAX_CONSECUTIVE_FAILURES {
            return StepAction::GiveUp;
        }
        match event {
            SourceEvent::Failure => {
                self.failures = self.failures + 1;
                if self.failures >= MAX_CONSECUTIVE_FAILURES {
                    if self.ready.is_none() {
                        self.ready = Some(Err(ReadError::RetryFailed));
                    }
                    StepAction::GiveUp
                } else {
                    StepAction::Restart
                }
            },
            SourceEvent::Message(m) => {
                self.failures = 0;
                let state = store.apply(m);
                match state {
                    InitState::Done => {
                        if self.ready.is_none() {
                            self.ready = Some(Ok(()));
                        }
                    },
                    InitState::Pending => {},
                }
                StepAction::Continue
            },
        }
    }
}

impl MemoryStore {
    /// Drives a whole run over a sequence of stream items: messages are
    /// applied in order, failures count toward the budget, and the run ends
    /// when the items run out or the budget is spent. Returns what a waiter
    /// on readiness observes.
    pub fn read_from(&mut self, events: Vec<SourceEvent>) -> (r: Result<(), ReadError>)
        requires
            old(self).wf(),
        ensures
            final(self).wf(),
            ({
                let start = RunState {
                    flags: old(self).flags(),
                    init: old(self).initialized(),
                    failures: 0,
                    ready: None,
                };
                let end = run_spec(start, events@);
                &&& r == read_result(end)
                &&& final(self).flags() == end.flags
                &&& final(self).initialized() == end.init
            }),
    {
        let ghost start = RunState {
            flags: old(self).flags(),
            init: old(self).initialized(),
            failures: 0,
            ready: None,
        };
        let ghost total = events@;
        let mut rest = events;
        let mut state = ConsumerState::new();
        loop
            invariant
                self.wf(),
                run_spec(run_state(state, *self), rest@) == run_spec(start, total),
            ensures
                rest@.len() == 0 || run_state(state, *self).failures
                    >= MAX_CONSECUTIVE_FAILURES as int,
            decreases rest@.len(),
        {
            if rest.len() == 0 {
                break;
            }
            if state.failures >= MAX_CONSECUTIVE_FAILURES {
                break;
            }
            let ghost rest_before = rest@;
            let ev = rest.remove(0);
            let _ = state.step(self, ev);
            proof {
                assert(rest@ =~= rest_before.drop_first());
            }
        }
        match state.readiness() {
            Some(v) => v,
            None => Err(ReadError::TaskDropped),
        }
    }
}

} // verus!
