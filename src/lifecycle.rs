use vstd::prelude::*;

verus! {

/// The lifecycle of an actor's task loop. `Stopped` is terminal.
#[derive(Clone, Copy, Debug, PartialEq, Eq, Structural)]
pub enum ActorStatus {
    Starting,
    Running,
    Stopping,
    Stopped,
}

/// What the task loop observed.
#[derive(Clone, Copy, Debug, PartialEq, Eq, Structural)]
pub enum LoopEvent {
    /// The startup hook has finished.
    Started,
    /// An application envelope was taken from the mailbox.
    Envelope,
    /// The handler of the envelope in flight has finished.
    HandlerDone,
    /// The startup hook or the handler in flight failed unrecoverably.
    HandlerFault,
    /// A Stop signal was taken from the mailbox.
    Stop,
    /// The mailbox is closed and drained: every sender is gone.
    MailboxClosed,
    /// The shutdown hook has finished.
    ShutdownDone,
}

/// What the task loop does next.
#[derive(Clone, Copy, Debug, PartialEq, Eq, Structural)]
pub enum LoopAction {
    /// Send the completion signal on the start channel.
    SignalStarted,
    /// Hand the envelope just taken to the actor's handler.
    Dispatch,
    /// Drop the envelope just taken unanswered: its reply slot reports the
    /// recipient gone.
    Drop,
    /// Nothing to do but carry on.
    Continue,
    /// Run the shutdown hook.
    Shutdown,
    /// End the task, which closes the mailbox.
    Exit,
}

/// The decision state of one actor's task loop.
#[derive(Clone, Copy, Debug, PartialEq, Eq, Structural)]
pub struct LoopState {
    pub status: ActorStatus,
    /// A start signal was supplied and has not been sent yet.
    pub start_pending: bool,
    /// A handler invocation is executing.
    pub in_flight: bool,
}

/// The state in which a task loop begins.
pub open spec fn initial_spec(has_start_signal: bool) -> LoopState {
    LoopState { status: ActorStatus::Starting, start_pending: has_start_signal, in_flight: false }
}

/// The states a loop can be in: a start signal is pending only before startup,
/// and no handler executes before startup or after the task has stopped.
pub open spec fn consistent(s: LoopState) -> bool {
    &&& s.start_pending ==> s.status == ActorStatus::Starting
    &&& s.status == ActorStatus::Starting ==> !s.in_flight
    &&& s.status == ActorStatus::Stopped ==> !s.in_flight && !s.start_pending
}

pub open spec fn with_status(s: LoopState, status: ActorStatus) -> LoopState {
    LoopState { status, ..s }
}

pub open spec fn stopped() -> LoopState {
    LoopState { status: ActorStatus::Stopped, start_pending: false, in_flight: false }
}

/// One decision of the task loop: the next state and the action to perform.
pub open spec fn step_spec(s: LoopState, e: LoopEvent) -> (LoopState, LoopAction) {
    match s.status {
        ActorStatus::Starting => match e {
            LoopEvent::Started => (
                LoopState { status: ActorStatus::Running, start_pending: false, in_flight: false },
                if s.start_pending {
                    LoopAction::SignalStarted
                } else {
                    LoopAction::Continue
                },
            ),
            LoopEvent::Envelope => (s, LoopAction::Drop),
            LoopEvent::HandlerFault => (stopped(), LoopAction::Exit),
            LoopEvent::Stop | LoopEvent::MailboxClosed => (
                LoopState { status: ActorStatus::Stopping, start_pending: false, in_flight: false },
                LoopAction::Shutdown,
            ),
            _ => (s, LoopAction::Continue),
        },
        ActorStatus::Running => match e {
            LoopEvent::Envelope => if s.in_flight {
                (s, LoopAction::Drop)
            } else {
                (LoopState { in_flight: true, ..s }, LoopAction::Dispatch)
            },
            LoopEvent::HandlerDone => (LoopState { in_flight: false, ..s }, LoopAction::Continue),
            LoopEvent::HandlerFault => if s.in_flight {
                (stopped(), LoopAction::Exit)
            } else {
                (s, LoopAction::Continue)
            },
            LoopEvent::Stop | LoopEvent::MailboxClosed => if s.in_flight {
                (with_status(s, ActorStatus::Stopping), LoopAction::Continue)
            } else {
                (with_status(s, ActorStatus::Stopping), LoopAction::Shutdown)
            },
            _ => (s, LoopAction::Continue),
        },
        ActorStatus::Stopping => match e {
            LoopEvent::Envelope => (s, LoopAction::Drop),
            LoopEvent::HandlerDone => if s.in_flight {
                (LoopState { in_flight: false, ..s }, LoopAction::Shutdown)
            } else {
                (s, LoopAction::Continue)
            },
            LoopEvent::HandlerFault => if s.in_flight {
                (stopped(), LoopAction::Exit)
            } else {
                (s, LoopAction::Continue)
            },
            LoopEvent::ShutdownDone => if s.in_flight {
                (s, LoopAction::Continue)
            } else {
                (stopped(), LoopAction::Exit)
            },
            _ => (s, LoopAction::Continue),
        },
        ActorStatus::Stopped => match e {
            LoopEvent::Envelope => (s, LoopAction::Drop),
            _ => (s, LoopAction::Continue),
        },
    }
}

/// Whether the loop may observe `e` in state `s`: it takes an envelope from the
/// mailbox only after startup and while no handler executes.
pub open spec fn expects(s: LoopState, e: LoopEvent) -> bool {
    e == LoopEvent::Envelope ==> s.status != ActorStatus::Starting && !s.in_flight
}

/// Every event of `evs` is one the loop may observe when it comes, from state `s`.
pub open spec fn admissible(s: LoopState, evs: Seq<LoopEvent>) -> bool
    decreases evs.len(),
{
    evs.len() == 0 || (expects(s, evs[0]) && admissible(step_spec(s, evs[0]).0, evs.drop_first()))
}

/// The actions that the loop performs on a sequence of events, from state `s`.
pub open spec fn run_spec(s: LoopState, evs: Seq<LoopEvent>) -> Seq<LoopAction>
    decreases evs.len(),
{
    if evs.len() == 0 {
        Seq::empty()
    } else {
        let (n, a) = step_spec(s, evs[0]);
        seq![a] + run_spec(n, evs.drop_first())
    }
}

proof fn lemma_run_len(s: LoopState, evs: Seq<LoopEvent>)
    ensures
        run_spec(s, evs).len() == evs.len(),
    decreases evs.len(),
{
    if evs.len() > 0 {
        lemma_run_len(step_spec(s, evs[0]).0, evs.drop_first());
    }
}

proof fn lemma_run_index(s: LoopState, evs: Seq<LoopEvent>, i: int)
    requires
        0 <= i < evs.len(),
    ensures
        i == 0 ==> run_spec(s, evs)[i] == step_spec(s, evs[0]).1,
        i > 0 ==> run_spec(s, evs)[i] == run_spec(step_spec(s, evs[0]).0, evs.drop_first())[i - 1],
{
    lemma_run_len(step_spec(s, evs[0]).0, evs.drop_first());
}

/// Every decision keeps the loop in a state it can be in.
pub proof fn lemma_step_consistent(s: LoopState, e: LoopEvent)
    requires
        consistent(s),
    ensures
        consistent(step_spec(s, e).0),
{
}

/// Once the loop is stopping or stopped it never leaves those states, never
/// dispatches, and can only exit from `Stopped`.
proof fn lemma_halting_never_dispatches(s: LoopState, evs: Seq<LoopEvent>)
    requires
        s.status == ActorStatus::Stopping || s.status == ActorStatus::Stopped,
    ensures
        forall|i: int| 0 <= i < evs.len() ==> run_spec(s, evs)[i] != LoopAction::Dispatch,
    decreases evs.len(),
{
    if evs.len() > 0 {
        let n = step_spec(s, evs[0]).0;
        lemma_halting_never_dispatches(n, evs.drop_first());
        assert forall|i: int| 0 <= i < evs.len() implies run_spec(s, evs)[i] != LoopAction::Dispatch by {
            lemma_run_index(s, evs, i);
        }
    }
}

/// After a Stop signal is taken from the mailbox, no further envelope is
/// dispatched to the actor's handlers, whatever comes after it.
pub proof fn lemma_no_dispatch_after_stop(s: LoopState, evs: Seq<LoopEvent>, k: int)
    requires
        0 <= k < evs.len(),
        evs[k] == LoopEvent::Stop,
    ensures
        forall|i: int| k < i < evs.len() ==> run_spec(s, evs)[i] != LoopAction::Dispatch,
    decreases k,
{
    let n = step_spec(s, evs[0]).0;
    if k == 0 {
        lemma_halting_never_dispatches(n, evs.drop_first());
    } else {
        lemma_no_dispatch_after_stop(n, evs.drop_first(), k - 1);
    }
    assert forall|i: int| k < i < evs.len() implies run_spec(s, evs)[i] != LoopAction::Dispatch by {
        lemma_run_index(s, evs, i);
    }
}

proof fn lemma_signal_before_dispatch(s: LoopState, evs: Seq<LoopEvent>)
    requires
        consistent(s),
        s.start_pending,
    ensures
        forall|i: int|
            0 <= i < evs.len() && run_spec(s, evs)[i] == LoopAction::Dispatch ==> exists|j: int|
                0 <= j < i && run_spec(s, evs)[j] == LoopAction::SignalStarted,
    decreases evs.len(),
{
    if evs.len() > 0 {
        let (n, a) = step_spec(s, evs[0]);
        let rest = evs.drop_first();
        lemma_run_index(s, evs, 0);
        if a == LoopAction::SignalStarted {
        } else if n.status == ActorStatus::Starting {
            lemma_signal_before_dispatch(n, rest);
            assert forall|i: int|
                0 <= i < evs.len() && run_spec(s, evs)[i] == LoopAction::Dispatch implies exists|j: int|
                0 <= j < i && run_spec(s, evs)[j] == LoopAction::SignalStarted by {
                lemma_run_index(s, evs, i);
                let j = choose|j: int| 0 <= j < i - 1 && run_spec(n, rest)[j] == LoopAction::SignalStarted;
                lemma_run_index(s, evs, j + 1);
            }
        } else {
            lemma_halting_never_dispatches(n, rest);
            assert forall|i: int| 0 <= i < evs.len() implies run_spec(s, evs)[i] != LoopAction::Dispatch by {
                lemma_run_index(s, evs, i);
            }
        }
    }
}

/// When a start signal is supplied, it is sent strictly before the first
/// envelope is dispatched.
pub proof fn lemma_start_signal_first(evs: Seq<LoopEvent>, i: int)
    requires
        0 <= i < evs.len(),
        run_spec(initial_spec(true), evs)[i] == LoopAction::Dispatch,
    ensures
        exists|j: int| 0 <= j < i && run_spec(initial_spec(true), evs)[j] == LoopAction::SignalStarted,
{
    lemma_signal_before_dispatch(initial_spec(true), evs);
}

proof fn lemma_in_flight_until_done(s: LoopState, evs: Seq<LoopEvent>)
    requires
        consistent(s),
        s.in_flight,
    ensures
        forall|i: int|
            0 <= i < evs.len() && run_spec(s, evs)[i] == LoopAction::Dispatch ==> exists|j: int|
                0 <= j < i && evs[j] == LoopEvent::HandlerDone,
    decreases evs.len(),
{
    if evs.len() > 0 {
        let (n, a) = step_spec(s, evs[0]);
        let rest = evs.drop_first();
        lemma_run_index(s, evs, 0);
        if evs[0] == LoopEvent::HandlerDone {
        } else if n.in_flight {
            lemma_step_consistent(s, evs[0]);
            lemma_in_flight_until_done(n, rest);
            assert forall|i: int|
                0 <= i < evs.len() && run_spec(s, evs)[i] == LoopAction::Dispatch implies exists|j: int|
                0 <= j < i && evs[j] == LoopEvent::HandlerDone by {
                lemma_run_index(s, evs, i);
                let j = choose|j: int| 0 <= j < i - 1 && rest[j] == LoopEvent::HandlerDone;
                assert(evs[j + 1] == rest[j]);
            }
        } else {
            lemma_halting_never_dispatches(n, rest);
            assert forall|i: int| 0 <= i < evs.len() implies run_spec(s, evs)[i] != LoopAction::Dispatch by {
                lemma_run_index(s, evs, i);
            }
        }
    }
}

/// Handler invocations never overlap: each dispatch follows an envelope taken
/// from the mailbox, and between two dispatches the first handler has finished.
pub proof fn lemma_handlers_exclusive(s: LoopState, evs: Seq<LoopEvent>, i: int, k: int)
    requires
        consistent(s),
        0 <= i < k < evs.len(),
        run_spec(s, evs)[i] == LoopAction::Dispatch,
        run_spec(s, evs)[k] == LoopAction::Dispatch,
    ensures
        evs[i] == LoopEvent::Envelope,
        evs[k] == LoopEvent::Envelope,
        exists|j: int| i < j < k && evs[j] == LoopEvent::HandlerDone,
    decreases i,
{
    let (n, a) = step_spec(s, evs[0]);
    let rest = evs.drop_first();
    lemma_run_index(s, evs, i);
    lemma_run_index(s, evs, k);
    lemma_step_consistent(s, evs[0]);
    if i == 0 {
        lemma_in_flight_until_done(n, rest);
        let j = choose|j: int| 0 <= j < k - 1 && rest[j] == LoopEvent::HandlerDone;
        assert(evs[j + 1] == rest[j]);
        lemma_dispatch_takes_envelope(n, rest, k - 1);
    } else {
        lemma_handlers_exclusive(n, rest, i - 1, k - 1);
        let j = choose|j: int| i - 1 < j < k - 1 && rest[j] == LoopEvent::HandlerDone;
        assert(evs[j + 1] == rest[j]);
    }
}

/// Envelopes are handled in the order the loop takes them from the mailbox: if
/// an envelope taken later is dispatched, every envelope taken before it was
/// dispatched too, and its handler finished before the later one began.
pub proof fn lemma_dispatch_in_receive_order(s: LoopState, evs: Seq<LoopEvent>, i: int, k: int)
    requires
        consistent(s),
        admissible(s, evs),
        0 <= i < k < evs.len(),
        evs[i] == LoopEvent::Envelope,
        run_spec(s, evs)[k] == LoopAction::Dispatch,
    ensures
        run_spec(s, evs)[i] == LoopAction::Dispatch,
        exists|j: int| i < j < k && evs[j] == LoopEvent::HandlerDone,
    decreases i,
{
    let (n, a) = step_spec(s, evs[0]);
    let rest = evs.drop_first();
    lemma_run_index(s, evs, i);
    lemma_run_index(s, evs, k);
    lemma_step_consistent(s, evs[0]);
    if i == 0 {
        if s.status == ActorStatus::Running {
            lemma_handlers_exclusive(s, evs, 0, k);
        } else {
            lemma_halting_never_dispatches(n, rest);
        }
    } else {
        lemma_dispatch_in_receive_order(n, rest, i - 1, k - 1);
        let j = choose|j: int| i - 1 < j < k - 1 && rest[j] == LoopEvent::HandlerDone;
        assert(evs[j + 1] == rest[j]);
    }
}

proof fn lemma_dispatch_takes_envelope(s: LoopState, evs: Seq<LoopEvent>, i: int)
    requires
        0 <= i < evs.len(),
        run_spec(s, evs)[i] == LoopAction::Dispatch,
    ensures
        evs[i] == LoopEvent::Envelope,
    decreases i,
{
    lemma_run_index(s, evs, i);
    if i > 0 {
        lemma_dispatch_takes_envelope(step_spec(s, evs[0]).0, evs.drop_first(), i - 1);
    }
}

impl LoopState {
    /// The state of a loop whose actor is about to start.
    pub fn new(has_start_signal: bool) -> (r: LoopState)
        ensures
            r == initial_spec(has_start_signal),
            consistent(r),
    {
        LoopState { status: ActorStatus::Starting, start_pending: has_start_signal, in_flight: false }
    }

    /// Whether the loop may observe `e` now.
    pub fn accepts(&self, e: LoopEvent) -> (r: bool)
        ensures
            r == expects(*self, e),
    {
        match e {
            LoopEvent::Envelope => self.status != ActorStatus::Starting && !self.in_flight,
            _ => true,
        }
    }

    /// Decides what the loop does on `e`, and moves to the next state.
    pub fn handle(&mut self, e: LoopEvent) -> (a: LoopAction)
        requires
            expects(*old(self), e),
        ensures
            (*final(self), a) == step_spec(*old(self), e),
    {
        let s = *self;
        let (n, a) = match s.status {
            ActorStatus::Starting => match e {
                LoopEvent::Started => (
                    LoopState { status: ActorStatus::Running, start_pending: false, in_flight: false },
                    if s.start_pending {
                        LoopAction::SignalStarted
                    } else {
                        LoopAction::Continue
                    },
                ),
                LoopEvent::Envelope => (s, LoopAction::Drop),
                LoopEvent::HandlerFault => (LoopState::stopped(), LoopAction::Exit),
                LoopEvent::Stop | LoopEvent::MailboxClosed => (
                    LoopState { status: ActorStatus::Stopping, start_pending: false, in_flight: false },
                    LoopAction::Shutdown,
                ),
                _ => (s, LoopAction::Continue),
            },
            ActorStatus::Running => match e {
                LoopEvent::Envelope => if s.in_flight {
                    (s, LoopAction::Drop)
                } else {
                    (LoopState { in_flight: true, ..s }, LoopAction::Dispatch)
                },
                LoopEvent::HandlerDone => (LoopState { in_flight: false, ..s }, LoopAction::Continue),
                LoopEvent::HandlerFault => if s.in_flight {
                    (LoopState::stopped(), LoopAction::Exit)
                } else {
                    (s, LoopAction::Continue)
                },
                LoopEvent::Stop | LoopEvent::MailboxClosed => if s.in_flight {
                    (LoopState { status: ActorStatus::Stopping, ..s }, LoopAction::Continue)
                } else {
                    (LoopState { status: ActorStatus::Stopping, ..s }, LoopAction::Shutdown)
                },
                _ => (s, LoopAction::Continue),
            },
            ActorStatus::Stopping => match e {
                LoopEvent::Envelope => (s, LoopAction::Drop),
                LoopEvent::HandlerDone => if s.in_flight {
                    (LoopState { in_flight: false, ..s }, LoopAction::Shutdown)
                } else {
                    (s, LoopAction::Continue)
                },
                LoopEvent::HandlerFault => if s.in_flight {
                    (LoopState::stopped(), LoopAction::Exit)
                } else {
                    (s, LoopAction::Continue)
                },
                LoopEvent::ShutdownDone => if s.in_flight {
                    (s, LoopAction::Continue)
                } else {
                    (LoopState::stopped(), LoopAction::Exit)
                },
                _ => (s, LoopAction::Continue),
            },
            ActorStatus::Stopped => match e {
                LoopEvent::Envelope => (s, LoopAction::Drop),
                _ => (s, LoopAction::Continue),
            },
        };
        *self = n;
        a
    }

    fn stopped() -> (r: LoopState)
        ensures
            r == stopped(),
    {
        LoopState { status: ActorStatus::Stopped, start_pending: false, in_flight: false }
    }

    pub fn status(&self) -> (r: ActorStatus)
        ensures
            r == self.status,
    {
        self.status
    }

    /// Whether the task has ended.
    pub fn is_stopped(&self) -> (r: bool)
        ensures
            r == (self.status == ActorStatus::Stopped),
    {
        self.status == ActorStatus::Stopped
    }
}

} // verus!
