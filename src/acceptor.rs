//! The server role's accept loop: one new session per accepted connection, and
//! session failures reported without touching the loop.
use vstd::prelude::*;
use crate::session::Failure;

verus! {

/// What happened at the listener, or to one of the sessions it started.
#[derive(Clone, Copy, Debug, PartialEq, Eq)]
pub enum AcceptorEvent {
    /// An inbound connection was accepted.
    Accepted,
    /// One inbound connection could not be accepted; the listener is still usable.
    AttemptFailed,
    /// The listener itself became unusable.
    ListenerFailed,
    /// One session ended, with this result.
    SessionEnded(Result<(), Failure>),
}

/// What the server is to do in answer to an acceptor event.
#[derive(Clone, Copy, Debug, PartialEq, Eq)]
pub enum AcceptorAction {
    /// Start an independent session on the accepted connection, then accept again.
    StartSession,
    /// Report this session failure as a warning; nothing else changes.
    ReportFailure(Failure),
    /// Nothing to do.
    Idle,
    /// Stop accepting; the server ends with the listener's error.
    Stop,
}

#[derive(Clone, Copy, Debug, PartialEq, Eq)]
pub enum AcceptorState {
    Listening,
    Stopped,
}

pub open spec fn acceptor_next(s: AcceptorState, e: AcceptorEvent) -> AcceptorState {
    match e {
        AcceptorEvent::ListenerFailed => AcceptorState::Stopped,
        _ => s,
    }
}

pub open spec fn acceptor_reaction(s: AcceptorState, e: AcceptorEvent) -> AcceptorAction {
    match e {
        AcceptorEvent::Accepted => if s == AcceptorState::Listening {
            AcceptorAction::StartSession
        } else {
            AcceptorAction::Idle
        },
        AcceptorEvent::AttemptFailed => AcceptorAction::Idle,
        AcceptorEvent::ListenerFailed => if s == AcceptorState::Listening {
            AcceptorAction::Stop
        } else {
            AcceptorAction::Idle
        },
        AcceptorEvent::SessionEnded(Err(f)) => AcceptorAction::ReportFailure(f),
        AcceptorEvent::SessionEnded(Ok(())) => AcceptorAction::Idle,
    }
}

/// The final state, and the action owed for each event, when `events` are
/// taken in one after another starting in state `s`.
pub open spec fn run_acceptor(s: AcceptorState, events: Seq<AcceptorEvent>) -> (
    AcceptorState,
    Seq<AcceptorAction>,
)
    decreases events.len(),
{
    if events.len() == 0 {
        (s, Seq::empty())
    } else {
        let prev = run_acceptor(s, events.drop_last());
        (
            acceptor_next(prev.0, events.last()),
            prev.1.push(acceptor_reaction(prev.0, events.last())),
        )
    }
}

/// The decisions of the server role's accept loop.
pub struct Acceptor {
    state: AcceptorState,
}

impl View for Acceptor {
    type V = AcceptorState;

    closed spec fn view(&self) -> AcceptorState {
        self.state
    }
}

impl Acceptor {
    /// An acceptor whose listener has just been bound.
    pub fn new() -> (r: Acceptor)
        ensures
            r@ == AcceptorState::Listening,
    {
        Acceptor { state: AcceptorState::Listening }
    }

    /// Whether further connections are to be accepted.
    pub fn is_listening(&self) -> (r: bool)
        ensures
            r == (self@ == AcceptorState::Listening),
    {
        match self.state {
            AcceptorState::Listening => true,
            AcceptorState::Stopped => false,
        }
    }

    /// Takes in one event and returns what the server is to do.
    pub fn step(&mut self, event: AcceptorEvent) -> (action: AcceptorAction)
        ensures
            final(self)@ == acceptor_next(old(self)@, event),
            action == acceptor_reaction(old(self)@, event),
    {
        let listening = self.is_listening();
        match event {
            AcceptorEvent::Accepted => if listening {
                AcceptorAction::StartSession
            } else {
                AcceptorAction::Idle
            },
            AcceptorEvent::AttemptFailed => AcceptorAction::Idle,
            AcceptorEvent::ListenerFailed => {
                self.state = AcceptorState::Stopped;
                if listening {
                    AcceptorAction::Stop
                } else {
                    AcceptorAction::Idle
                }
            },
            AcceptorEvent::SessionEnded(Err(f)) => AcceptorAction::ReportFailure(f),
            AcceptorEvent::SessionEnded(Ok(())) => AcceptorAction::Idle,
        }
    }
}

/// Neither the end of a session, failed or not, nor a failed attempt to accept
/// one connection stops the acceptor: it keeps listening until the listener
/// itself fails, starts a session for every connection accepted until then,
/// and reports every session failure.
pub proof fn lemma_session_failures_stay_isolated(events: Seq<AcceptorEvent>)
    ensures
        (run_acceptor(AcceptorState::Listening, events).0 == AcceptorState::Listening) <==> (
        forall|i: int| 0 <= i < events.len() ==> #[trigger] events[i] != AcceptorEvent::ListenerFailed),
        run_acceptor(AcceptorState::Listening, events).1.len() == events.len(),
        forall|i: int|
            0 <= i < events.len() && #[trigger] events[i] == AcceptorEvent::AttemptFailed
                ==> run_acceptor(AcceptorState::Listening, events).1[i] == AcceptorAction::Idle,
        forall|i: int|
            0 <= i < events.len() ==> (#[trigger] events[i] matches AcceptorEvent::SessionEnded(
                Err(f),
            ) ==> run_acceptor(AcceptorState::Listening, events).1[i]
                == AcceptorAction::ReportFailure(f)),
        forall|i: int|
            0 <= i < events.len() && #[trigger] events[i] == AcceptorEvent::Accepted && (forall|
                j: int,
            |
                0 <= j < i ==> events[j] != AcceptorEvent::ListenerFailed) ==> run_acceptor(
                AcceptorState::Listening,
                events,
            ).1[i] == AcceptorAction::StartSession,
    decreases events.len(),
{
    if events.len() > 0 {
        let e = events.drop_last();
        lemma_session_failures_stay_isolated(e);
        let n = events.len() - 1;
        assert forall|i: int| 0 <= i < n implies events[i] == e[i] by {}
        let prev = run_acceptor(AcceptorState::Listening, e);
        if prev.0 == AcceptorState::Listening {
            assert(forall|i: int| 0 <= i < n ==> e[i] != AcceptorEvent::ListenerFailed);
        } else {
            let k = choose|k: int| 0 <= k < e.len() && e[k] == AcceptorEvent::ListenerFailed;
            assert(events[k] == AcceptorEvent::ListenerFailed);
        }
    }
}

} // verus!
