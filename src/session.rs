//! One forwarding session: a two-state machine from events on either endpoint
//! to the I/O that answers them.
use vstd::prelude::*;
use crate::frame::{Frame, FrameModel};

verus! {

/// The operation whose failure ended a session.
#[derive(Clone, Copy, Debug, PartialEq, Eq)]
pub enum Failure {
    /// The WebSocket upgrade of an accepted connection failed.
    Handshake,
    /// The outbound byte-stream connection could not be opened.
    Connect,
    /// Disabling send delay on the outbound socket failed.
    SocketOption,
    /// Receiving the next WebSocket message failed.
    Receive,
    /// Sending a WebSocket message failed.
    Send,
    /// Reading from the byte-stream endpoint failed.
    Read,
    /// Writing to the byte-stream endpoint failed.
    Write,
}

/// What happened on one of the two endpoints.
#[derive(Clone, Debug, PartialEq, Eq)]
pub enum Event {
    /// The WebSocket side delivered a message.
    Received(Frame),
    /// The WebSocket side's stream of messages ended without a close message.
    ReceiveEnded,
    /// A read of the byte-stream side returned these bytes; none means end of stream.
    ReadBytes(Vec<u8>),
    /// An operation on either side failed.
    Failed(Failure),
}

pub enum EventModel {
    Received(FrameModel),
    ReceiveEnded,
    ReadBytes(Seq<u8>),
    Failed(Failure),
}

impl View for Event {
    type V = EventModel;

    open spec fn view(&self) -> EventModel {
        match self {
            Event::Received(f) => EventModel::Received(f@),
            Event::ReceiveEnded => EventModel::ReceiveEnded,
            Event::ReadBytes(b) => EventModel::ReadBytes(b@),
            Event::Failed(f) => EventModel::Failed(*f),
        }
    }
}

/// What the caller is to do in answer to an event.
#[derive(Debug, PartialEq, Eq)]
pub enum Action {
    /// Write all of these bytes to the byte-stream side, then wait again.
    WriteToStream(Vec<u8>),
    /// Send these bytes as one binary message on the WebSocket side, then wait again.
    SendBinary(Vec<u8>),
    /// Send a pong message with this payload on the WebSocket side, then wait again.
    SendPong(Vec<u8>),
    /// No I/O is owed.
    Idle,
    /// The session is over, with this result; no further I/O is owed.
    Finish(Result<(), Failure>),
}

pub enum ActionModel {
    WriteToStream(Seq<u8>),
    SendBinary(Seq<u8>),
    SendPong(Seq<u8>),
    Idle,
    Finish(Result<(), Failure>),
}

impl View for Action {
    type V = ActionModel;

    open spec fn view(&self) -> ActionModel {
        match self {
            Action::WriteToStream(b) => ActionModel::WriteToStream(b@),
            Action::SendBinary(b) => ActionModel::SendBinary(b@),
            Action::SendPong(p) => ActionModel::SendPong(p@),
            Action::Idle => ActionModel::Idle,
            Action::Finish(r) => ActionModel::Finish(*r),
        }
    }
}

/// The two states of a session.
#[derive(Clone, Copy, Debug, PartialEq, Eq)]
pub enum SessionState {
    /// Both endpoints are open and watched.
    Active,
    /// Terminal: the session ended with this result.
    Closed(Result<(), Failure>),
}

/// Whether an event arriving in the active state ends the session.
pub open spec fn ends_session(e: EventModel) -> bool {
    match e {
        EventModel::Received(FrameModel::Close) => true,
        EventModel::Received(_) => false,
        EventModel::ReceiveEnded => true,
        EventModel::ReadBytes(b) => b.len() == 0,
        EventModel::Failed(_) => true,
    }
}

/// The result a session ends with when `e` ends it.
pub open spec fn end_result(e: EventModel) -> Result<(), Failure> {
    match e {
        EventModel::Failed(f) => Err(f),
        _ => Ok(()),
    }
}

/// The state after event `e` in state `s`.
pub open spec fn next_state(s: SessionState, e: EventModel) -> SessionState {
    match s {
        SessionState::Closed(r) => SessionState::Closed(r),
        SessionState::Active => if ends_session(e) {
            SessionState::Closed(end_result(e))
        } else {
            SessionState::Active
        },
    }
}

/// The action owed for event `e` in state `s`.
pub open spec fn reaction(s: SessionState, e: EventModel) -> ActionModel {
    match s {
        SessionState::Closed(_) => ActionModel::Idle,
        SessionState::Active => if ends_session(e) {
            ActionModel::Finish(end_result(e))
        } else {
            match e {
                EventModel::Received(FrameModel::Binary(b)) => ActionModel::WriteToStream(b),
                EventModel::Received(FrameModel::Ping(p)) => ActionModel::SendPong(p),
                EventModel::ReadBytes(b) => ActionModel::SendBinary(b),
                _ => ActionModel::Idle,
            }
        },
    }
}

/// The events' mathematical values, in order.
pub open spec fn event_models(events: Seq<Event>) -> Seq<EventModel> {
    events.map_values(|e: Event| e@)
}

/// The actions' mathematical values, in order.
pub open spec fn action_models(actions: Seq<Action>) -> Seq<ActionModel> {
    actions.map_values(|a: Action| a@)
}

/// The final state, and the action owed for each event, when `events` are
/// taken in one after another starting in state `s`.
pub open spec fn session_run(s: SessionState, events: Seq<EventModel>) -> (SessionState, Seq<ActionModel>)
    decreases events.len(),
{
    if events.len() == 0 {
        (s, Seq::empty())
    } else {
        let prev = session_run(s, events.drop_last());
        (next_state(prev.0, events.last()), prev.1.push(reaction(prev.0, events.last())))
    }
}

/// A forwarding session between one WebSocket endpoint and one byte-stream endpoint.
pub struct Session {
    state: SessionState,
}

impl View for Session {
    type V = SessionState;

    closed spec fn view(&self) -> SessionState {
        self.state
    }
}

impl Session {
    /// A session whose two endpoints have just been established.
    pub fn new() -> (r: Session)
        ensures
            r@ == SessionState::Active,
    {
        Session { state: SessionState::Active }
    }

    pub fn state(&self) -> (r: SessionState)
        ensures
            r == self@,
    {
        self.state
    }

    /// Whether both endpoints are still to be watched.
    pub fn is_active(&self) -> (r: bool)
        ensures
            r == (self@ == SessionState::Active),
    {
        match self.state {
            SessionState::Active => true,
            SessionState::Closed(_) => false,
        }
    }

    /// The result the session ended with, once it has ended.
    pub fn outcome(&self) -> (r: Option<Result<(), Failure>>)
        ensures
            self@ == SessionState::Active ==> r.is_none(),
            forall|res: Result<(), Failure>| self@ == SessionState::Closed(res) ==> r == Some(res),
    {
        match self.state {
            SessionState::Active => None,
            SessionState::Closed(res) => Some(res),
        }
    }

    /// Takes in one event and returns the I/O it calls for.
    pub fn step(&mut self, event: Event) -> (action: Action)
        ensures
            final(self)@ == next_state(old(self)@, event@),
            action@ == reaction(old(self)@, event@),
    {
        match self.state {
            SessionState::Closed(_) => Action::Idle,
            SessionState::Active => match event {
                Event::Received(frame) => match frame {
                    Frame::Binary(b) => Action::WriteToStream(b),
                    Frame::Ping(p) => Action::SendPong(p),
                    Frame::Close => {
                        self.state = SessionState::Closed(Ok(()));
                        Action::Finish(Ok(()))
                    },
                    Frame::Pong(_) => Action::Idle,
                    Frame::Text(_) => Action::Idle,
                    Frame::Other => Action::Idle,
                },
                Event::ReceiveEnded => {
                    self.state = SessionState::Closed(Ok(()));
                    Action::Finish(Ok(()))
                },
                Event::ReadBytes(b) => {
                    if b.len() == 0 {
                        self.state = SessionState::Closed(Ok(()));
                        Action::Finish(Ok(()))
                    } else {
                        Action::SendBinary(b)
                    }
                },
                Event::Failed(f) => {
                    self.state = SessionState::Closed(Err(f));
                    Action::Finish(Err(f))
                },
            },
        }
    }

    /// Takes in the events one after another and returns the actions owed, in order.
    pub fn feed_all(&mut self, events: Vec<Event>) -> (actions: Vec<Action>)
        ensures
            session_run(old(self)@, event_models(events@)) == (final(self)@, action_models(actions@)),
    {
        let ghost start = self@;
        let ghost all = events@;
        let mut actions: Vec<Action> = Vec::new();
        for e in it: events.into_iter()
            invariant
                it.seq() == all,
                session_run(start, event_models(all.take(it.index() as int))) == (
                self@,
                action_models(actions@),
                ),
        {
            let ghost before = self@;
            let ghost i = it.index() as int;
            let a = self.step(e);
            actions.push(a);
            proof {
                let done = event_models(all.take(i + 1));
                assert(done.drop_last() =~= event_models(all.take(i)));
                assert(action_models(actions@) =~= action_models(actions@.drop_last()).push(a@));
            }
        }
        proof {
            assert(all.take(all.len() as int) =~= all);
        }
        actions
    }
}

} // verus!
