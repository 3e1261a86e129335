//! What a whole session does over a sequence of events, and the laws it obeys.
use vstd::prelude::*;
use crate::frame::FrameModel;
use crate::session::{
    Failure,
    ActionModel, EventModel, SessionState, end_result, ends_session, next_state, reaction, session_run,
};

verus! {

/// The bytes that `acts` write to the byte-stream side, concatenated.
pub open spec fn stream_bytes(acts: Seq<ActionModel>) -> Seq<u8>
    decreases acts.len(),
{
    if acts.len() == 0 {
        Seq::empty()
    } else {
        stream_bytes(acts.drop_last()) + match acts.last() {
            ActionModel::WriteToStream(b) => b,
            _ => Seq::empty(),
        }
    }
}

/// The bytes that `acts` send as binary messages on the WebSocket side, concatenated.
pub open spec fn socket_bytes(acts: Seq<ActionModel>) -> Seq<u8>
    decreases acts.len(),
{
    if acts.len() == 0 {
        Seq::empty()
    } else {
        socket_bytes(acts.drop_last()) + match acts.last() {
            ActionModel::SendBinary(b) => b,
            _ => Seq::empty(),
        }
    }
}

/// How many of `acts` end the session.
pub open spec fn finish_count(acts: Seq<ActionModel>) -> nat
    decreases acts.len(),
{
    if acts.len() == 0 {
        0
    } else {
        finish_count(acts.drop_last()) + if acts.last() is Finish {
            1nat
        } else {
            0nat
        }
    }
}

/// The payloads of the binary messages among `events`, concatenated.
pub open spec fn binary_payloads(events: Seq<EventModel>) -> Seq<u8>
    decreases events.len(),
{
    if events.len() == 0 {
        Seq::empty()
    } else {
        binary_payloads(events.drop_last()) + match events.last() {
            EventModel::Received(FrameModel::Binary(b)) => b,
            _ => Seq::empty(),
        }
    }
}

/// The bytes that the reads among `events` returned, concatenated.
pub open spec fn read_payloads(events: Seq<EventModel>) -> Seq<u8>
    decreases events.len(),
{
    if events.len() == 0 {
        Seq::empty()
    } else {
        read_payloads(events.drop_last()) + match events.last() {
            EventModel::ReadBytes(b) => b,
            _ => Seq::empty(),
        }
    }
}

/// None of `events` would end an active session.
pub open spec fn all_live(events: Seq<EventModel>) -> bool {
    forall|i: int| 0 <= i < events.len() ==> !ends_session(#[trigger] events[i])
}

/// Dropping the last event of a live sequence leaves it live.
proof fn lemma_all_live_drop_last(events: Seq<EventModel>)
    requires
        all_live(events),
        events.len() > 0,
    ensures
        all_live(events.drop_last()),
{
    let e = events.drop_last();
    assert forall|i: int| 0 <= i < e.len() implies !ends_session(#[trigger] e[i]) by {
        assert(e[i] == events[i]);
    }
}

proof fn lemma_run_one(s: SessionState, e: EventModel)
    ensures
        session_run(s, seq![e]) == (next_state(s, e), seq![reaction(s, e)]),
{
    let z = Seq::<EventModel>::empty();
    assert(seq![e].drop_last() =~= z);
    assert(seq![e].last() == e);
    assert(session_run(s, z) == (s, Seq::<ActionModel>::empty()));
    assert(Seq::<ActionModel>::empty().push(reaction(s, e)) =~= seq![reaction(s, e)]);
}

proof fn lemma_run_append(s: SessionState, a: Seq<EventModel>, b: Seq<EventModel>)
    ensures
        session_run(s, a + b) == (session_run(session_run(s, a).0, b).0, session_run(s, a).1 + session_run(session_run(s, a).0, b).1),
    decreases b.len(),
{
    if b.len() == 0 {
        assert(a + b =~= a);
        assert(session_run(s, a).1 + Seq::<ActionModel>::empty() =~= session_run(s, a).1);
    } else {
        lemma_run_append(s, a, b.drop_last());
        assert((a + b).drop_last() =~= a + b.drop_last());
        assert((a + b).last() == b.last());
        let mid = session_run(s, a).0;
        let tail = session_run(mid, b.drop_last());
        assert(session_run(s, a).1 + tail.1.push(reaction(tail.0, b.last())) =~= (session_run(s, a).1
            + tail.1).push(reaction(tail.0, b.last())));
    }
}

proof fn lemma_measures_append(a: Seq<ActionModel>, b: Seq<ActionModel>)
    ensures
        stream_bytes(a + b) == stream_bytes(a) + stream_bytes(b),
        socket_bytes(a + b) == socket_bytes(a) + socket_bytes(b),
        finish_count(a + b) == finish_count(a) + finish_count(b),
    decreases b.len(),
{
    if b.len() == 0 {
        assert(a + b =~= a);
        assert(stream_bytes(a) + Seq::<u8>::empty() =~= stream_bytes(a));
        assert(socket_bytes(a) + Seq::<u8>::empty() =~= socket_bytes(a));
    } else {
        lemma_measures_append(a, b.drop_last());
        assert((a + b).drop_last() =~= a + b.drop_last());
        assert((a + b).last() == b.last());
        assert(stream_bytes(a + b) =~= stream_bytes(a) + stream_bytes(b));
        assert(socket_bytes(a + b) =~= socket_bytes(a) + socket_bytes(b));
    }
}

/// A closed session stays closed with the same result, and answers every
/// further event with no I/O at all.
pub proof fn lemma_closed_session_is_inert(r: Result<(), Failure>, events: Seq<EventModel>)
    ensures
        session_run(SessionState::Closed(r), events).0 == SessionState::Closed(r),
        session_run(SessionState::Closed(r), events).1 == Seq::new(
            events.len(),
            |i: int| ActionModel::Idle,
        ),
        stream_bytes(session_run(SessionState::Closed(r), events).1) == Seq::<u8>::empty(),
        socket_bytes(session_run(SessionState::Closed(r), events).1) == Seq::<u8>::empty(),
        finish_count(session_run(SessionState::Closed(r), events).1) == 0,
    decreases events.len(),
{
    let s = SessionState::Closed(r);
    if events.len() > 0 {
        lemma_closed_session_is_inert(r, events.drop_last());
        let prev = session_run(s, events.drop_last());
        assert(prev.1.push(ActionModel::Idle) =~= Seq::new(
            events.len(),
            |i: int| ActionModel::Idle,
        ));
        assert(session_run(s, events).1.drop_last() =~= prev.1);
        assert(stream_bytes(session_run(s, events).1) =~= Seq::<u8>::empty());
        assert(socket_bytes(session_run(s, events).1) =~= Seq::<u8>::empty());
    }
}

/// While no event ends it, a session stays active and answers each event on its
/// own, whatever came before on either side: no direction waits for the other.
pub proof fn lemma_live_events_answered_independently(events: Seq<EventModel>)
    requires
        all_live(events),
    ensures
        session_run(SessionState::Active, events).0 == SessionState::Active,
        session_run(SessionState::Active, events).1.len() == events.len(),
        forall|i: int|
            0 <= i < events.len() ==> #[trigger] session_run(SessionState::Active, events).1[i]
                == reaction(SessionState::Active, events[i]),
    decreases events.len(),
{
    if events.len() > 0 {
        let e = events.drop_last();
        lemma_all_live_drop_last(events);
        lemma_live_events_answered_independently(e);
        assert(!ends_session(events[events.len() - 1]));
        let acts = session_run(SessionState::Active, events).1;
        assert forall|i: int| 0 <= i < events.len() implies #[trigger] acts[i] == reaction(
            SessionState::Active,
            events[i],
        ) by {
            if i < e.len() {
                assert(events[i] == e[i]);
            }
        }
    }
}

/// While no event ends the session, the bytes written to the byte-stream side are
/// exactly the binary payloads received, in order, and the bytes sent as binary
/// messages are exactly the bytes read, in order; the session does not end.
pub proof fn lemma_open_session_preserves_bytes(events: Seq<EventModel>)
    requires
        all_live(events),
    ensures
        session_run(SessionState::Active, events).0 == SessionState::Active,
        stream_bytes(session_run(SessionState::Active, events).1) == binary_payloads(events),
        socket_bytes(session_run(SessionState::Active, events).1) == read_payloads(events),
        finish_count(session_run(SessionState::Active, events).1) == 0,
    decreases events.len(),
{
    if events.len() > 0 {
        let e = events.drop_last();
        lemma_all_live_drop_last(events);
        lemma_open_session_preserves_bytes(e);
        assert(!ends_session(events[events.len() - 1]));
        let acts = session_run(SessionState::Active, events).1;
        assert(acts.drop_last() =~= session_run(SessionState::Active, e).1);
        assert(stream_bytes(acts) =~= binary_payloads(events));
        assert(socket_bytes(acts) =~= read_payloads(events));
    }
}

/// A session that meets its first ending event after `live` ends there, with the
/// result that event calls for: it finishes exactly once, answers every later
/// event with no I/O, and has passed on exactly the bytes that came before the end.
pub proof fn lemma_session_ends_once(
    live: Seq<EventModel>,
    end: EventModel,
    rest: Seq<EventModel>,
)
    requires
        all_live(live),
        ends_session(end),
    ensures
        ({
            let events = live + seq![end] + rest;
            let r = session_run(SessionState::Active, events);
            &&& r.0 == SessionState::Closed(end_result(end))
            &&& r.1.len() == events.len()
            &&& r.1[live.len() as int] == ActionModel::Finish(end_result(end))
            &&& forall|i: int| live.len() < i < events.len() ==> #[trigger] r.1[i] == ActionModel::Idle
            &&& finish_count(r.1) == 1
            &&& stream_bytes(r.1) == binary_payloads(live)
            &&& socket_bytes(r.1) == read_payloads(live)
        }),
{
    let head = live + seq![end];
    let events = head + rest;
    let closed = SessionState::Closed(end_result(end));
    lemma_run_append(SessionState::Active, live, seq![end]);
    lemma_run_append(SessionState::Active, head, rest);
    lemma_live_events_answered_independently(live);
    lemma_open_session_preserves_bytes(live);
    lemma_run_one(SessionState::Active, end);
    lemma_closed_session_is_inert(end_result(end), rest);
    let live_acts = session_run(SessionState::Active, live).1;
    let head_acts = session_run(SessionState::Active, head).1;
    let rest_acts = session_run(closed, rest).1;
    lemma_measures_append(live_acts, seq![ActionModel::Finish(end_result(end))]);
    lemma_measures_append(head_acts, rest_acts);
    lemma_run_one_measures(ActionModel::Finish(end_result(end)));
    assert(stream_bytes(live_acts) + Seq::<u8>::empty() =~= stream_bytes(live_acts));
    assert(socket_bytes(live_acts) + Seq::<u8>::empty() =~= socket_bytes(live_acts));
    let r = session_run(SessionState::Active, events);
    assert forall|i: int| live.len() < i < events.len() implies #[trigger] r.1[i]
        == ActionModel::Idle by {
        assert(r.1[i] == rest_acts[i - head.len()]);
    }
}

proof fn lemma_run_one_measures(a: ActionModel)
    requires
        a is Finish,
    ensures
        stream_bytes(seq![a]) == Seq::<u8>::empty(),
        socket_bytes(seq![a]) == Seq::<u8>::empty(),
        finish_count(seq![a]) == 1,
{
    let z = Seq::<ActionModel>::empty();
    assert(seq![a].drop_last() =~= z);
    assert(seq![a].last() == a);
    assert(finish_count(z) == 0);
    assert(stream_bytes(z) + Seq::<u8>::empty() =~= Seq::<u8>::empty());
    assert(socket_bytes(z) + Seq::<u8>::empty() =~= Seq::<u8>::empty());
}

/// A ping that reaches an active session is answered at once, by a pong with the
/// same payload, before any later event is handled; its payload never reaches
/// the byte-stream side, which by then has had exactly the binary payloads
/// received before the ping.
pub proof fn lemma_ping_answered_with_same_payload(events: Seq<EventModel>, i: int, p: Seq<u8>)
    requires
        0 <= i < events.len(),
        events[i] == EventModel::Received(FrameModel::Ping(p)),
        forall|j: int| 0 <= j < i ==> !ends_session(#[trigger] events[j]),
    ensures
        session_run(SessionState::Active, events).1[i] == ActionModel::SendPong(p),
        stream_bytes(session_run(SessionState::Active, events.take(i + 1)).1) == binary_payloads(
            events.take(i),
        ),
{
    let head = events.take(i + 1);
    assert forall|j: int| 0 <= j < head.len() implies !ends_session(#[trigger] head[j]) by {
        assert(head[j] == events[j]);
    }
    lemma_live_events_answered_independently(head);
    lemma_open_session_preserves_bytes(head);
    lemma_run_append(SessionState::Active, head, events.skip(i + 1));
    assert(head + events.skip(i + 1) =~= events);
    assert(head.drop_last() =~= events.take(i));
    assert(head.last() == events[i]);
    assert(binary_payloads(head) =~= binary_payloads(events.take(i)));
}

/// Data arriving only on the byte-stream side is forwarded chunk by chunk, each
/// read as one binary message, with nothing needed from the WebSocket side.
pub proof fn lemma_stream_side_alone_is_forwarded(events: Seq<EventModel>)
    requires
        forall|i: int|
            0 <= i < events.len() ==> (#[trigger] events[i] matches EventModel::ReadBytes(b)
                && b.len() > 0),
    ensures
        session_run(SessionState::Active, events).0 == SessionState::Active,
        forall|i: int|
            0 <= i < events.len() ==> (#[trigger] events[i] matches EventModel::ReadBytes(b)
                && session_run(SessionState::Active, events).1[i] == ActionModel::SendBinary(b)),
{
    assert forall|i: int| 0 <= i < events.len() implies !ends_session(#[trigger] events[i]) by {}
    lemma_live_events_answered_independently(events);
}

/// Binary messages arriving only on the WebSocket side are written to the
/// byte-stream side one by one, with nothing needed from the byte-stream side.
pub proof fn lemma_socket_side_alone_is_forwarded(events: Seq<EventModel>)
    requires
        forall|i: int|
            0 <= i < events.len() ==> (#[trigger] events[i] matches EventModel::Received(
                FrameModel::Binary(_),
            )),
    ensures
        session_run(SessionState::Active, events).0 == SessionState::Active,
        forall|i: int|
            0 <= i < events.len() ==> (#[trigger] events[i] matches EventModel::Received(
                FrameModel::Binary(b),
            ) && session_run(SessionState::Active, events).1[i] == ActionModel::WriteToStream(b)),
{
    assert forall|i: int| 0 <= i < events.len() implies !ends_session(#[trigger] events[i]) by {}
    lemma_live_events_answered_independently(events);
}

} // verus!
