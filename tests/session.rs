use ws_bridge::frame::{chunk_of, read_buffer, Frame, READ_BUFFER_SIZE};
use ws_bridge::session::{Action, Event, Failure, Session, SessionState};

fn bytes(s: &str) -> Vec<u8> {
    s.as_bytes().to_vec()
}

#[test]
fn binary_message_is_written_to_stream() {
    let mut s = Session::new();
    assert_eq!(
        s.step(Event::Received(Frame::Binary(bytes("hello")))),
        Action::WriteToStream(bytes("hello"))
    );
    assert!(s.is_active());
}

#[test]
fn empty_binary_message_writes_nothing_and_continues() {
    let mut s = Session::new();
    assert_eq!(
        s.step(Event::Received(Frame::Binary(Vec::new()))),
        Action::WriteToStream(Vec::new())
    );
    assert!(s.is_active());
}

#[test]
fn stream_read_is_sent_as_one_binary_message() {
    let mut s = Session::new();
    assert_eq!(
        s.step(Event::ReadBytes(bytes("abc"))),
        Action::SendBinary(bytes("abc"))
    );
    assert!(s.is_active());
}

#[test]
fn ping_is_answered_with_same_payload() {
    let mut s = Session::new();
    assert_eq!(
        s.step(Event::Received(Frame::Ping(vec![1, 2, 3]))),
        Action::SendPong(vec![1, 2, 3])
    );
    assert!(s.is_active());
}

#[test]
fn other_message_kinds_are_discarded() {
    let mut s = Session::new();
    assert_eq!(s.step(Event::Received(Frame::Pong(vec![9]))), Action::Idle);
    assert_eq!(
        s.step(Event::Received(Frame::Text(String::from("hi")))),
        Action::Idle
    );
    assert_eq!(s.step(Event::Received(Frame::Other)), Action::Idle);
    assert!(s.is_active());
    assert_eq!(s.outcome(), None);
}

#[test]
fn close_message_ends_session_normally() {
    let mut s = Session::new();
    assert_eq!(s.step(Event::Received(Frame::Close)), Action::Finish(Ok(())));
    assert!(!s.is_active());
    assert_eq!(s.state(), SessionState::Closed(Ok(())));
    assert_eq!(s.outcome(), Some(Ok(())));
}

#[test]
fn end_of_message_stream_ends_session_normally() {
    let mut s = Session::new();
    assert_eq!(s.step(Event::ReceiveEnded), Action::Finish(Ok(())));
    assert_eq!(s.outcome(), Some(Ok(())));
}

#[test]
fn zero_byte_read_ends_session_normally() {
    let mut s = Session::new();
    assert_eq!(s.step(Event::ReadBytes(Vec::new())), Action::Finish(Ok(())));
    assert_eq!(s.outcome(), Some(Ok(())));
}

#[test]
fn each_failure_ends_session_with_it() {
    let all = [
        Failure::Handshake,
        Failure::Connect,
        Failure::SocketOption,
        Failure::Receive,
        Failure::Send,
        Failure::Read,
        Failure::Write,
    ];
    for f in all {
        let mut s = Session::new();
        assert_eq!(s.step(Event::Failed(f)), Action::Finish(Err(f)));
        assert_eq!(s.state(), SessionState::Closed(Err(f)));
        assert_eq!(s.outcome(), Some(Err(f)));
    }
}

#[test]
fn closed_session_issues_no_further_io() {
    let mut s = Session::new();
    assert_eq!(s.step(Event::Failed(Failure::Write)), Action::Finish(Err(Failure::Write)));
    assert_eq!(s.step(Event::Received(Frame::Binary(bytes("x")))), Action::Idle);
    assert_eq!(s.step(Event::Received(Frame::Ping(bytes("p")))), Action::Idle);
    assert_eq!(s.step(Event::ReadBytes(bytes("y"))), Action::Idle);
    assert_eq!(s.step(Event::Received(Frame::Close)), Action::Idle);
    assert_eq!(s.step(Event::Failed(Failure::Read)), Action::Idle);
    assert_eq!(s.outcome(), Some(Err(Failure::Write)));
}

#[test]
fn result_is_reported_exactly_once() {
    let mut s = Session::new();
    let actions = s.feed_all(vec![
        Event::ReadBytes(bytes("a")),
        Event::ReceiveEnded,
        Event::ReceiveEnded,
        Event::Failed(Failure::Send),
        Event::ReadBytes(Vec::new()),
    ]);
    let finishes = actions
        .iter()
        .filter(|a| matches!(a, Action::Finish(_)))
        .count();
    assert_eq!(finishes, 1);
    assert_eq!(actions[1], Action::Finish(Ok(())));
    assert_eq!(s.outcome(), Some(Ok(())));
}

#[test]
fn bytes_pass_through_unchanged_in_both_directions() {
    let mut s = Session::new();
    let actions = s.feed_all(vec![
        Event::Received(Frame::Binary(bytes("he"))),
        Event::ReadBytes(bytes("wor")),
        Event::Received(Frame::Ping(bytes("zz"))),
        Event::Received(Frame::Binary(bytes("llo"))),
        Event::Received(Frame::Text(String::from("skip"))),
        Event::ReadBytes(bytes("ld")),
        Event::Received(Frame::Binary(Vec::new())),
        Event::Received(Frame::Close),
        Event::Received(Frame::Binary(bytes("late"))),
        Event::ReadBytes(bytes("late")),
    ]);
    let mut to_stream = Vec::new();
    let mut to_socket = Vec::new();
    for a in &actions {
        match a {
            Action::WriteToStream(b) => to_stream.extend_from_slice(b),
            Action::SendBinary(b) => to_socket.extend_from_slice(b),
            _ => {}
        }
    }
    assert_eq!(to_stream, bytes("hello"));
    assert_eq!(to_socket, bytes("world"));
    assert_eq!(actions[2], Action::SendPong(bytes("zz")));
    assert_eq!(actions.len(), 10);
}

#[test]
fn stream_side_alone_is_forwarded_without_socket_activity() {
    let mut s = Session::new();
    let actions = s.feed_all(vec![
        Event::ReadBytes(bytes("one")),
        Event::ReadBytes(bytes("two")),
        Event::ReadBytes(bytes("three")),
    ]);
    assert_eq!(
        actions,
        vec![
            Action::SendBinary(bytes("one")),
            Action::SendBinary(bytes("two")),
            Action::SendBinary(bytes("three")),
        ]
    );
    assert!(s.is_active());
}

#[test]
fn socket_side_alone_is_forwarded_without_stream_activity() {
    let mut s = Session::new();
    let actions = s.feed_all(vec![
        Event::Received(Frame::Binary(bytes("a"))),
        Event::Received(Frame::Binary(bytes("b"))),
    ]);
    assert_eq!(
        actions,
        vec![Action::WriteToStream(bytes("a")), Action::WriteToStream(bytes("b"))]
    );
    assert!(s.is_active());
}

#[test]
fn tunnel_round_trip_then_close() {
    // Client side: bytes read from standard input go out as binary messages,
    // binary messages coming back go to standard output.
    let mut client = Session::new();
    // Server side: binary messages are written to the target connection, bytes
    // read from it go back as binary messages.
    let mut server = Session::new();

    let sent = client.step(Event::ReadBytes(bytes("ping-bytes")));
    assert_eq!(sent, Action::SendBinary(bytes("ping-bytes")));
    let Action::SendBinary(payload) = sent else { unreachable!() };
    assert_eq!(
        server.step(Event::Received(Frame::Binary(payload))),
        Action::WriteToStream(bytes("ping-bytes"))
    );

    let back = server.step(Event::ReadBytes(bytes("reply")));
    assert_eq!(back, Action::SendBinary(bytes("reply")));
    let Action::SendBinary(payload) = back else { unreachable!() };
    assert_eq!(
        client.step(Event::Received(Frame::Binary(payload))),
        Action::WriteToStream(bytes("reply"))
    );

    assert_eq!(client.step(Event::Received(Frame::Close)), Action::Finish(Ok(())));
    assert_eq!(server.step(Event::Received(Frame::Close)), Action::Finish(Ok(())));
    assert!(!client.is_active());
    assert!(!server.is_active());
    assert_eq!(client.step(Event::ReadBytes(bytes("residue"))), Action::Idle);
    assert_eq!(server.step(Event::ReadBytes(bytes("residue"))), Action::Idle);
}

#[test]
fn failure_in_one_session_leaves_another_running() {
    let mut failing = Session::new();
    let mut healthy = Session::new();
    assert_eq!(failing.step(Event::Failed(Failure::Read)), Action::Finish(Err(Failure::Read)));
    assert_eq!(
        healthy.step(Event::ReadBytes(bytes("still here"))),
        Action::SendBinary(bytes("still here"))
    );
    assert!(healthy.is_active());
}

#[test]
fn read_buffer_has_fixed_capacity() {
    let b = read_buffer();
    assert_eq!(READ_BUFFER_SIZE, 1024);
    assert_eq!(b.len(), 1024);
    assert!(b.iter().all(|&x| x == 0));
}

#[test]
fn chunk_keeps_only_bytes_read() {
    let mut b = read_buffer();
    b[0] = 7;
    b[1] = 8;
    b[2] = 9;
    assert_eq!(chunk_of(&b, 2), vec![7, 8]);
    assert_eq!(chunk_of(&b, 0), Vec::<u8>::new());
    assert_eq!(chunk_of(&b, READ_BUFFER_SIZE).len(), READ_BUFFER_SIZE);
}
