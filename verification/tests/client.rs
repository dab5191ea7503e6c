use dbus_handshake::uid::encode_uid;
use dbus_handshake::{Action, ClientHandshake, ClientHandshakeStep, Direction, Error, Event};

const GUID: &[u8] = b"9a8b7c6d5e4f30211203f4e5d6c7b8a9";

fn ok_line() -> Vec<u8> {
    let mut line = b"OK ".to_vec();
    line.extend_from_slice(GUID);
    line.extend_from_slice(b"\r\n");
    line
}

/// A client that has sent its request and waits for the answer.
fn client_waiting_for_auth_reply() -> ClientHandshake<&'static str> {
    let mut hs = ClientHandshake::new("socket");
    assert_eq!(hs.advance_as(1000, Event::Resume), Ok(Action::Send));
    assert_eq!(hs.advance_as(1000, Event::Sent(25)), Ok(Action::Receive(40)));
    assert_eq!(hs.step(), ClientHandshakeStep::WaitAuthReply);
    hs
}

/// A client that has asked for the passing of file descriptors.
fn client_waiting_for_unix_fd_reply() -> ClientHandshake<&'static str> {
    let mut hs = client_waiting_for_auth_reply();
    assert_eq!(hs.advance_as(1000, Event::Received(ok_line())), Ok(Action::Send));
    assert_eq!(hs.advance_as(1000, Event::Sent(19)), Ok(Action::Receive(40)));
    assert_eq!(hs.step(), ClientHandshakeStep::WaitNegotiateFdReply);
    hs
}

#[test]
fn client_starts_with_nul_and_its_request() {
    let mut hs = ClientHandshake::new("socket");
    assert_eq!(hs.step(), ClientHandshakeStep::Init);
    assert_eq!(hs.pending_io(), None);
    assert_eq!(hs.buffer(), b"");
    assert_eq!(hs.advance_as(1000, Event::Resume), Ok(Action::Send));
    assert_eq!(hs.step(), ClientHandshakeStep::SendingAuth);
    assert_eq!(hs.pending_io(), Some(Direction::Writable));
    assert_eq!(hs.buffer(), b"\0AUTH EXTERNAL 31303030\r\n");
}

#[test]
fn client_writes_the_id_of_the_user_it_is_given() {
    for uid in [0u32, 7, 1000, 65534, u32::MAX] {
        let mut hs = ClientHandshake::new(());
        assert_eq!(hs.advance_as(uid, Event::Resume), Ok(Action::Send));
        let mut expected = b"\0AUTH EXTERNAL ".to_vec();
        expected.extend(encode_uid(uid));
        expected.extend_from_slice(b"\r\n");
        assert_eq!(hs.buffer(), expected);
    }
}

#[test]
fn client_writes_the_id_of_the_user_of_this_process() {
    let uid: u32 = nix::unistd::Uid::current().as_raw();
    let mut expected = b"\0AUTH EXTERNAL ".to_vec();
    for c in uid.to_string().chars() {
        expected.extend(format!("{:x}", c as u32).into_bytes());
    }
    expected.extend_from_slice(b"\r\n");
    let mut hs = ClientHandshake::new(());
    assert_eq!(hs.advance_handshake(Event::Resume), Ok(Action::Send));
    assert_eq!(hs.step(), ClientHandshakeStep::SendingAuth);
    assert_eq!(hs.buffer(), expected);
}

#[test]
fn client_ignores_events_before_it_has_started() {
    let mut hs = ClientHandshake::new(());
    assert_eq!(hs.advance_as(1, Event::Sent(3)), Ok(Action::Send));
    assert_eq!(hs.buffer(), b"\0AUTH EXTERNAL 31\r\n");
    let mut hs = ClientHandshake::new(());
    assert_eq!(hs.advance_as(1, Event::Received(b"OK\r\n".to_vec())), Ok(Action::Send));
    assert_eq!(hs.buffer(), b"\0AUTH EXTERNAL 31\r\n");
}

#[test]
fn client_sends_its_line_in_as_many_writes_as_it_takes() {
    let mut hs = ClientHandshake::new(());
    assert_eq!(hs.advance_as(1000, Event::Resume), Ok(Action::Send));
    assert_eq!(hs.advance_as(1000, Event::Resume), Ok(Action::Send));
    assert_eq!(hs.buffer(), b"\0AUTH EXTERNAL 31303030\r\n");
    assert_eq!(hs.advance_as(1000, Event::Sent(1)), Ok(Action::Send));
    assert_eq!(hs.buffer(), b"AUTH EXTERNAL 31303030\r\n");
    assert_eq!(hs.advance_as(1000, Event::Sent(0)), Ok(Action::Send));
    assert_eq!(hs.advance_as(1000, Event::Sent(20)), Ok(Action::Send));
    assert_eq!(hs.buffer(), b"30\r\n");
    assert_eq!(hs.step(), ClientHandshakeStep::SendingAuth);
    assert_eq!(hs.advance_as(1000, Event::Sent(4)), Ok(Action::Receive(40)));
    assert_eq!(hs.step(), ClientHandshakeStep::WaitAuthReply);
    assert_eq!(hs.pending_io(), Some(Direction::Readable));
    assert_eq!(hs.buffer(), b"");
}

#[test]
fn client_learns_the_server_from_its_answer() {
    let mut hs = client_waiting_for_auth_reply();
    assert_eq!(hs.advance_as(1000, Event::Received(b"OK 9a8b7c6d5e4f".to_vec())), Ok(Action::Receive(40)));
    assert_eq!(hs.advance_as(1000, Event::Resume), Ok(Action::Receive(40)));
    assert_eq!(hs.advance_as(1000, Event::Received(b"30211203f4e5d6c7b8a9\r\n".to_vec())), Ok(Action::Send));
    assert_eq!(hs.step(), ClientHandshakeStep::SendingNegotiateFd);
    assert_eq!(hs.buffer(), b"NEGOTIATE_UNIX_FD\r\n");
}

#[test]
fn client_fails_on_an_answer_that_is_not_ok_and_an_identifier() {
    for line in [
        &b"REJECTED EXTERNAL\r\n"[..],
        b"OK\r\n",
        b"OK 1234\r\n",
        b"OK 9a8b7c6d5e4f30211203f4e5d6c7b8a9 more\r\n",
        b"OK 9a8b7c6d5e4f30211203f4e5d6c7b8ax\r\n",
        b"ok 9a8b7c6d5e4f30211203f4e5d6c7b8a9\r\n",
        b"ERROR\r\n",
        b"\r\n",
    ] {
        let mut hs = client_waiting_for_auth_reply();
        assert_eq!(hs.advance_as(1000, Event::Received(line.to_vec())), Err(Error::UnexpectedAuthReply));
        assert_eq!(hs.step(), ClientHandshakeStep::WaitAuthReply);
        assert_eq!(hs.buffer(), line);
        assert_eq!(hs.advance_as(1000, Event::Resume), Err(Error::UnexpectedAuthReply));
        assert!(hs.try_finish().is_err());
    }
}

#[test]
fn client_takes_an_agreement_as_granted() {
    let mut hs = client_waiting_for_unix_fd_reply();
    assert_eq!(hs.advance_as(1000, Event::Received(b"AGREE_UNIX_FD\r\n".to_vec())), Ok(Action::Send));
    assert_eq!(hs.step(), ClientHandshakeStep::SendingBegin);
    assert_eq!(hs.buffer(), b"BEGIN\r\n");
    assert_eq!(hs.advance_as(1000, Event::Sent(7)), Ok(Action::Done));
    assert_eq!(hs.step(), ClientHandshakeStep::Done);
    assert_eq!(hs.pending_io(), None);
    assert_eq!(hs.advance_as(1000, Event::Resume), Ok(Action::Done));
    assert_eq!(hs.advance_as(1000, Event::Sent(0)), Ok(Action::Done));
    let done = hs.try_finish().ok().unwrap();
    assert!(done.cap_unix_fd);
    assert_eq!(done.server_guid.as_bytes(), GUID);
    assert_eq!(done.cx, "socket");
}

#[test]
fn client_takes_an_error_as_declined() {
    let mut hs = client_waiting_for_unix_fd_reply();
    assert_eq!(hs.advance_as(1000, Event::Received(b"ERROR\r\n".to_vec())), Ok(Action::Send));
    assert_eq!(hs.step(), ClientHandshakeStep::SendingBegin);
    assert_eq!(hs.buffer(), b"BEGIN\r\n");
    assert_eq!(hs.advance_as(1000, Event::Sent(7)), Ok(Action::Done));
    let done = hs.try_finish().ok().unwrap();
    assert!(!done.cap_unix_fd);
    assert_eq!(done.server_guid.as_bytes(), GUID);
}

#[test]
fn client_fails_on_any_other_answer_to_its_fd_request() {
    for line in [&b"REJECTED EXTERNAL\r\n"[..], b"OK\r\n", b" AGREE_UNIX_FD\r\n", b"AGREE\r\n", b"\r\n"] {
        let mut hs = client_waiting_for_unix_fd_reply();
        assert_eq!(hs.advance_as(1000, Event::Received(line.to_vec())), Err(Error::UnexpectedUnixFdReply));
        assert_eq!(hs.step(), ClientHandshakeStep::WaitNegotiateFdReply);
        assert!(hs.try_finish().is_err());
    }
}

#[test]
fn client_that_is_not_done_is_handed_back_unchanged() {
    let hs = ClientHandshake::new("socket");
    let hs = hs.try_finish().err().unwrap();
    assert_eq!(hs.step(), ClientHandshakeStep::Init);
    assert_eq!(*hs.socket(), "socket");

    let mut hs = client_waiting_for_auth_reply();
    assert_eq!(hs.advance_as(1000, Event::Received(ok_line())), Ok(Action::Send));
    assert_eq!(hs.advance_as(1000, Event::Sent(5)), Ok(Action::Send));
    let mut hs = hs.try_finish().err().unwrap();
    assert_eq!(hs.step(), ClientHandshakeStep::SendingNegotiateFd);
    assert_eq!(hs.buffer(), b"IATE_UNIX_FD\r\n");
    assert_eq!(*hs.socket(), "socket");
    // It goes on from where it was, and still knows the server.
    assert_eq!(hs.advance_as(1000, Event::Sent(14)), Ok(Action::Receive(40)));
    assert_eq!(hs.advance_as(1000, Event::Received(b"ERROR\r\n".to_vec())), Ok(Action::Send));
    assert_eq!(hs.advance_as(1000, Event::Sent(7)), Ok(Action::Done));
    let done = hs.try_finish().ok().unwrap();
    assert_eq!(done.server_guid.as_bytes(), GUID);
}

#[test]
fn client_lends_its_socket() {
    let mut hs = ClientHandshake::new(vec![1u8]);
    hs.socket_mut().push(2);
    assert_eq!(hs.socket(), &vec![1u8, 2]);
    assert_eq!(hs.step(), ClientHandshakeStep::Init);
}
