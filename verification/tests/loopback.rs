use std::cell::{Cell, RefCell};
use std::collections::VecDeque;
use std::rc::Rc;

use dbus_handshake::uid::encode_uid;
use dbus_handshake::{
    Action, ClientHandshake, ClientHandshakeStep, Error, Event, Guid, ServerHandshake,
    ServerHandshakeStep,
};

const GUID: &[u8] = b"0f1e2d3c4b5a69788796a5b4c3d2e1f0";

/// Why a side stopped before its handshake was complete.
#[derive(Debug, PartialEq)]
enum Stop {
    WouldBlock,
    Violation(Error),
}

/// One end of a byte pipe pair held in memory.
struct Endpoint {
    incoming: Rc<RefCell<VecDeque<u8>>>,
    outgoing: Rc<RefCell<VecDeque<u8>>>,
    /// Every byte this end has written, in order.
    written: Rc<RefCell<Vec<u8>>>,
    /// While set, every write would block.
    blocked: Rc<Cell<bool>>,
    /// The most bytes that one write takes.
    write_limit: usize,
}

impl Endpoint {
    fn pair(write_limit: usize) -> (Endpoint, Endpoint) {
        let a = Rc::new(RefCell::new(VecDeque::new()));
        let b = Rc::new(RefCell::new(VecDeque::new()));
        let left = Endpoint {
            incoming: a.clone(),
            outgoing: b.clone(),
            written: Rc::new(RefCell::new(Vec::new())),
            blocked: Rc::new(Cell::new(false)),
            write_limit,
        };
        let right = Endpoint {
            incoming: b,
            outgoing: a,
            written: Rc::new(RefCell::new(Vec::new())),
            blocked: Rc::new(Cell::new(false)),
            write_limit,
        };
        (left, right)
    }

    fn send(&mut self, bytes: &[u8]) -> Result<usize, Stop> {
        if self.blocked.get() {
            return Err(Stop::WouldBlock);
        }
        let taken: usize = bytes.len().min(self.write_limit);
        self.outgoing.borrow_mut().extend(&bytes[..taken]);
        self.written.borrow_mut().extend_from_slice(&bytes[..taken]);
        Ok(taken)
    }

    fn receive(&mut self, limit: usize) -> Result<Vec<u8>, Stop> {
        let mut incoming = self.incoming.borrow_mut();
        if incoming.is_empty() {
            return Err(Stop::WouldBlock);
        }
        let taken: usize = limit.min(incoming.len());
        Ok(incoming.drain(..taken).collect())
    }
}

/// Performs on the socket what the handshake asks for, until the handshake
/// is complete or the socket would block.
fn advance_client(hs: &mut ClientHandshake<Endpoint>, uid: u32) -> Result<(), Stop> {
    let mut event = Event::Resume;
    loop {
        match hs.advance_as(uid, event).map_err(Stop::Violation)? {
            Action::Done => return Ok(()),
            Action::Send => {
                let line = hs.buffer().to_vec();
                let taken: usize = hs.socket_mut().send(&line)?;
                assert!(taken <= line.len());
                event = Event::Sent(taken);
            }
            Action::Receive(limit) => {
                event = Event::Received(hs.socket_mut().receive(limit)?);
            }
        }
    }
}

/// Performs on the socket what the handshake asks for, until the handshake
/// is complete or the socket would block.
fn advance_server(hs: &mut ServerHandshake<Endpoint>) -> Result<(), Stop> {
    let mut event = Event::Resume;
    loop {
        match hs.advance_handshake(event).map_err(Stop::Violation)? {
            Action::Done => return Ok(()),
            Action::Send => {
                let line = hs.buffer().to_vec();
                let taken: usize = hs.socket_mut().send(&line)?;
                assert!(taken <= line.len());
                event = Event::Sent(taken);
            }
            Action::Receive(limit) => {
                event = Event::Received(hs.socket_mut().receive(limit)?);
            }
        }
    }
}

/// Advances both sides in turn until neither gets any further. Returns
/// whether the client and the server are complete.
fn run(
    client: &mut ClientHandshake<Endpoint>,
    client_uid: u32,
    server: &mut ServerHandshake<Endpoint>,
) -> (Result<(), Stop>, Result<(), Stop>) {
    let mut rounds: u32 = 0;
    loop {
        let c = advance_client(client, client_uid);
        let s = advance_server(server);
        rounds += 1;
        let stuck = c == Err(Stop::WouldBlock) || s == Err(Stop::WouldBlock);
        if !stuck || rounds == 200 {
            return (c, s);
        }
    }
}

fn auth_request(uid: u32) -> Vec<u8> {
    let mut line = b"AUTH EXTERNAL ".to_vec();
    line.extend(encode_uid(uid));
    line.extend_from_slice(b"\r\n");
    line
}

fn client_stream(uid: u32) -> Vec<u8> {
    let mut all = vec![0u8];
    all.extend(auth_request(uid));
    all.extend_from_slice(b"NEGOTIATE_UNIX_FD\r\nBEGIN\r\n");
    all
}

fn server_stream() -> Vec<u8> {
    let mut all = b"OK ".to_vec();
    all.extend_from_slice(GUID);
    all.extend_from_slice(b"\r\nAGREE_UNIX_FD\r\n");
    all
}

#[test]
fn client_and_server_complete_and_agree() {
    let (left, right) = Endpoint::pair(usize::MAX);
    let client_log = left.written.clone();
    let server_log = right.written.clone();
    let mut client = ClientHandshake::new(left);
    let mut server = ServerHandshake::new(right, Guid::parse(GUID).unwrap(), 1000);
    assert_eq!(run(&mut client, 1000, &mut server), (Ok(()), Ok(())));
    assert_eq!(client.step(), ClientHandshakeStep::Done);
    assert_eq!(server.step(), ServerHandshakeStep::Done);
    let client = client.try_finish().ok().unwrap();
    let server = server.try_finish().ok().unwrap();
    assert_eq!(client.server_guid, server.server_guid);
    assert_eq!(client.server_guid.as_bytes(), GUID);
    assert_eq!(client.cap_unix_fd, server.cap_unix_fd);
    assert!(client.cap_unix_fd);
    assert_eq!(*client_log.borrow(), client_stream(1000));
    assert_eq!(*server_log.borrow(), server_stream());
    assert!(client.cx.incoming.borrow().is_empty());
    assert!(server.cx.incoming.borrow().is_empty());
}

#[test]
fn client_and_server_complete_for_the_user_of_this_process() {
    let uid: u32 = nix::unistd::Uid::current().as_raw();
    let (left, right) = Endpoint::pair(usize::MAX);
    let mut client = ClientHandshake::new(left);
    let mut server = ServerHandshake::new(right, Guid::parse(GUID).unwrap(), uid);
    let mut rounds: u32 = 0;
    loop {
        let mut event = Event::Resume;
        let c = loop {
            match client.advance_handshake(event) {
                Err(e) => break Err(Stop::Violation(e)),
                Ok(Action::Done) => break Ok(()),
                Ok(Action::Send) => {
                    let line = client.buffer().to_vec();
                    let taken: usize = client.socket_mut().send(&line).unwrap();
                    event = Event::Sent(taken);
                }
                Ok(Action::Receive(limit)) => match client.socket_mut().receive(limit) {
                    Ok(bytes) => event = Event::Received(bytes),
                    Err(stop) => break Err(stop),
                },
            }
        };
        let s = advance_server(&mut server);
        rounds += 1;
        if (c == Ok(()) && s == Ok(())) || rounds == 200 {
            break;
        }
    }
    let client = client.try_finish().ok().unwrap();
    let server = server.try_finish().ok().unwrap();
    assert_eq!(client.server_guid, server.server_guid);
    assert!(client.cap_unix_fd && server.cap_unix_fd);
}

#[test]
fn handshake_completes_one_byte_at_a_time() {
    let (left, right) = Endpoint::pair(1);
    let client_log = left.written.clone();
    let server_log = right.written.clone();
    let mut client = ClientHandshake::new(left);
    let mut server = ServerHandshake::new(right, Guid::parse(GUID).unwrap(), 4294967295);
    assert_eq!(run(&mut client, 4294967295, &mut server), (Ok(()), Ok(())));
    let client = client.try_finish().ok().unwrap();
    let server = server.try_finish().ok().unwrap();
    assert_eq!(client.server_guid, server.server_guid);
    assert!(client.cap_unix_fd && server.cap_unix_fd);
    assert_eq!(*client_log.borrow(), client_stream(4294967295));
    assert_eq!(*server_log.borrow(), server_stream());
}

#[test]
fn client_of_another_user_is_rejected_and_fails() {
    let (left, right) = Endpoint::pair(usize::MAX);
    let server_log = right.written.clone();
    let mut client = ClientHandshake::new(left);
    let mut server = ServerHandshake::new(right, Guid::parse(GUID).unwrap(), 1000);
    let (c, s) = run(&mut client, 1001, &mut server);
    assert_eq!(c, Err(Stop::Violation(Error::UnexpectedAuthReply)));
    assert_eq!(s, Err(Stop::WouldBlock));
    assert_eq!(*server_log.borrow(), b"REJECTED EXTERNAL\r\n".to_vec());
    assert_eq!(server.step(), ServerHandshakeStep::WaitingForAuth);
    assert_eq!(client.step(), ClientHandshakeStep::WaitAuthReply);
    assert!(client.try_finish().is_err());
    assert!(server.try_finish().is_err());
}

#[test]
fn server_completes_without_fd_passing_over_a_pipe() {
    let (mut left, right) = Endpoint::pair(usize::MAX);
    let mut server = ServerHandshake::new(right, Guid::parse(GUID).unwrap(), 1000);
    left.send(&[0]).unwrap();
    left.send(&auth_request(1000)).unwrap();
    assert_eq!(advance_server(&mut server), Err(Stop::WouldBlock));
    assert_eq!(server.step(), ServerHandshakeStep::WaitingForBegin);
    let mut reply = b"OK ".to_vec();
    reply.extend_from_slice(GUID);
    reply.extend_from_slice(b"\r\n");
    assert_eq!(left.receive(100).unwrap(), reply);
    left.send(b"BEGIN\r\n").unwrap();
    assert_eq!(advance_server(&mut server), Ok(()));
    let server = server.try_finish().ok().unwrap();
    assert!(!server.cap_unix_fd);
}

#[test]
fn server_fails_over_a_pipe_when_first_byte_is_not_nul() {
    let (mut left, right) = Endpoint::pair(usize::MAX);
    let mut server = ServerHandshake::new(right, Guid::parse(GUID).unwrap(), 1000);
    left.send(&[0x01]).unwrap();
    assert_eq!(advance_server(&mut server), Err(Stop::Violation(Error::FirstByteNotNul)));
    assert_eq!(server.step(), ServerHandshakeStep::WaitingForNull);
}

#[test]
fn server_reads_exactly_one_byte_first() {
    let (mut left, right) = Endpoint::pair(usize::MAX);
    let mut server = ServerHandshake::new(right, Guid::parse(GUID).unwrap(), 1000);
    left.send(b"\0AUTH EXTERNAL 31303030").unwrap();
    assert_eq!(advance_server(&mut server), Err(Stop::WouldBlock));
    assert_eq!(server.step(), ServerHandshakeStep::WaitingForAuth);
    assert_eq!(server.buffer(), b"AUTH EXTERNAL 31303030");
    left.send(b"\r\n").unwrap();
    assert_eq!(advance_server(&mut server), Err(Stop::WouldBlock));
    assert_eq!(server.step(), ServerHandshakeStep::WaitingForBegin);
}

#[test]
fn blocked_writes_send_each_byte_once() {
    for write_limit in [1usize, 3, 7, usize::MAX] {
        let (left, right) = Endpoint::pair(write_limit);
        let client_log = left.written.clone();
        let server_log = right.written.clone();
        let client_blocked = left.blocked.clone();
        let server_blocked = right.blocked.clone();
        client_blocked.set(true);
        server_blocked.set(true);
        let mut client = ClientHandshake::new(left);
        let mut server = ServerHandshake::new(right, Guid::parse(GUID).unwrap(), 1000);
        // Nothing moves while both ends are blocked, however often the
        // handshakes are advanced.
        for _ in 0..5 {
            assert_eq!(advance_client(&mut client, 1000), Err(Stop::WouldBlock));
            assert_eq!(advance_server(&mut server), Err(Stop::WouldBlock));
            assert_eq!(client.step(), ClientHandshakeStep::SendingAuth);
            assert_eq!(client.buffer(), b"\0AUTH EXTERNAL 31303030\r\n");
            assert_eq!(server.step(), ServerHandshakeStep::WaitingForNull);
        }
        assert!(client_log.borrow().is_empty());
        // The client gets through; the server reads, but cannot answer.
        client_blocked.set(false);
        for _ in 0..40 {
            assert_eq!(advance_client(&mut client, 1000), Err(Stop::WouldBlock));
            assert_eq!(advance_server(&mut server), Err(Stop::WouldBlock));
        }
        assert_eq!(client.step(), ClientHandshakeStep::WaitAuthReply);
        assert_eq!(server.step(), ServerHandshakeStep::SendingAuthOk);
        assert!(server_log.borrow().is_empty());
        // Block the client again in the middle of its next line.
        server_blocked.set(false);
        assert_eq!(advance_server(&mut server), Err(Stop::WouldBlock));
        client_blocked.set(true);
        for _ in 0..40 {
            assert_eq!(advance_server(&mut server), Err(Stop::WouldBlock));
            assert_eq!(advance_client(&mut client, 1000), Err(Stop::WouldBlock));
        }
        assert_eq!(client.step(), ClientHandshakeStep::SendingNegotiateFd);
        client_blocked.set(false);
        assert_eq!(run(&mut client, 1000, &mut server), (Ok(()), Ok(())));
        assert_eq!(*client_log.borrow(), client_stream(1000));
        assert_eq!(*server_log.borrow(), server_stream());
        let client = client.try_finish().ok().unwrap();
        let server = server.try_finish().ok().unwrap();
        assert_eq!(client.server_guid, server.server_guid);
        assert!(client.cap_unix_fd && server.cap_unix_fd);
    }
}
