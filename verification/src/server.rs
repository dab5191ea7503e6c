//! The accepting side of the handshake.
//!
//! A server waits for the NUL byte that opens every connection, then for an
//! authentication request. A request it cannot accept is answered and the
//! server waits for the next one, for as long as the client cares to try.
//! Once a request names the expected user, the server tells its identifier
//! and waits for the client to begin, granting the passing of file
//! descriptors if asked to in the meantime.

use vstd::prelude::*;

use crate::buffer::{flush_buffer, read_command};
use crate::command::{
    auth_command, begin_command, parse_auth_command, parse_begin_command, AuthCommand,
    BeginCommand,
};
use crate::error::Error;
use crate::guid::Guid;
use crate::io::{Action, Direction, Event, EventView, LINE_CHUNK};
use crate::wire::{
    agree_unix_fd_line, ends_with_crlf, first_line, has_line, literal, ok_line, rejected_line,
    take_first_line, unsupported_line,
};

verus! {

/// The phase that a server handshake is in.
#[derive(Clone, Copy, Debug, PartialEq, Eq, Structural)]
pub enum ServerHandshakeStep {
    /// Waiting for the first byte of the connection.
    WaitingForNull,
    /// Collecting an authentication request.
    WaitingForAuth,
    /// Sending the line that accepts the client.
    SendingAuthOk,
    /// Sending the line that turns a request down.
    SendingAuthError,
    /// Collecting what the accepted client asks next.
    WaitingForBegin,
    /// Sending the answer to what the accepted client asked.
    SendingBeginReply,
    /// The client has begun: the text phase is over.
    Done,
}

impl ServerHandshakeStep {
    /// Whether the step sends the line in the buffer.
    pub open spec fn is_sending(self) -> bool {
        self == ServerHandshakeStep::SendingAuthOk || self == ServerHandshakeStep::SendingAuthError
            || self == ServerHandshakeStep::SendingBeginReply
    }

    /// Whether the step waits for bytes to arrive.
    pub open spec fn is_waiting(self) -> bool {
        self == ServerHandshakeStep::WaitingForNull || self == ServerHandshakeStep::WaitingForAuth
            || self == ServerHandshakeStep::WaitingForBegin
    }

    /// The direction in which the socket must be ready for the step to go
    /// on. The last step waits for nothing.
    pub open spec fn direction(self) -> Option<Direction> {
        if self.is_sending() {
            Some(Direction::Writable)
        } else if self.is_waiting() {
            Some(Direction::Readable)
        } else {
            None
        }
    }
}

/// The state of a server handshake, as contracts see it.
pub struct ServerState {
    /// The current phase.
    pub step: ServerHandshakeStep,
    /// What is left of the line being sent, or what has arrived of the line
    /// being collected.
    pub buffer: Seq<u8>,
    /// The text of this server's identifier.
    pub server_guid: Seq<u8>,
    /// Whether the passing of file descriptors was granted.
    pub cap_unix_fd: bool,
    /// The user that the client has to authenticate as.
    pub client_uid: u32,
}

/// The state in which a server handshake starts.
pub open spec fn server_initial(guid: Seq<u8>, client_uid: u32) -> ServerState {
    ServerState {
        step: ServerHandshakeStep::WaitingForNull,
        buffer: Seq::empty(),
        server_guid: guid,
        cap_unix_fd: false,
        client_uid,
    }
}

/// The state `s` with `step` as its phase and `line` as the line to send.
pub open spec fn server_reply(s: ServerState, step: ServerHandshakeStep, line: Seq<u8>)
    -> ServerState {
    ServerState { step, buffer: line, ..s }
}

/// The state `s` in the phase `step`.
pub open spec fn server_at(s: ServerState, step: ServerHandshakeStep) -> ServerState {
    ServerState { step, ..s }
}

/// What an event does to the buffer: a partial write takes bytes from the
/// front of the line being sent, and bytes that arrive are added to the line
/// being collected. An event that does not belong to the current phase
/// changes nothing.
pub open spec fn server_absorb(s: ServerState, event: EventView) -> ServerState {
    match event {
        EventView::Resume => s,
        EventView::Sent(n) => if s.step.is_sending() {
            ServerState { buffer: s.buffer.skip(n as int), ..s }
        } else {
            s
        },
        EventView::Received(bytes) => if s.step.is_waiting() {
            ServerState { buffer: s.buffer + bytes, ..s }
        } else {
            s
        },
    }
}

/// How a server that waits for authentication answers the line it has
/// collected.
pub open spec fn server_on_auth_line(s: ServerState) -> (ServerState, Result<Action, Error>) {
    match auth_command(first_line(s.buffer)) {
        AuthCommand::External(uid) => if uid == Some(s.client_uid) {
            (
                server_reply(s, ServerHandshakeStep::SendingAuthOk, ok_line(s.server_guid)),
                Ok(Action::Send),
            )
        } else {
            (
                server_reply(s, ServerHandshakeStep::SendingAuthError, rejected_line()),
                Ok(Action::Send),
            )
        },
        AuthCommand::Invalid => (
            server_reply(s, ServerHandshakeStep::SendingAuthError, rejected_line()),
            Ok(Action::Send),
        ),
        AuthCommand::Begin => (s, Err(Error::BeginBeforeAuth)),
        AuthCommand::Unknown => (
            server_reply(s, ServerHandshakeStep::SendingAuthError, unsupported_line()),
            Ok(Action::Send),
        ),
    }
}

/// How a server that has accepted the client answers the line it has
/// collected.
pub open spec fn server_on_begin_line(s: ServerState) -> (ServerState, Result<Action, Error>) {
    match begin_command(first_line(s.buffer)) {
        BeginCommand::Begin => (server_at(s, ServerHandshakeStep::Done), Ok(Action::Done)),
        BeginCommand::Cancel => (
            server_reply(s, ServerHandshakeStep::SendingAuthError, rejected_line()),
            Ok(Action::Send),
        ),
        BeginCommand::NegotiateUnixFd => (
            ServerState {
                step: ServerHandshakeStep::SendingBeginReply,
                buffer: agree_unix_fd_line(),
                cap_unix_fd: true,
                ..s
            },
            Ok(Action::Send),
        ),
        BeginCommand::Unknown => (
            server_reply(s, ServerHandshakeStep::SendingBeginReply, unsupported_line()),
            Ok(Action::Send),
        ),
    }
}

/// Where a sending phase stands: it asks for a write while bytes are left,
/// and moves on to `next`, which collects a line, once none is.
pub open spec fn server_sending(s: ServerState, next: ServerHandshakeStep) -> (
    ServerState,
    Result<Action, Error>,
) {
    if s.buffer.len() > 0 {
        (s, Ok(Action::Send))
    } else {
        (server_at(s, next), Ok(Action::Receive(LINE_CHUNK)))
    }
}

/// As far as a server gets without the socket: the state it reaches from
/// `s`, and the operation it needs there or the violation that stops it.
pub open spec fn server_settle(s: ServerState) -> (ServerState, Result<Action, Error>) {
    match s.step {
        ServerHandshakeStep::WaitingForNull => (s, Ok(Action::Receive(1))),
        ServerHandshakeStep::WaitingForAuth => if ends_with_crlf(s.buffer) {
            server_on_auth_line(s)
        } else {
            (s, Ok(Action::Receive(LINE_CHUNK)))
        },
        ServerHandshakeStep::SendingAuthError => server_sending(
            s,
            ServerHandshakeStep::WaitingForAuth,
        ),
        ServerHandshakeStep::SendingAuthOk => server_sending(
            s,
            ServerHandshakeStep::WaitingForBegin,
        ),
        ServerHandshakeStep::WaitingForBegin => if ends_with_crlf(s.buffer) {
            server_on_begin_line(s)
        } else {
            (s, Ok(Action::Receive(LINE_CHUNK)))
        },
        ServerHandshakeStep::SendingBeginReply => server_sending(
            s,
            ServerHandshakeStep::WaitingForBegin,
        ),
        ServerHandshakeStep::Done => (s, Ok(Action::Done)),
    }
}

/// What the first bytes of a connection do to a server that waits for them.
/// The first byte has to be NUL; what follows it, if anything, belongs to the
/// authentication request.
pub open spec fn server_on_first_bytes(s: ServerState, bytes: Seq<u8>) -> (
    ServerState,
    Result<Action, Error>,
) {
    if bytes.len() == 0 {
        (s, Ok(Action::Receive(1)))
    } else if bytes[0] != 0 {
        (s, Err(Error::FirstByteNotNul))
    } else {
        server_settle(
            ServerState {
                step: ServerHandshakeStep::WaitingForAuth,
                buffer: s.buffer + bytes.skip(1),
                ..s
            },
        )
    }
}

/// One advance of a server handshake: the state that follows `s` on `event`,
/// and the operation that the server needs next or the violation that stops
/// it. After a violation the state is `s` with whatever arrived.
pub open spec fn server_advance(s: ServerState, event: EventView) -> (
    ServerState,
    Result<Action, Error>,
) {
    if s.step == ServerHandshakeStep::WaitingForNull {
        match event {
            EventView::Received(bytes) => server_on_first_bytes(s, bytes),
            _ => (s, Ok(Action::Receive(1))),
        }
    } else {
        server_settle(server_absorb(s, event))
    }
}

/// Whether `event` can have come of the operation that the state `s` waits
/// for: a socket never takes more bytes than it was offered.
pub open spec fn server_accepts(s: ServerState, event: EventView) -> bool {
    event matches EventView::Sent(n) ==> !s.step.is_sending() || n <= s.buffer.len()
}

/// A handshake in progress on the server's side of the socket `S`.
pub struct ServerHandshake<S> {
    socket: S,
    buffer: Vec<u8>,
    step: ServerHandshakeStep,
    server_guid: Guid,
    cap_unix_fd: bool,
    client_uid: u32,
}

/// The result of a completed handshake on the server's side.
pub struct InitializedServer<S> {
    /// The connection, ready for messages.
    pub cx: S,
    /// This server's identifier.
    pub server_guid: Guid,
    /// Whether the client asked for the passing of file descriptors.
    pub cap_unix_fd: bool,
}

impl<S> View for ServerHandshake<S> {
    type V = ServerState;

    closed spec fn view(&self) -> ServerState {
        ServerState {
            step: self.step,
            buffer: self.buffer@,
            server_guid: self.server_guid@,
            cap_unix_fd: self.cap_unix_fd,
            client_uid: self.client_uid,
        }
    }
}

impl<S> ServerHandshake<S> {
    /// The socket that the handshake holds.
    pub closed spec fn spec_socket(&self) -> S {
        self.socket
    }

    /// Starts a handshake on `socket` for the server whose identifier is
    /// `guid`, with a client that has to authenticate as `client_uid`.
    pub fn new(socket: S, guid: Guid, client_uid: u32) -> (handshake: ServerHandshake<S>)
        ensures
            handshake@ == server_initial(guid@, client_uid),
            handshake.spec_socket() == socket,
    {
        ServerHandshake {
            socket,
            buffer: Vec::new(),
            step: ServerHandshakeStep::WaitingForNull,
            server_guid: guid,
            cap_unix_fd: false,
            client_uid,
        }
    }

    /// Takes from the buffer the bytes that the socket accepted.
    fn flush_buffer(&mut self, written: usize)
        requires
            written <= old(self)@.buffer.len(),
        ensures
            final(self)@ == (ServerState { buffer: old(self)@.buffer.skip(written as int), ..old(self)@ }),
            final(self).spec_socket() == old(self).spec_socket(),
    {
        flush_buffer(&mut self.buffer, written);
    }

    /// Adds to the buffer the bytes that the socket delivered, and tells
    /// whether a whole line has been collected.
    fn read_command(&mut self, received: Vec<u8>) -> (complete: bool)
        ensures
            final(self)@ == (ServerState { buffer: old(self)@.buffer + received@, ..old(self)@ }),
            complete == ends_with_crlf(final(self)@.buffer),
            final(self).spec_socket() == old(self).spec_socket(),
    {
        read_command(&mut self.buffer, received)
    }

    /// Makes `line` the line to send, in the phase `step`.
    fn reply(&mut self, step: ServerHandshakeStep, line: Vec<u8>)
        ensures
            final(self)@ == server_reply(old(self)@, step, line@),
            final(self).spec_socket() == old(self).spec_socket(),
    {
        self.buffer = line;
        self.step = step;
    }

    /// The line that accepts the client.
    fn ok_line(&self) -> (line: Vec<u8>)
        ensures
            line@ == ok_line(self@.server_guid),
    {
        let mut line = literal("OK ");
        let mut guid = vstd::slice::slice_to_vec(self.server_guid.as_bytes());
        let mut end = literal("\r\n");
        line.append(&mut guid);
        line.append(&mut end);
        line
    }

    /// Goes as far as the handshake gets without the socket.
    fn settle(&mut self) -> (res: Result<Action, Error>)
        ensures
            server_settle(old(self)@) == (final(self)@, res),
            final(self).spec_socket() == old(self).spec_socket(),
    {
        match self.step {
            ServerHandshakeStep::WaitingForNull => Ok(Action::Receive(1)),
            ServerHandshakeStep::WaitingForAuth => {
                if !has_line(self.buffer.as_slice()) {
                    return Ok(Action::Receive(LINE_CHUNK));
                }
                match parse_auth_command(take_first_line(self.buffer.as_slice())) {
                    AuthCommand::External(Some(uid)) if uid == self.client_uid => {
                        let line = self.ok_line();
                        self.reply(ServerHandshakeStep::SendingAuthOk, line);
                        Ok(Action::Send)
                    },
                    AuthCommand::External(_) | AuthCommand::Invalid => {
                        self.reply(
                            ServerHandshakeStep::SendingAuthError,
                            literal("REJECTED EXTERNAL\r\n"),
                        );
                        Ok(Action::Send)
                    },
                    AuthCommand::Begin => Err(Error::BeginBeforeAuth),
                    AuthCommand::Unknown => {
                        self.reply(
                            ServerHandshakeStep::SendingAuthError,
                            literal("ERROR Unsupported command\r\n"),
                        );
                        Ok(Action::Send)
                    },
                }
            },
            ServerHandshakeStep::SendingAuthError => self.sending(
                ServerHandshakeStep::WaitingForAuth,
            ),
            ServerHandshakeStep::SendingAuthOk => self.sending(
                ServerHandshakeStep::WaitingForBegin,
            ),
            ServerHandshakeStep::WaitingForBegin => {
                if !has_line(self.buffer.as_slice()) {
                    return Ok(Action::Receive(LINE_CHUNK));
                }
                match parse_begin_command(take_first_line(self.buffer.as_slice())) {
                    BeginCommand::Begin => {
                        self.step = ServerHandshakeStep::Done;
                        Ok(Action::Done)
                    },
                    BeginCommand::Cancel => {
                        self.reply(
                            ServerHandshakeStep::SendingAuthError,
                            literal("REJECTED EXTERNAL\r\n"),
                        );
                        Ok(Action::Send)
                    },
                    BeginCommand::NegotiateUnixFd => {
                        self.cap_unix_fd = true;
                        self.reply(
                            ServerHandshakeStep::SendingBeginReply,
                            literal("AGREE_UNIX_FD\r\n"),
                        );
                        Ok(Action::Send)
                    },
                    BeginCommand::Unknown => {
                        self.reply(
                            ServerHandshakeStep::SendingBeginReply,
                            literal("ERROR Unsupported command\r\n"),
                        );
                        Ok(Action::Send)
                    },
                }
            },
            ServerHandshakeStep::SendingBeginReply => self.sending(
                ServerHandshakeStep::WaitingForBegin,
            ),
            ServerHandshakeStep::Done => Ok(Action::Done),
        }
    }

    /// Where a sending phase stands.
    fn sending(&mut self, next: ServerHandshakeStep) -> (res: Result<Action, Error>)
        ensures
            server_sending(old(self)@, next) == (final(self)@, res),
            final(self).spec_socket() == old(self).spec_socket(),
    {
        if self.buffer.len() > 0 {
            Ok(Action::Send)
        } else {
            self.step = next;
            Ok(Action::Receive(LINE_CHUNK))
        }
    }

    /// Advances the handshake.
    ///
    /// `event` tells what came of the operation that the last call asked
    /// for; it is [`Event::Resume`] on the first call and whenever the
    /// operation could not be performed yet. The handshake takes the event
    /// in, goes on as far as it can without the socket, and returns the
    /// operation it needs next. [`Action::Done`] says that the handshake is
    /// complete and that [`try_finish`](Self::try_finish) will succeed.
    ///
    /// A client that is turned down may try again as often as it likes:
    /// only a first byte other than NUL, and a `BEGIN` before the client is
    /// authenticated, are violations. A violation leaves the handshake where
    /// it was.
    pub fn advance_handshake(&mut self, event: Event) -> (res: Result<Action, Error>)
        requires
            server_accepts(old(self)@, event@),
        ensures
            server_advance(old(self)@, event@) == (final(self)@, res),
            final(self).spec_socket() == old(self).spec_socket(),
    {
        match self.step {
            ServerHandshakeStep::WaitingForNull => {
                match event {
                    Event::Received(bytes) => {
                        if bytes.len() == 0 {
                            return Ok(Action::Receive(1));
                        }
                        if bytes[0] != 0 {
                            return Err(Error::FirstByteNotNul);
                        }
                        let ghost all = bytes@;
                        let mut bytes = bytes;
                        let rest = bytes.split_off(1);
                        assert(rest@ =~= all.skip(1));
                        self.read_command(rest);
                        self.step = ServerHandshakeStep::WaitingForAuth;
                        self.settle()
                    },
                    _ => Ok(Action::Receive(1)),
                }
            },
            _ => {
                match event {
                    Event::Resume => {},
                    Event::Sent(n) => {
                        if self.is_sending() {
                            self.flush_buffer(n);
                        }
                    },
                    Event::Received(bytes) => {
                        if self.is_waiting() {
                            self.read_command(bytes);
                        }
                    },
                }
                self.settle()
            },
        }
    }

    /// Whether the current phase sends the line in the buffer.
    fn is_sending(&self) -> (r: bool)
        ensures
            r == self@.step.is_sending(),
    {
        self.step == ServerHandshakeStep::SendingAuthOk || self.step
            == ServerHandshakeStep::SendingAuthError || self.step
            == ServerHandshakeStep::SendingBeginReply
    }

    /// Whether the current phase waits for bytes to arrive.
    fn is_waiting(&self) -> (r: bool)
        ensures
            r == self@.step.is_waiting(),
    {
        self.step == ServerHandshakeStep::WaitingForNull || self.step
            == ServerHandshakeStep::WaitingForAuth || self.step
            == ServerHandshakeStep::WaitingForBegin
    }

    /// Turns the handshake into its result. This succeeds once the handshake
    /// is complete; before that, the handshake is handed back as it was.
    pub fn try_finish(self) -> (res: Result<InitializedServer<S>, ServerHandshake<S>>)
        ensures
            self@.step == ServerHandshakeStep::Done ==> (res matches Ok(done) && done.cx
                == self.spec_socket() && done.server_guid@ == self@.server_guid
                && done.cap_unix_fd == self@.cap_unix_fd),
            self@.step != ServerHandshakeStep::Done ==> res == Err::<
                InitializedServer<S>,
                ServerHandshake<S>,
            >(self),
    {
        if self.step == ServerHandshakeStep::Done {
            Ok(
                InitializedServer {
                    cx: self.socket,
                    server_guid: self.server_guid,
                    cap_unix_fd: self.cap_unix_fd,
                },
            )
        } else {
            Err(self)
        }
    }

    /// The direction in which the socket must become ready before the
    /// operation that the handshake waits for can be performed; `None` once
    /// the handshake is complete.
    pub fn pending_io(&self) -> (direction: Option<Direction>)
        ensures
            direction == self@.step.direction(),
    {
        if self.is_sending() {
            Some(Direction::Writable)
        } else if self.is_waiting() {
            Some(Direction::Readable)
        } else {
            None
        }
    }

    /// The current phase.
    pub fn step(&self) -> (step: ServerHandshakeStep)
        ensures
            step == self@.step,
    {
        self.step
    }

    /// The bytes in the buffer: while a line is sent, what is left to send.
    pub fn buffer(&self) -> (bytes: &[u8])
        ensures
            bytes@ == self@.buffer,
    {
        self.buffer.as_slice()
    }

    /// Whether the passing of file descriptors was granted.
    pub fn cap_unix_fd(&self) -> (granted: bool)
        ensures
            granted == self@.cap_unix_fd,
    {
        self.cap_unix_fd
    }

    /// The socket.
    pub fn socket(&self) -> (socket: &S)
        ensures
            *socket == self.spec_socket(),
    {
        &self.socket
    }

    /// The socket, to perform on it the operation that the handshake asked
    /// for. The handshake itself stays as it is.
    pub fn socket_mut(&mut self) -> (socket: &mut S)
        ensures
            *socket == old(self).spec_socket(),
            final(self).spec_socket() == *final(socket),
            final(self)@ == old(self)@,
    {
        &mut self.socket
    }
}

} // verus!
