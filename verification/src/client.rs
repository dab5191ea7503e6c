//! The connecting side of the handshake.
//!
//! A client asks to be authenticated as the user it runs as, learns the
//! server's identifier from the answer, asks for the passing of file
//! descriptors, and begins. It never retries: an answer it does not expect
//! ends the handshake.

use vstd::prelude::*;

use crate::buffer::{flush_buffer, read_command};
use crate::command::{auth_reply, parse_auth_reply, parse_unix_fd_reply, unix_fd_reply};
use crate::error::Error;
use crate::guid::{valid_guid, Guid};
use crate::io::{Action, Direction, Event, EventView, LINE_CHUNK};
use crate::uid::{encode_uid, encoded_uid};
use crate::wire::{
    auth_line, begin_line, ends_with_crlf, first_line, has_line, literal,
    negotiate_unix_fd_line, take_first_line,
};

verus! {

/// The phase that a client handshake is in.
#[derive(Clone, Copy, Debug, PartialEq, Eq, Structural)]
pub enum ClientHandshakeStep {
    /// Nothing has happened yet.
    Init,
    /// Sending the NUL byte and the authentication request.
    SendingAuth,
    /// Collecting the answer to the authentication request.
    WaitAuthReply,
    /// Sending the request for the passing of file descriptors.
    SendingNegotiateFd,
    /// Collecting the answer to that request.
    WaitNegotiateFdReply,
    /// Sending the line that ends the text phase.
    SendingBegin,
    /// The text phase is over.
    Done,
}

impl ClientHandshakeStep {
    /// Whether the step sends the line in the buffer.
    pub open spec fn is_sending(self) -> bool {
        self == ClientHandshakeStep::SendingAuth || self == ClientHandshakeStep::SendingNegotiateFd
            || self == ClientHandshakeStep::SendingBegin
    }

    /// Whether the step waits for bytes to arrive.
    pub open spec fn is_waiting(self) -> bool {
        self == ClientHandshakeStep::WaitAuthReply || self
            == ClientHandshakeStep::WaitNegotiateFdReply
    }

    /// Whether the server's identifier is known by the time the step is
    /// reached.
    pub open spec fn knows_server(self) -> bool {
        self == ClientHandshakeStep::SendingNegotiateFd || self
            == ClientHandshakeStep::WaitNegotiateFdReply || self
            == ClientHandshakeStep::SendingBegin || self == ClientHandshakeStep::Done
    }

    /// The direction in which the socket must be ready for the step to go
    /// on. The first and the last step wait for nothing.
    pub open spec fn direction(self) -> Option<Direction> {
        if self.is_sending() {
            Some(Direction::Writable)
        } else if self.is_waiting() {
            Some(Direction::Readable)
        } else {
            None
        }
    }
}

/// The state of a client handshake, as contracts see it.
pub struct ClientState {
    /// The current phase.
    pub step: ClientHandshakeStep,
    /// What is left of the line being sent, or what has arrived of the line
    /// being collected.
    pub buffer: Seq<u8>,
    /// The text of the server's identifier, once the server has told it.
    pub server_guid: Option<Seq<u8>>,
    /// Whether the server granted the passing of file descriptors.
    pub cap_unix_fd: bool,
}

/// The state in which a client handshake starts.
pub open spec fn client_initial() -> ClientState {
    ClientState {
        step: ClientHandshakeStep::Init,
        buffer: Seq::empty(),
        server_guid: None,
        cap_unix_fd: false,
    }
}

/// The state `s` with `step` as its phase and `line` as the line to send.
pub open spec fn client_request(s: ClientState, step: ClientHandshakeStep, line: Seq<u8>)
    -> ClientState {
    ClientState { step, buffer: line, ..s }
}

/// The state `s` in the phase `step`.
pub open spec fn client_at(s: ClientState, step: ClientHandshakeStep) -> ClientState {
    ClientState { step, ..s }
}

/// What an event does to the buffer: a partial write takes bytes from the
/// front of the line being sent, and bytes that arrive are added to the line
/// being collected. An event that does not belong to the current phase
/// changes nothing.
pub open spec fn client_absorb(s: ClientState, event: EventView) -> ClientState {
    match event {
        EventView::Resume => s,
        EventView::Sent(n) => if s.step.is_sending() {
            ClientState { buffer: s.buffer.skip(n as int), ..s }
        } else {
            s
        },
        EventView::Received(bytes) => if s.step.is_waiting() {
            ClientState { buffer: s.buffer + bytes, ..s }
        } else {
            s
        },
    }
}

/// Where a sending phase stands: it asks for a write while bytes are left,
/// and moves on to `next`, which collects a line, once none is.
pub open spec fn client_sending(s: ClientState, next: ClientHandshakeStep) -> (
    ClientState,
    Result<Action, Error>,
) {
    if s.buffer.len() > 0 {
        (s, Ok(Action::Send))
    } else {
        (client_at(s, next), Ok(Action::Receive(LINE_CHUNK)))
    }
}

/// What a client makes of the answer to its authentication request.
pub open spec fn client_on_auth_reply(s: ClientState) -> (ClientState, Result<Action, Error>) {
    match auth_reply(first_line(s.buffer)) {
        Some(guid) => (
            ClientState {
                step: ClientHandshakeStep::SendingNegotiateFd,
                buffer: negotiate_unix_fd_line(),
                server_guid: Some(guid),
                ..s
            },
            Ok(Action::Send),
        ),
        None => (s, Err(Error::UnexpectedAuthReply)),
    }
}

/// What a client makes of the answer to its request for the passing of file
/// descriptors.
pub open spec fn client_on_unix_fd_reply(s: ClientState) -> (ClientState, Result<Action, Error>) {
    match unix_fd_reply(s.buffer) {
        Some(granted) => (
            ClientState {
                step: ClientHandshakeStep::SendingBegin,
                buffer: begin_line(),
                cap_unix_fd: granted,
                ..s
            },
            Ok(Action::Send),
        ),
        None => (s, Err(Error::UnexpectedUnixFdReply)),
    }
}

/// As far as a client that runs as the user `uid` gets without the socket:
/// the state it reaches from `s`, and the operation it needs there or the
/// violation that stops it.
pub open spec fn client_settle(s: ClientState, uid: u32) -> (ClientState, Result<Action, Error>) {
    match s.step {
        ClientHandshakeStep::Init => (
            client_request(s, ClientHandshakeStep::SendingAuth, auth_line(encoded_uid(uid))),
            Ok(Action::Send),
        ),
        ClientHandshakeStep::SendingAuth => client_sending(s, ClientHandshakeStep::WaitAuthReply),
        ClientHandshakeStep::WaitAuthReply => if ends_with_crlf(s.buffer) {
            client_on_auth_reply(s)
        } else {
            (s, Ok(Action::Receive(LINE_CHUNK)))
        },
        ClientHandshakeStep::SendingNegotiateFd => client_sending(
            s,
            ClientHandshakeStep::WaitNegotiateFdReply,
        ),
        ClientHandshakeStep::WaitNegotiateFdReply => if ends_with_crlf(s.buffer) {
            client_on_unix_fd_reply(s)
        } else {
            (s, Ok(Action::Receive(LINE_CHUNK)))
        },
        ClientHandshakeStep::SendingBegin => if s.buffer.len() > 0 {
            (s, Ok(Action::Send))
        } else {
            (client_at(s, ClientHandshakeStep::Done), Ok(Action::Done))
        },
        ClientHandshakeStep::Done => (s, Ok(Action::Done)),
    }
}

/// One advance of the handshake of a client that runs as the user `uid`: the
/// state that follows `s` on `event`, and the operation that the client
/// needs next or the violation that stops it. After a violation the state is
/// `s` with whatever arrived.
pub open spec fn client_advance(s: ClientState, event: EventView, uid: u32) -> (
    ClientState,
    Result<Action, Error>,
) {
    client_settle(client_absorb(s, event), uid)
}

/// What holds of a client handshake at all times: the server's identifier is
/// known from the phase on that follows the server's answer, and not
/// before; it is the text of an identifier; and the passing of file
/// descriptors is not held to be granted before the server has answered the
/// request for it.
pub open spec fn client_well_formed(s: ClientState) -> bool {
    &&& s.step.knows_server() <==> s.server_guid is Some
    &&& s.server_guid matches Some(guid) ==> valid_guid(guid)
    &&& s.cap_unix_fd ==> s.step == ClientHandshakeStep::SendingBegin || s.step
        == ClientHandshakeStep::Done
}

/// Whether `event` can have come of the operation that the state `s` waits
/// for: a socket never takes more bytes than it was offered.
pub open spec fn client_accepts(s: ClientState, event: EventView) -> bool {
    event matches EventView::Sent(n) ==> !s.step.is_sending() || n <= s.buffer.len()
}

/// What a client handshake holds besides the socket.
struct ClientCore {
    buffer: Vec<u8>,
    step: ClientHandshakeStep,
    server_guid: Option<Guid>,
    cap_unix_fd: bool,
}

impl View for ClientCore {
    type V = ClientState;

    closed spec fn view(&self) -> ClientState {
        ClientState {
            step: self.step,
            buffer: self.buffer@,
            server_guid: match self.server_guid {
                Some(guid) => Some(guid@),
                None => None,
            },
            cap_unix_fd: self.cap_unix_fd,
        }
    }
}

impl ClientCore {
    #[verifier::type_invariant]
    spec fn well_formed(self) -> bool {
        client_well_formed(self@)
    }

    /// Whether the current phase sends the line in the buffer.
    fn is_sending(&self) -> (r: bool)
        ensures
            r == self@.step.is_sending(),
    {
        self.step == ClientHandshakeStep::SendingAuth || self.step
            == ClientHandshakeStep::SendingNegotiateFd || self.step
            == ClientHandshakeStep::SendingBegin
    }

    /// Whether the current phase waits for bytes to arrive.
    fn is_waiting(&self) -> (r: bool)
        ensures
            r == self@.step.is_waiting(),
    {
        self.step == ClientHandshakeStep::WaitAuthReply || self.step
            == ClientHandshakeStep::WaitNegotiateFdReply
    }

    /// Takes from the buffer the bytes that the socket accepted.
    fn flush_buffer(&mut self, written: usize)
        requires
            written <= old(self)@.buffer.len(),
        ensures
            final(self)@ == (ClientState { buffer: old(self)@.buffer.skip(written as int), ..old(self)@ }),
    {
        proof {
            use_type_invariant(&*self);
        }
        let mut buffer: Vec<u8> = Vec::new();
        core::mem::swap(&mut buffer, &mut self.buffer);
        flush_buffer(&mut buffer, written);
        self.buffer = buffer;
    }

    /// Adds to the buffer the bytes that the socket delivered, and tells
    /// whether a whole line has been collected.
    fn read_command(&mut self, received: Vec<u8>) -> (complete: bool)
        ensures
            final(self)@ == (ClientState { buffer: old(self)@.buffer + received@, ..old(self)@ }),
            complete == ends_with_crlf(final(self)@.buffer),
    {
        proof {
            use_type_invariant(&*self);
        }
        let mut buffer: Vec<u8> = Vec::new();
        core::mem::swap(&mut buffer, &mut self.buffer);
        let complete = read_command(&mut buffer, received);
        self.buffer = buffer;
        complete
    }

    /// Where a sending phase stands.
    fn sending(&mut self, next: ClientHandshakeStep) -> (res: Result<Action, Error>)
        requires
            old(self)@.step == ClientHandshakeStep::SendingAuth && next
                == ClientHandshakeStep::WaitAuthReply || old(self)@.step
                == ClientHandshakeStep::SendingNegotiateFd && next
                == ClientHandshakeStep::WaitNegotiateFdReply,
        ensures
            client_sending(old(self)@, next) == (final(self)@, res),
    {
        proof {
            use_type_invariant(&*self);
        }
        if self.buffer.len() > 0 {
            Ok(Action::Send)
        } else {
            self.step = next;
            Ok(Action::Receive(LINE_CHUNK))
        }
    }

    /// Goes as far as the handshake gets without the socket.
    fn settle(&mut self, uid: u32) -> (res: Result<Action, Error>)
        ensures
            client_settle(old(self)@, uid) == (final(self)@, res),
    {
        proof {
            use_type_invariant(&*self);
        }
        match self.step {
            ClientHandshakeStep::Init => {
                let mut line = literal("\0AUTH EXTERNAL ");
                let mut hex = encode_uid(uid);
                let mut end = literal("\r\n");
                line.append(&mut hex);
                line.append(&mut end);
                self.buffer = line;
                self.step = ClientHandshakeStep::SendingAuth;
                Ok(Action::Send)
            },
            ClientHandshakeStep::SendingAuth => self.sending(ClientHandshakeStep::WaitAuthReply),
            ClientHandshakeStep::WaitAuthReply => {
                if !has_line(self.buffer.as_slice()) {
                    return Ok(Action::Receive(LINE_CHUNK));
                }
                match parse_auth_reply(take_first_line(self.buffer.as_slice())) {
                    Some(guid) => {
                        *self = ClientCore {
                            buffer: literal("NEGOTIATE_UNIX_FD\r\n"),
                            step: ClientHandshakeStep::SendingNegotiateFd,
                            server_guid: Some(guid),
                            cap_unix_fd: self.cap_unix_fd,
                        };
                        Ok(Action::Send)
                    },
                    None => Err(Error::UnexpectedAuthReply),
                }
            },
            ClientHandshakeStep::SendingNegotiateFd => self.sending(
                ClientHandshakeStep::WaitNegotiateFdReply,
            ),
            ClientHandshakeStep::WaitNegotiateFdReply => {
                if !has_line(self.buffer.as_slice()) {
                    return Ok(Action::Receive(LINE_CHUNK));
                }
                match parse_unix_fd_reply(self.buffer.as_slice()) {
                    Some(granted) => {
                        self.buffer = literal("BEGIN\r\n");
                        self.step = ClientHandshakeStep::SendingBegin;
                        self.cap_unix_fd = granted;
                        Ok(Action::Send)
                    },
                    None => Err(Error::UnexpectedUnixFdReply),
                }
            },
            ClientHandshakeStep::SendingBegin => {
                if self.buffer.len() > 0 {
                    Ok(Action::Send)
                } else {
                    self.step = ClientHandshakeStep::Done;
                    Ok(Action::Done)
                }
            },
            ClientHandshakeStep::Done => Ok(Action::Done),
        }
    }

    /// Takes `event` in, then goes as far as the handshake gets without the
    /// socket.
    fn advance(&mut self, uid: u32, event: Event) -> (res: Result<Action, Error>)
        requires
            client_accepts(old(self)@, event@),
        ensures
            client_advance(old(self)@, event@, uid) == (final(self)@, res),
    {
        match event {
            Event::Resume => {},
            Event::Sent(n) => {
                if self.is_sending() {
                    self.flush_buffer(n);
                }
            },
            Event::Received(bytes) => {
                if self.is_waiting() {
                    self.read_command(bytes);
                }
            },
        }
        self.settle(uid)
    }
}

/// The user that this process runs as.
///
/// This is `nix::unistd::Uid::current`, which asks the operating system for
/// the real user id of the calling process. Nothing is claimed of the
/// result: it is whatever the system says.
#[verifier::external_body]
fn current_uid() -> (uid: u32) {
    nix::unistd::Uid::current().as_raw()
}

/// A handshake in progress on the client's side of the socket `S`.
pub struct ClientHandshake<S> {
    socket: S,
    core: ClientCore,
}

/// The result of a completed handshake on the client's side.
pub struct InitializedClient<S> {
    /// The connection, ready for messages.
    pub cx: S,
    /// The identifier of the server.
    pub server_guid: Guid,
    /// Whether the server granted the passing of file descriptors.
    pub cap_unix_fd: bool,
}

impl<S> View for ClientHandshake<S> {
    type V = ClientState;

    closed spec fn view(&self) -> ClientState {
        self.core@
    }
}

impl<S> ClientHandshake<S> {
    /// The socket that the handshake holds.
    pub closed spec fn spec_socket(&self) -> S {
        self.socket
    }

    /// Starts a handshake on `socket`.
    pub fn new(socket: S) -> (handshake: ClientHandshake<S>)
        ensures
            handshake@ == client_initial(),
            handshake.spec_socket() == socket,
            client_well_formed(handshake@),
    {
        ClientHandshake {
            socket,
            core: ClientCore {
                buffer: Vec::new(),
                step: ClientHandshakeStep::Init,
                server_guid: None,
                cap_unix_fd: false,
            },
        }
    }

    /// Advances the handshake of a client that runs as the user `uid`.
    ///
    /// `event` tells what came of the operation that the last call asked
    /// for; it is [`Event::Resume`] on the first call and whenever the
    /// operation could not be performed yet. The handshake takes the event
    /// in, goes on as far as it can without the socket, and returns the
    /// operation it needs next. [`Action::Done`] says that the handshake is
    /// complete and that [`try_finish`](Self::try_finish) will succeed.
    ///
    /// Any answer of the server that the client does not expect is a
    /// violation, and leaves the handshake where it was.
    pub fn advance_as(&mut self, uid: u32, event: Event) -> (res: Result<Action, Error>)
        requires
            client_accepts(old(self)@, event@),
        ensures
            client_advance(old(self)@, event@, uid) == (final(self)@, res),
            final(self).spec_socket() == old(self).spec_socket(),
            client_well_formed(final(self)@),
    {
        let res = self.core.advance(uid, event);
        proof {
            use_type_invariant(&self.core);
        }
        res
    }

    /// Advances the handshake of a client that runs as the user of this
    /// process. See [`advance_as`](Self::advance_as), which this is for some
    /// user id: the one that the operating system reports.
    pub fn advance_handshake(&mut self, event: Event) -> (res: Result<Action, Error>)
        requires
            client_accepts(old(self)@, event@),
        ensures
            exists|uid: u32| #[trigger]
                client_advance(old(self)@, event@, uid) == (final(self)@, res),
            final(self).spec_socket() == old(self).spec_socket(),
            client_well_formed(final(self)@),
    {
        let uid = current_uid();
        self.advance_as(uid, event)
    }

    /// Turns the handshake into its result. This succeeds once the handshake
    /// is complete; before that, the handshake is handed back as it was.
    pub fn try_finish(self) -> (res: Result<InitializedClient<S>, ClientHandshake<S>>)
        ensures
            self@.step == ClientHandshakeStep::Done ==> (res matches Ok(done) && done.cx
                == self.spec_socket() && Some(done.server_guid@) == self@.server_guid
                && done.cap_unix_fd == self@.cap_unix_fd),
            self@.step != ClientHandshakeStep::Done ==> res == Err::<
                InitializedClient<S>,
                ClientHandshake<S>,
            >(self),
    {
        proof {
            use_type_invariant(&self.core);
        }
        if self.core.step == ClientHandshakeStep::Done {
            let ClientHandshake { socket, core } = self;
            match core.server_guid {
                Some(server_guid) => Ok(
                    InitializedClient { cx: socket, server_guid, cap_unix_fd: core.cap_unix_fd },
                ),
                None => Err(ClientHandshake { socket, core }),
            }
        } else {
            Err(self)
        }
    }

    /// The direction in which the socket must become ready before the
    /// operation that the handshake waits for can be performed; `None`
    /// before the handshake has started and once it is complete.
    pub fn pending_io(&self) -> (direction: Option<Direction>)
        ensures
            direction == self@.step.direction(),
    {
        if self.core.is_sending() {
            Some(Direction::Writable)
        } else if self.core.is_waiting() {
            Some(Direction::Readable)
        } else {
            None
        }
    }

    /// The current phase.
    pub fn step(&self) -> (step: ClientHandshakeStep)
        ensures
            step == self@.step,
    {
        self.core.step
    }

    /// The bytes in the buffer: while a line is sent, what is left to send.
    pub fn buffer(&self) -> (bytes: &[u8])
        ensures
            bytes@ == self@.buffer,
    {
        self.core.buffer.as_slice()
    }

    /// The socket.
    pub fn socket(&self) -> (socket: &S)
        ensures
            *socket == self.spec_socket(),
    {
        &self.socket
    }

    /// The socket, to perform on it the operation that the handshake asked
    /// for. The handshake itself stays as it is.
    pub fn socket_mut(&mut self) -> (socket: &mut S)
        ensures
            *socket == old(self).spec_socket(),
            final(self).spec_socket() == *final(socket),
            final(self)@ == old(self)@,
    {
        &mut self.socket
    }
}

} // verus!
