//! What holds of a handshake over several advances, and of a client and a
//! server that talk to each other.

use vstd::prelude::*;
use vstd::string::*;

use crate::client::{
    client_advance, client_at, client_initial, client_request, client_well_formed,
    ClientHandshakeStep, ClientState,
};
use crate::command::{
    lemma_reads_agree_unix_fd, lemma_reads_auth_request, lemma_reads_begin,
    lemma_reads_negotiate_unix_fd, lemma_reads_ok,
};
use crate::error::Error;
use crate::guid::valid_guid;
use crate::io::{Action, EventView, LINE_CHUNK};
use crate::server::{
    server_advance, server_at, server_initial, server_reply, ServerHandshakeStep, ServerState,
};
use crate::uid::{
    decoded_uid, encoded_uid, lemma_decode_inverts_encode, lemma_encoded_uid_is_word,
};
use crate::wire::{
    agree_unix_fd_line, ascii, auth_line, auth_request, begin_line, ends_with_crlf,
    has_no_space, negotiate_unix_fd_line, ok_line, rejected_line, unsupported_line,
};

verus! {

/// The lines that either side writes are not empty, and the first bytes of a
/// client are the NUL byte and the authentication request.
pub proof fn lemma_lines_are_not_empty(hex_uid: Seq<u8>, guid: Seq<u8>)
    ensures
        auth_line(hex_uid) == seq![0u8] + auth_request(hex_uid),
        auth_request(hex_uid).len() > 0,
        ok_line(guid).len() > 0,
        rejected_line().len() > 0,
        unsupported_line().len() > 0,
        agree_unix_fd_line().len() > 0,
        negotiate_unix_fd_line().len() > 0,
        begin_line().len() > 0,
{
    reveal_strlit("\0AUTH EXTERNAL ");
    reveal_strlit("AUTH EXTERNAL ");
    reveal_strlit("OK ");
    reveal_strlit("REJECTED EXTERNAL\r\n");
    reveal_strlit("ERROR Unsupported command\r\n");
    reveal_strlit("AGREE_UNIX_FD\r\n");
    reveal_strlit("NEGOTIATE_UNIX_FD\r\n");
    reveal_strlit("BEGIN\r\n");
    broadcast use is_ascii_spec_bytes;
    assert(is_ascii("\0AUTH EXTERNAL "));
    assert(is_ascii("AUTH EXTERNAL "));
    assert(is_ascii("OK "));
    assert(is_ascii("REJECTED EXTERNAL\r\n"));
    assert(is_ascii("ERROR Unsupported command\r\n"));
    assert(is_ascii("AGREE_UNIX_FD\r\n"));
    assert(is_ascii("NEGOTIATE_UNIX_FD\r\n"));
    assert(is_ascii("BEGIN\r\n"));
    assert(ascii("\0AUTH EXTERNAL ") =~= seq![0u8] + ascii("AUTH EXTERNAL "));
    assert(auth_line(hex_uid) =~= seq![0u8] + auth_request(hex_uid));
}

/// A client that is advanced again while nothing has happened on the socket
/// stays where it is and asks for the same operation, or reports the same
/// violation: no phase is entered twice and no byte of the buffer is touched.
pub proof fn lemma_client_resumes_in_place(s: ClientState, uid: u32)
    ensures
        ({
            let (next, res) = client_advance(s, EventView::Resume, uid);
            client_advance(next, EventView::Resume, uid) == (next, res)
        }),
{
    lemma_lines_are_not_empty(encoded_uid(uid), Seq::empty());
}

/// A server that is advanced again while nothing has happened on the socket
/// stays where it is and asks for the same operation, or reports the same
/// violation.
pub proof fn lemma_server_resumes_in_place(s: ServerState)
    ensures
        ({
            let (next, res) = server_advance(s, EventView::Resume);
            server_advance(next, EventView::Resume) == (next, res)
        }),
{
    lemma_lines_are_not_empty(Seq::empty(), s.server_guid);
}

/// A line that a client sends in two partial writes leaves the buffer as it
/// does in one: after the first write, the bytes that were taken and the
/// bytes that are left are the line, and the second write goes on from
/// there.
pub proof fn lemma_client_partial_writes(s: ClientState, uid: u32, first: nat, second: nat)
    requires
        s.step.is_sending(),
        first + second <= s.buffer.len(),
    ensures
        ({
            let (mid, _) = client_advance(s, EventView::Sent(first), uid);
            &&& s.buffer.take(first as int) + mid.buffer == s.buffer
            &&& client_advance(mid, EventView::Sent(second), uid) == client_advance(
                s,
                EventView::Sent(first + second),
                uid,
            )
        }),
{
    let (mid, _) = client_advance(s, EventView::Sent(first), uid);
    assert(s.buffer.take(first as int) + s.buffer.skip(first as int) =~= s.buffer);
    assert(s.buffer.skip(first as int).skip(second as int) =~= s.buffer.skip(
        (first + second) as int,
    ));
    if first == s.buffer.len() {
        assert(s.buffer.skip((first + second) as int) =~= s.buffer.skip(first as int));
    }
}

/// A line that a server sends in two partial writes leaves the buffer as it
/// does in one.
pub proof fn lemma_server_partial_writes(s: ServerState, first: nat, second: nat)
    requires
        s.step.is_sending(),
        first + second <= s.buffer.len(),
    ensures
        ({
            let (mid, _) = server_advance(s, EventView::Sent(first));
            &&& s.buffer.take(first as int) + mid.buffer == s.buffer
            &&& server_advance(mid, EventView::Sent(second)) == server_advance(
                s,
                EventView::Sent(first + second),
            )
        }),
{
    let (mid, _) = server_advance(s, EventView::Sent(first));
    assert(s.buffer.take(first as int) + s.buffer.skip(first as int) =~= s.buffer);
    assert(s.buffer.skip(first as int).skip(second as int) =~= s.buffer.skip(
        (first + second) as int,
    ));
    if first == s.buffer.len() {
        assert(s.buffer.skip((first + second) as int) =~= s.buffer.skip(first as int));
    }
}

/// What holds of a client handshake when it starts holds after every
/// advance.
pub proof fn lemma_client_stays_well_formed(s: ClientState, event: EventView, uid: u32)
    requires
        client_well_formed(s),
    ensures
        client_well_formed(client_initial()),
        client_well_formed(client_advance(s, event, uid).0),
{
}

/// A server keeps the identifier it was made with, and the user it expects.
pub proof fn lemma_server_keeps_identity(s: ServerState, event: EventView)
    ensures
        server_advance(s, event).0.server_guid == s.server_guid,
        server_advance(s, event).0.client_uid == s.client_uid,
{
}

/// The operation that a client asks for is the one that its phase waits
/// for: it asks to send while it has bytes to send, to receive while it
/// collects a line, and for nothing once it is complete. A client that asks
/// for an operation has started and is not complete.
pub proof fn lemma_client_action_matches_step(s: ClientState, event: EventView, uid: u32)
    ensures
        ({
            let (next, res) = client_advance(s, event, uid);
            &&& res == Ok::<Action, Error>(Action::Send) ==> next.step.is_sending()
                && next.buffer.len() > 0
            &&& (res matches Ok(Action::Receive(limit)) ==> next.step.is_waiting() && limit
                == LINE_CHUNK && !ends_with_crlf(next.buffer))
            &&& res == Ok::<Action, Error>(Action::Done) <==> next.step
                == ClientHandshakeStep::Done
            &&& res is Err ==> next.step.is_waiting() && ends_with_crlf(next.buffer)
        }),
{
    lemma_lines_are_not_empty(encoded_uid(uid), Seq::empty());
}

/// The operation that a server asks for is the one that its phase waits
/// for: it asks to send while it has bytes to send, to receive while it
/// waits for the first byte or collects a line, and for nothing once it is
/// complete.
pub proof fn lemma_server_action_matches_step(s: ServerState, event: EventView)
    ensures
        ({
            let (next, res) = server_advance(s, event);
            &&& res == Ok::<Action, Error>(Action::Send) ==> next.step.is_sending()
                && next.buffer.len() > 0
            &&& (res matches Ok(Action::Receive(limit)) ==> next.step.is_waiting() && limit == (
            if next.step == ServerHandshakeStep::WaitingForNull {
                1usize
            } else {
                LINE_CHUNK
            }))
            &&& res == Ok::<Action, Error>(Action::Done) <==> next.step
                == ServerHandshakeStep::Done
            &&& res is Err ==> next.step.is_waiting()
        }),
{
    lemma_lines_are_not_empty(Seq::empty(), s.server_guid);
}

/// The user that a client runs as matters to its first advance only.
pub proof fn lemma_uid_matters_at_start_only(s: ClientState, event: EventView, uid: u32, other: u32)
    requires
        s.step != ClientHandshakeStep::Init,
    ensures
        client_advance(s, event, uid) == client_advance(s, event, other),
{
}

/// A server that waits for the first byte of a connection and receives
/// another byte than NUL reports a violation, and stays as it is.
pub proof fn lemma_first_byte_must_be_nul(s: ServerState, bytes: Seq<u8>)
    requires
        s.step == ServerHandshakeStep::WaitingForNull,
        bytes.len() > 0,
        bytes[0] != 0,
    ensures
        server_advance(s, EventView::Received(bytes)) == (s, Err::<Action, Error>(Error::FirstByteNotNul)),
{
}

/// A server that waits for an authentication request and receives one for
/// another user than the one it expects, or one whose id text stands for no
/// user, answers with the rejection line and nothing else. Once that line
/// is sent, the server waits for an authentication request as before.
pub proof fn lemma_other_user_is_rejected(s: ServerState, word: Seq<u8>)
    requires
        s.step == ServerHandshakeStep::WaitingForAuth,
        s.buffer == Seq::<u8>::empty(),
        word.len() > 0,
        has_no_space(word),
        decoded_uid(word) != Some(s.client_uid),
    ensures
        ({
            let rejecting = server_reply(s, ServerHandshakeStep::SendingAuthError, rejected_line());
            &&& server_advance(s, EventView::Received(auth_request(word))) == (
                rejecting,
                Ok::<Action, Error>(Action::Send),
            )
            &&& server_advance(rejecting, EventView::Sent(rejected_line().len())) == (
                s,
                Ok::<Action, Error>(Action::Receive(LINE_CHUNK)),
            )
        }),
{
    lemma_reads_auth_request(word);
    assert(s.buffer + auth_request(word) =~= auth_request(word));
    assert(rejected_line().skip(rejected_line().len() as int) =~= Seq::<u8>::empty());
}

/// A server that waits for an authentication request and receives one for
/// the user it expects answers with its identifier.
pub proof fn lemma_expected_user_is_accepted(s: ServerState)
    requires
        s.step == ServerHandshakeStep::WaitingForAuth,
        s.buffer == Seq::<u8>::empty(),
    ensures
        server_advance(s, EventView::Received(auth_request(encoded_uid(s.client_uid)))) == (
            server_reply(s, ServerHandshakeStep::SendingAuthOk, ok_line(s.server_guid)),
            Ok::<Action, Error>(Action::Send),
        ),
{
    let word = encoded_uid(s.client_uid);
    lemma_encoded_uid_is_word(s.client_uid);
    lemma_decode_inverts_encode(s.client_uid);
    lemma_reads_auth_request(word);
    assert(s.buffer + auth_request(word) =~= auth_request(word));
}

/// A client that was rejected for asking as the wrong user can ask again:
/// the same server accepts a second request that names the expected user.
pub proof fn lemma_retry_after_rejection(s: ServerState, wrong: u32)
    requires
        s.step == ServerHandshakeStep::WaitingForAuth,
        s.buffer == Seq::<u8>::empty(),
        wrong != s.client_uid,
    ensures
        ({
            let (s1, r1) = server_advance(
                s,
                EventView::Received(auth_request(encoded_uid(wrong))),
            );
            let (s2, r2) = server_advance(s1, EventView::Sent(s1.buffer.len()));
            let (s3, r3) = server_advance(
                s2,
                EventView::Received(auth_request(encoded_uid(s.client_uid))),
            );
            &&& s1 == server_reply(s, ServerHandshakeStep::SendingAuthError, rejected_line())
            &&& r1 == Ok::<Action, Error>(Action::Send)
            &&& s2 == s
            &&& r2 == Ok::<Action, Error>(Action::Receive(LINE_CHUNK))
            &&& s3 == server_reply(s, ServerHandshakeStep::SendingAuthOk, ok_line(s.server_guid))
            &&& r3 == Ok::<Action, Error>(Action::Send)
        }),
{
    lemma_encoded_uid_is_word(wrong);
    lemma_decode_inverts_encode(wrong);
    lemma_other_user_is_rejected(s, encoded_uid(wrong));
    lemma_expected_user_is_accepted(s);
}

/// The server's side of a handshake in which the client, once accepted,
/// begins at once.
pub open spec fn server_run_without_negotiation(guid: Seq<u8>, uid: u32) -> ServerState {
    let s0 = server_initial(guid, uid);
    let s1 = server_advance(s0, EventView::Received(seq![0u8])).0;
    let s2 = server_advance(s1, EventView::Received(auth_request(encoded_uid(uid)))).0;
    let s3 = server_advance(s2, EventView::Sent(s2.buffer.len())).0;
    server_advance(s3, EventView::Received(begin_line())).0
}

/// A server whose client begins right after it was accepted completes the
/// handshake, and has not granted the passing of file descriptors.
pub proof fn lemma_begin_without_negotiation(guid: Seq<u8>, uid: u32)
    ensures
        server_run_without_negotiation(guid, uid) == (ServerState {
            step: ServerHandshakeStep::Done,
            buffer: begin_line(),
            server_guid: guid,
            cap_unix_fd: false,
            client_uid: uid,
        }),
{
    let s0 = server_initial(guid, uid);
    let s1 = server_advance(s0, EventView::Received(seq![0u8])).0;
    assert(s0.buffer + seq![0u8].skip(1) =~= Seq::<u8>::empty());
    assert(s1 == server_at(s0, ServerHandshakeStep::WaitingForAuth));
    lemma_expected_user_is_accepted(s1);
    let s2 = server_advance(s1, EventView::Received(auth_request(encoded_uid(uid)))).0;
    let s3 = server_advance(s2, EventView::Sent(s2.buffer.len())).0;
    assert(s2.buffer.skip(s2.buffer.len() as int) =~= Seq::<u8>::empty());
    assert(s3 == server_at(s0, ServerHandshakeStep::WaitingForBegin));
    lemma_reads_begin();
    assert(s3.buffer + begin_line() =~= begin_line());
}

/// A handshake between a fresh client that runs as the user `uid` and a
/// fresh server that expects that user and has the identifier `guid`. Each
/// line reaches the other side whole, the first byte of the client ahead of
/// its request. The result is the state of either side once the last line
/// has arrived.
pub open spec fn loopback_run(uid: u32, guid: Seq<u8>) -> (ClientState, ServerState) {
    let c0 = client_initial();
    let s0 = server_initial(guid, uid);
    // The client writes the NUL byte and its request; the server reads both.
    let c1 = client_advance(c0, EventView::Resume, uid).0;
    let s1 = server_advance(s0, EventView::Received(c1.buffer.take(1))).0;
    let s2 = server_advance(s1, EventView::Received(c1.buffer.skip(1))).0;
    let c2 = client_advance(c1, EventView::Sent(c1.buffer.len()), uid).0;
    // The server writes its answer; the client reads it.
    let c3 = client_advance(c2, EventView::Received(s2.buffer), uid).0;
    let s3 = server_advance(s2, EventView::Sent(s2.buffer.len())).0;
    // The client asks for the passing of file descriptors.
    let s4 = server_advance(s3, EventView::Received(c3.buffer)).0;
    let c4 = client_advance(c3, EventView::Sent(c3.buffer.len()), uid).0;
    // The server grants it.
    let c5 = client_advance(c4, EventView::Received(s4.buffer), uid).0;
    let s5 = server_advance(s4, EventView::Sent(s4.buffer.len())).0;
    // The client begins.
    let s6 = server_advance(s5, EventView::Received(c5.buffer)).0;
    let c6 = client_advance(c5, EventView::Sent(c5.buffer.len()), uid).0;
    (c6, s6)
}

/// A fresh client and a fresh server that expects the client's user complete
/// the handshake on both sides. The client has learnt the server's
/// identifier, and both hold that the passing of file descriptors is
/// granted.
pub proof fn lemma_handshake_completes(uid: u32, guid: Seq<u8>)
    requires
        valid_guid(guid),
    ensures
        ({
            let (client, server) = loopback_run(uid, guid);
            &&& client.step == ClientHandshakeStep::Done
            &&& server.step == ServerHandshakeStep::Done
            &&& client.server_guid == Some(server.server_guid)
            &&& server.server_guid == guid
            &&& client.cap_unix_fd
            &&& server.cap_unix_fd
        }),
{
    let hex = encoded_uid(uid);
    lemma_lines_are_not_empty(hex, guid);
    let c0 = client_initial();
    let s0 = server_initial(guid, uid);
    let c1 = client_advance(c0, EventView::Resume, uid).0;
    assert(c1 == client_request(c0, ClientHandshakeStep::SendingAuth, auth_line(hex)));
    assert(c1.buffer.take(1) =~= seq![0u8]);
    assert(c1.buffer.skip(1) =~= auth_request(hex));
    let s1 = server_advance(s0, EventView::Received(c1.buffer.take(1))).0;
    assert(s0.buffer + seq![0u8].skip(1) =~= Seq::<u8>::empty());
    assert(s1 == server_at(s0, ServerHandshakeStep::WaitingForAuth));
    lemma_expected_user_is_accepted(s1);
    let s2 = server_advance(s1, EventView::Received(c1.buffer.skip(1))).0;
    assert(s2 == server_reply(s0, ServerHandshakeStep::SendingAuthOk, ok_line(guid)));
    let c2 = client_advance(c1, EventView::Sent(c1.buffer.len()), uid).0;
    assert(c1.buffer.skip(c1.buffer.len() as int) =~= Seq::<u8>::empty());
    assert(c2 == client_at(c0, ClientHandshakeStep::WaitAuthReply));
    lemma_reads_ok(guid);
    assert(c2.buffer + ok_line(guid) =~= ok_line(guid));
    let c3 = client_advance(c2, EventView::Received(s2.buffer), uid).0;
    assert(c3 == ClientState {
        step: ClientHandshakeStep::SendingNegotiateFd,
        buffer: negotiate_unix_fd_line(),
        server_guid: Some(guid),
        cap_unix_fd: false,
    });
    let s3 = server_advance(s2, EventView::Sent(s2.buffer.len())).0;
    assert(s2.buffer.skip(s2.buffer.len() as int) =~= Seq::<u8>::empty());
    assert(s3 == server_at(s0, ServerHandshakeStep::WaitingForBegin));
    lemma_reads_negotiate_unix_fd();
    assert(s3.buffer + negotiate_unix_fd_line() =~= negotiate_unix_fd_line());
    let s4 = server_advance(s3, EventView::Received(c3.buffer)).0;
    assert(s4 == ServerState {
        step: ServerHandshakeStep::SendingBeginReply,
        buffer: agree_unix_fd_line(),
        server_guid: guid,
        cap_unix_fd: true,
        client_uid: uid,
    });
    let c4 = client_advance(c3, EventView::Sent(c3.buffer.len()), uid).0;
    assert(c3.buffer.skip(c3.buffer.len() as int) =~= Seq::<u8>::empty());
    assert(c4 == ClientState {
        step: ClientHandshakeStep::WaitNegotiateFdReply,
        buffer: Seq::empty(),
        server_guid: Some(guid),
        cap_unix_fd: false,
    });
    lemma_reads_agree_unix_fd();
    assert(c4.buffer + agree_unix_fd_line() =~= agree_unix_fd_line());
    let c5 = client_advance(c4, EventView::Received(s4.buffer), uid).0;
    assert(c5 == ClientState {
        step: ClientHandshakeStep::SendingBegin,
        buffer: begin_line(),
        server_guid: Some(guid),
        cap_unix_fd: true,
    });
    let s5 = server_advance(s4, EventView::Sent(s4.buffer.len())).0;
    assert(s4.buffer.skip(s4.buffer.len() as int) =~= Seq::<u8>::empty());
    assert(s5 == ServerState {
        step: ServerHandshakeStep::WaitingForBegin,
        buffer: Seq::empty(),
        server_guid: guid,
        cap_unix_fd: true,
        client_uid: uid,
    });
    lemma_reads_begin();
    assert(s5.buffer + begin_line() =~= begin_line());
    let s6 = server_advance(s5, EventView::Received(c5.buffer)).0;
    assert(s6.step == ServerHandshakeStep::Done);
    let c6 = client_advance(c5, EventView::Sent(c5.buffer.len()), uid).0;
    assert(c5.buffer.skip(c5.buffer.len() as int) =~= Seq::<u8>::empty());
    assert(c6.step == ClientHandshakeStep::Done);
}

} // verus!
