//! The grammar of the handshake: what each side reads in a line that the
//! other has sent.

use vstd::prelude::*;
use vstd::string::*;

use crate::guid::{lemma_guid_is_word, valid_guid, Guid};
use crate::uid::{decode_uid, decoded_uid};
use crate::wire::{
    agree_unix_fd_line, ascii, auth_request, begin_line, ends_with_crlf, first_line,
    has_no_space, is_space, is_word, lemma_first_line, lemma_words_of_spaces,
    lemma_words_prepend, lemma_words_skip_space, negotiate_unix_fd_line, ok_line, split_words,
    starts_with, words, CR, LF,
};

verus! {

/// What a line asks of a server that waits for a client to authenticate.
#[derive(Clone, Copy, Debug, PartialEq, Eq, Structural)]
pub enum AuthCommand {
    /// `AUTH EXTERNAL` and one more word. The value is the user id that the
    /// word stands for, if it stands for one.
    External(Option<u32>),
    /// Any other line whose first word is `AUTH` or `ERROR`.
    Invalid,
    /// The single word `BEGIN`.
    Begin,
    /// Anything else.
    Unknown,
}

/// What a line asks of a server that has accepted a client.
#[derive(Clone, Copy, Debug, PartialEq, Eq, Structural)]
pub enum BeginCommand {
    /// The single word `BEGIN`.
    Begin,
    /// The single word `CANCEL`, or a line whose first word is `ERROR`.
    Cancel,
    /// The single word `NEGOTIATE_UNIX_FD`.
    NegotiateUnixFd,
    /// Anything else.
    Unknown,
}

/// The command that `line` holds for a server that waits for a client to
/// authenticate.
pub open spec fn auth_command(line: Seq<u8>) -> AuthCommand {
    let ws = words(line);
    if ws.len() == 3 && ws[0] == ascii("AUTH") && ws[1] == ascii("EXTERNAL") {
        AuthCommand::External(decoded_uid(ws[2]))
    } else if ws.len() >= 1 && (ws[0] == ascii("AUTH") || ws[0] == ascii("ERROR")) {
        AuthCommand::Invalid
    } else if ws.len() == 1 && ws[0] == ascii("BEGIN") {
        AuthCommand::Begin
    } else {
        AuthCommand::Unknown
    }
}

/// The command that `line` holds for a server that has accepted a client.
pub open spec fn begin_command(line: Seq<u8>) -> BeginCommand {
    let ws = words(line);
    if ws.len() == 1 && ws[0] == ascii("BEGIN") {
        BeginCommand::Begin
    } else if ws.len() == 1 && ws[0] == ascii("CANCEL") {
        BeginCommand::Cancel
    } else if ws.len() >= 1 && ws[0] == ascii("ERROR") {
        BeginCommand::Cancel
    } else if ws.len() == 1 && ws[0] == ascii("NEGOTIATE_UNIX_FD") {
        BeginCommand::NegotiateUnixFd
    } else {
        BeginCommand::Unknown
    }
}

/// The text of the bus identifier in `line`, where `line` accepts an
/// authentication request: the word `OK` and the text of an identifier,
/// nothing more.
pub open spec fn auth_reply(line: Seq<u8>) -> Option<Seq<u8>> {
    let ws = words(line);
    if ws.len() == 2 && ws[0] == ascii("OK") && valid_guid(ws[1]) {
        Some(ws[1])
    } else {
        None
    }
}

/// Whether the passing of file descriptors is granted by the reply that
/// `buffer` holds: `Some(true)` where it begins with `AGREE_UNIX_FD`,
/// `Some(false)` where it begins with `ERROR`, and `None` where it is no
/// reply to the request.
pub open spec fn unix_fd_reply(buffer: Seq<u8>) -> Option<bool> {
    if ascii("AGREE_UNIX_FD").is_prefix_of(buffer) {
        Some(true)
    } else if ascii("ERROR").is_prefix_of(buffer) {
        Some(false)
    } else {
        None
    }
}

/// A line made of `body` and a line terminator is complete, and its first
/// line has the words of `body`, where `body` holds no line feed.
pub proof fn lemma_terminated_line(body: Seq<u8>)
    requires
        forall|i: int| 0 <= i < body.len() ==> #[trigger] body[i] != LF,
    ensures
        ends_with_crlf(body + ascii("\r\n")),
        words(first_line(body + ascii("\r\n"))) == words(body + seq![CR]),
{
    reveal_strlit("\r\n");
    broadcast use is_ascii_spec_bytes;
    assert(is_ascii("\r\n"));
    let end = ascii("\r\n");
    assert(end =~= seq![CR, LF]);
    let line = body + end;
    let head = body + seq![CR];
    assert(line =~= head.push(LF) + Seq::<u8>::empty());
    assert forall|i: int| 0 <= i < head.len() implies #[trigger] head[i] != LF by {
        if i < body.len() {
            assert(head[i] == body[i]);
        }
    }
    lemma_first_line(head, Seq::<u8>::empty());
}

/// A line that holds one word and a line terminator is read as that word.
pub proof fn lemma_one_word_line(word: Seq<u8>)
    requires
        word.len() > 0,
        has_no_space(word),
    ensures
        ends_with_crlf(word + ascii("\r\n")),
        words(first_line(word + ascii("\r\n"))) == seq![word],
{
    assert forall|i: int| 0 <= i < word.len() implies #[trigger] word[i] != LF by {
        assert(!is_space(word[i]));
    }
    lemma_terminated_line(word);
    lemma_words_of_spaces(seq![CR]);
    lemma_words_prepend(word, seq![CR]);
    assert(seq![word] + Seq::<Seq<u8>>::empty() =~= seq![word]);
}

/// A server that waits for authentication reads the request that a client
/// writes for the id text `word` as that request.
pub proof fn lemma_reads_auth_request(word: Seq<u8>)
    requires
        word.len() > 0,
        has_no_space(word),
    ensures
        ends_with_crlf(auth_request(word)),
        auth_command(first_line(auth_request(word))) == AuthCommand::External(decoded_uid(word)),
{
    reveal_strlit("AUTH EXTERNAL ");
    reveal_strlit("AUTH");
    reveal_strlit("EXTERNAL");
    broadcast use is_ascii_spec_bytes;
    assert(is_ascii("AUTH EXTERNAL "));
    assert(is_ascii("AUTH"));
    assert(is_ascii("EXTERNAL"));
    let auth = ascii("AUTH");
    let external = ascii("EXTERNAL");
    let body = ascii("AUTH EXTERNAL ") + word;
    assert forall|i: int| 0 <= i < body.len() implies #[trigger] body[i] != LF by {
        if i >= 14 {
            assert(body[i] == word[i - 14]);
            assert(!is_space(word[i - 14]));
        }
    }
    lemma_terminated_line(body);
    assert(auth_request(word) =~= body + ascii("\r\n"));
    let tail3 = word + seq![CR];
    let tail2 = seq![0x20u8] + tail3;
    let tail1 = external + tail2;
    let tail0 = seq![0x20u8] + tail1;
    assert(body + seq![CR] =~= auth + tail0);
    lemma_words_of_spaces(seq![CR]);
    lemma_words_prepend(word, seq![CR]);
    lemma_words_skip_space(0x20u8, tail3);
    assert(has_no_space(external));
    lemma_words_prepend(external, tail2);
    lemma_words_skip_space(0x20u8, tail1);
    assert(has_no_space(auth));
    lemma_words_prepend(auth, tail0);
    assert(words(body + seq![CR]) =~= seq![auth, external, word]);
}

/// A server reads the line that a client writes to begin as that command,
/// before it has accepted the client and after.
pub proof fn lemma_reads_begin()
    ensures
        ends_with_crlf(begin_line()),
        auth_command(first_line(begin_line())) == AuthCommand::Begin,
        begin_command(first_line(begin_line())) == BeginCommand::Begin,
{
    reveal_strlit("BEGIN\r\n");
    reveal_strlit("BEGIN");
    reveal_strlit("AUTH");
    reveal_strlit("ERROR");
    reveal_strlit("\r\n");
    broadcast use is_ascii_spec_bytes;
    assert(is_ascii("BEGIN\r\n"));
    assert(is_ascii("BEGIN"));
    assert(is_ascii("AUTH"));
    assert(is_ascii("ERROR"));
    assert(is_ascii("\r\n"));
    let word = ascii("BEGIN");
    assert(has_no_space(word));
    lemma_one_word_line(word);
    assert(begin_line() =~= word + ascii("\r\n"));
    assert(word.len() != ascii("AUTH").len());
    assert(word[0] != ascii("ERROR")[0]);
}

/// A server that has accepted a client reads the line that the client
/// writes to ask for the passing of file descriptors as that command.
pub proof fn lemma_reads_negotiate_unix_fd()
    ensures
        ends_with_crlf(negotiate_unix_fd_line()),
        begin_command(first_line(negotiate_unix_fd_line())) == BeginCommand::NegotiateUnixFd,
{
    reveal_strlit("NEGOTIATE_UNIX_FD\r\n");
    reveal_strlit("NEGOTIATE_UNIX_FD");
    reveal_strlit("BEGIN");
    reveal_strlit("CANCEL");
    reveal_strlit("ERROR");
    reveal_strlit("\r\n");
    broadcast use is_ascii_spec_bytes;
    assert(is_ascii("NEGOTIATE_UNIX_FD\r\n"));
    assert(is_ascii("NEGOTIATE_UNIX_FD"));
    assert(is_ascii("BEGIN"));
    assert(is_ascii("CANCEL"));
    assert(is_ascii("ERROR"));
    assert(is_ascii("\r\n"));
    let word = ascii("NEGOTIATE_UNIX_FD");
    assert(has_no_space(word));
    lemma_one_word_line(word);
    assert(negotiate_unix_fd_line() =~= word + ascii("\r\n"));
    assert(word.len() != ascii("BEGIN").len());
    assert(word.len() != ascii("CANCEL").len());
    assert(word.len() != ascii("ERROR").len());
}

/// A client reads the line that a server writes to accept it as that
/// answer, with the server's identifier.
pub proof fn lemma_reads_ok(guid: Seq<u8>)
    requires
        valid_guid(guid),
    ensures
        ends_with_crlf(ok_line(guid)),
        auth_reply(first_line(ok_line(guid))) == Some(guid),
{
    reveal_strlit("OK ");
    reveal_strlit("OK");
    broadcast use is_ascii_spec_bytes;
    assert(is_ascii("OK "));
    assert(is_ascii("OK"));
    lemma_guid_is_word(guid);
    let ok = ascii("OK");
    let body = ascii("OK ") + guid;
    assert forall|i: int| 0 <= i < body.len() implies #[trigger] body[i] != LF by {
        if i >= 3 {
            assert(body[i] == guid[i - 3]);
            assert(!is_space(guid[i - 3]));
        }
    }
    lemma_terminated_line(body);
    assert(ok_line(guid) =~= body + ascii("\r\n"));
    let tail1 = guid + seq![CR];
    let tail0 = seq![0x20u8] + tail1;
    assert(body + seq![CR] =~= ok + tail0);
    lemma_words_of_spaces(seq![CR]);
    lemma_words_prepend(guid, seq![CR]);
    lemma_words_skip_space(0x20u8, tail1);
    assert(has_no_space(ok));
    lemma_words_prepend(ok, tail0);
    assert(words(body + seq![CR]) =~= seq![ok, guid]);
}

/// A client reads the line that a server writes to grant the passing of file
/// descriptors as a grant.
pub proof fn lemma_reads_agree_unix_fd()
    ensures
        ends_with_crlf(agree_unix_fd_line()),
        unix_fd_reply(agree_unix_fd_line()) == Some(true),
{
    reveal_strlit("AGREE_UNIX_FD\r\n");
    reveal_strlit("AGREE_UNIX_FD");
    broadcast use is_ascii_spec_bytes;
    assert(is_ascii("AGREE_UNIX_FD\r\n"));
    assert(is_ascii("AGREE_UNIX_FD"));
    assert(ascii("AGREE_UNIX_FD") =~= agree_unix_fd_line().subrange(0, 13));
}

/// Reads the command that `line` holds for a server that waits for a client
/// to authenticate.
pub fn parse_auth_command(line: &[u8]) -> (command: AuthCommand)
    ensures
        command == auth_command(line@),
{
    let ws = split_words(line);
    if ws.len() == 3 && is_word(ws[0].as_slice(), "AUTH") && is_word(ws[1].as_slice(), "EXTERNAL") {
        AuthCommand::External(decode_uid(ws[2].as_slice()))
    } else if ws.len() >= 1 && (is_word(ws[0].as_slice(), "AUTH") || is_word(
        ws[0].as_slice(),
        "ERROR",
    )) {
        AuthCommand::Invalid
    } else if ws.len() == 1 && is_word(ws[0].as_slice(), "BEGIN") {
        AuthCommand::Begin
    } else {
        AuthCommand::Unknown
    }
}

/// Reads the command that `line` holds for a server that has accepted a
/// client.
pub fn parse_begin_command(line: &[u8]) -> (command: BeginCommand)
    ensures
        command == begin_command(line@),
{
    let ws = split_words(line);
    if ws.len() == 1 && is_word(ws[0].as_slice(), "BEGIN") {
        BeginCommand::Begin
    } else if ws.len() == 1 && is_word(ws[0].as_slice(), "CANCEL") {
        BeginCommand::Cancel
    } else if ws.len() >= 1 && is_word(ws[0].as_slice(), "ERROR") {
        BeginCommand::Cancel
    } else if ws.len() == 1 && is_word(ws[0].as_slice(), "NEGOTIATE_UNIX_FD") {
        BeginCommand::NegotiateUnixFd
    } else {
        BeginCommand::Unknown
    }
}

/// Reads the bus identifier from a line that accepts an authentication
/// request.
pub fn parse_auth_reply(line: &[u8]) -> (reply: Option<Guid>)
    ensures
        match reply {
            Some(guid) => auth_reply(line@) == Some(guid@),
            None => auth_reply(line@) is None,
        },
{
    let ws = split_words(line);
    if ws.len() == 2 && is_word(ws[0].as_slice(), "OK") {
        Guid::parse(ws[1].as_slice())
    } else {
        None
    }
}

/// Reads the reply to a request for the passing of file descriptors.
pub fn parse_unix_fd_reply(buffer: &[u8]) -> (reply: Option<bool>)
    ensures
        reply == unix_fd_reply(buffer@),
{
    if starts_with(buffer, "AGREE_UNIX_FD") {
        Some(true)
    } else if starts_with(buffer, "ERROR") {
        Some(false)
    } else {
        None
    }
}

} // verus!
