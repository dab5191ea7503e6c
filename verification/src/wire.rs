//! The text that travels during the handshake: how a buffer of received bytes
//! is recognised as a line, and how a line divides into words.
//!
//! Everything here works on bytes. A word is a maximal run of bytes that are
//! not ASCII whitespace; bytes outside ASCII are ordinary word bytes.

use vstd::prelude::*;
use vstd::slice::{slice_subrange, slice_to_vec};
use vstd::string::*;

verus! {

/// Carriage return, the first byte of a line terminator.
pub const CR: u8 = 13;

/// Line feed, the second byte of a line terminator.
pub const LF: u8 = 10;

/// Whether `b` is ASCII whitespace: space, tab, line feed, vertical tab, form
/// feed or carriage return.
pub open spec fn is_space(b: u8) -> bool {
    b == 0x20 || (0x09 <= b && b <= 0x0d)
}

/// Whether `s` ends with a carriage return followed by a line feed.
pub open spec fn ends_with_crlf(s: Seq<u8>) -> bool {
    s.len() >= 2 && s[s.len() - 2] == CR && s[s.len() - 1] == LF
}

/// The number of bytes of `s` that come before its first line feed; the
/// length of `s` if it holds none.
pub open spec fn line_len(s: Seq<u8>) -> nat
    decreases s.len(),
{
    if s.len() == 0 || s[0] == LF {
        0
    } else {
        1 + line_len(s.skip(1))
    }
}

/// The first line of `s`, without its line feed.
pub open spec fn first_line(s: Seq<u8>) -> Seq<u8> {
    s.take(line_len(s) as int)
}

/// The length of the word that `s` starts with: the number of bytes before
/// the first whitespace byte.
pub open spec fn word_len(s: Seq<u8>) -> nat
    decreases s.len(),
{
    if s.len() == 0 || is_space(s[0]) {
        0
    } else {
        1 + word_len(s.skip(1))
    }
}

/// The whitespace-separated words of `s`, in order.
pub open spec fn words(s: Seq<u8>) -> Seq<Seq<u8>>
    decreases s.len(),
    via words_decreases
{
    if s.len() == 0 {
        Seq::empty()
    } else if is_space(s[0]) {
        words(s.skip(1))
    } else {
        seq![s.take(word_len(s) as int)] + words(s.skip(word_len(s) as int))
    }
}

#[via_fn]
proof fn words_decreases(s: Seq<u8>) {
    lemma_word_len_bounds(s);
}

/// Whether no byte of `s` is whitespace.
pub open spec fn has_no_space(s: Seq<u8>) -> bool {
    forall|i: int| 0 <= i < s.len() ==> !is_space(#[trigger] s[i])
}

/// The bytes of an ASCII string.
pub open spec fn ascii(s: &str) -> Seq<u8> {
    s.spec_bytes()
}

/// The line that rejects an authentication attempt.
pub open spec fn rejected_line() -> Seq<u8> {
    ascii("REJECTED EXTERNAL\r\n")
}

/// The line that answers a command the server does not know.
pub open spec fn unsupported_line() -> Seq<u8> {
    ascii("ERROR Unsupported command\r\n")
}

/// The line that grants the passing of file descriptors.
pub open spec fn agree_unix_fd_line() -> Seq<u8> {
    ascii("AGREE_UNIX_FD\r\n")
}

/// The line that asks for the passing of file descriptors.
pub open spec fn negotiate_unix_fd_line() -> Seq<u8> {
    ascii("NEGOTIATE_UNIX_FD\r\n")
}

/// The line that ends the text phase of the connection.
pub open spec fn begin_line() -> Seq<u8> {
    ascii("BEGIN\r\n")
}

/// The line that accepts an authentication attempt; `guid` is the text of
/// the server's identifier.
pub open spec fn ok_line(guid: Seq<u8>) -> Seq<u8> {
    ascii("OK ") + guid + ascii("\r\n")
}

/// The line that asks to be authenticated as the user whose encoded id is
/// `hex_uid`.
pub open spec fn auth_request(hex_uid: Seq<u8>) -> Seq<u8> {
    ascii("AUTH EXTERNAL ") + hex_uid + ascii("\r\n")
}

/// The first bytes a client sends: the NUL byte and the authentication
/// request for the user whose encoded id is `hex_uid`.
pub open spec fn auth_line(hex_uid: Seq<u8>) -> Seq<u8> {
    ascii("\0AUTH EXTERNAL ") + hex_uid + ascii("\r\n")
}

/// A word is never longer than the bytes it is read from, and is not empty
/// where the first byte is no whitespace.
pub proof fn lemma_word_len_bounds(s: Seq<u8>)
    ensures
        word_len(s) <= s.len(),
        s.len() > 0 && !is_space(s[0]) ==> word_len(s) >= 1,
    decreases s.len(),
{
    if s.len() > 0 && !is_space(s[0]) {
        lemma_word_len_bounds(s.skip(1));
    }
}

/// `word_len` is the position of the first whitespace byte.
pub proof fn lemma_word_len_is(s: Seq<u8>, n: int)
    requires
        0 <= n <= s.len(),
        forall|i: int| 0 <= i < n ==> !is_space(#[trigger] s[i]),
        n == s.len() || is_space(s[n]),
    ensures
        word_len(s) == n,
    decreases n,
{
    if n > 0 {
        let t = s.skip(1);
        assert forall|i: int| 0 <= i < n - 1 implies !is_space(#[trigger] t[i]) by {
            assert(t[i] == s[i + 1]);
        }
        lemma_word_len_is(t, n - 1);
    }
}

/// `line_len` is the position of the first line feed.
pub proof fn lemma_line_len_is(s: Seq<u8>, n: int)
    requires
        0 <= n <= s.len(),
        forall|i: int| 0 <= i < n ==> #[trigger] s[i] != LF,
        n == s.len() || s[n] == LF,
    ensures
        line_len(s) == n,
    decreases n,
{
    if n > 0 {
        let t = s.skip(1);
        assert forall|i: int| 0 <= i < n - 1 implies #[trigger] t[i] != LF by {
            assert(t[i] == s[i + 1]);
        }
        lemma_line_len_is(t, n - 1);
    }
}

/// A buffer that holds nothing but whitespace has no words.
pub proof fn lemma_words_of_spaces(s: Seq<u8>)
    requires
        forall|i: int| 0 <= i < s.len() ==> is_space(#[trigger] s[i]),
    ensures
        words(s) == Seq::<Seq<u8>>::empty(),
    decreases s.len(),
{
    if s.len() > 0 {
        let t = s.skip(1);
        assert forall|i: int| 0 <= i < t.len() implies is_space(#[trigger] t[i]) by {
            assert(t[i] == s[i + 1]);
        }
        lemma_words_of_spaces(t);
    }
}

/// A word followed by whitespace, or by nothing, is the first word of the
/// whole, and the other words are those of what follows it.
pub proof fn lemma_words_prepend(word: Seq<u8>, rest: Seq<u8>)
    requires
        word.len() > 0,
        has_no_space(word),
        rest.len() == 0 || is_space(rest[0]),
    ensures
        words(word + rest) == seq![word] + words(rest),
{
    let s = word + rest;
    assert forall|i: int| 0 <= i < word.len() implies !is_space(#[trigger] s[i]) by {
        assert(s[i] == word[i]);
    }
    if rest.len() > 0 {
        assert(s[word.len() as int] == rest[0]);
    }
    lemma_word_len_is(s, word.len() as int);
    assert(s[0] == word[0]);
    assert(s.take(word.len() as int) =~= word);
    assert(s.skip(word.len() as int) =~= rest);
}

/// Whitespace in front of a text adds no word to it.
pub proof fn lemma_words_skip_space(space: u8, rest: Seq<u8>)
    requires
        is_space(space),
    ensures
        words(seq![space] + rest) == words(rest),
{
    let s = seq![space] + rest;
    assert(s[0] == space);
    assert(s.skip(1) =~= rest);
}

/// The first line of a buffer ends before the first line feed.
pub proof fn lemma_first_line(body: Seq<u8>, rest: Seq<u8>)
    requires
        forall|i: int| 0 <= i < body.len() ==> #[trigger] body[i] != LF,
    ensures
        first_line(body.push(LF) + rest) == body,
{
    let s = body.push(LF) + rest;
    assert forall|i: int| 0 <= i < body.len() implies #[trigger] s[i] != LF by {
        assert(s[i] == body[i]);
    }
    assert(s[body.len() as int] == LF);
    lemma_line_len_is(s, body.len() as int);
    assert(s.take(body.len() as int) =~= body);
}

/// Copies the bytes of the ASCII string `s`.
pub fn literal(s: &str) -> (v: Vec<u8>)
    ensures
        v@ == ascii(s),
{
    slice_to_vec(s.as_bytes())
}

/// Tests whether two byte strings hold the same bytes.
pub fn bytes_equal(a: &[u8], b: &[u8]) -> (r: bool)
    ensures
        r == (a@ == b@),
{
    if a.len() != b.len() {
        return false;
    }
    let mut i: usize = 0;
    while i < a.len()
        invariant
            i <= a.len(),
            a.len() == b.len(),
            forall|k: int| 0 <= k < i ==> a@[k] == b@[k],
        decreases a.len() - i,
    {
        if a[i] != b[i] {
            return false;
        }
        i += 1;
    }
    assert(a@ =~= b@);
    true
}

/// Tests whether `word` is the ASCII string `s`.
pub fn is_word(word: &[u8], s: &str) -> (r: bool)
    ensures
        r == (word@ == ascii(s)),
{
    bytes_equal(word, s.as_bytes())
}

/// Tests whether `buffer` begins with the ASCII string `s`.
pub fn starts_with(buffer: &[u8], s: &str) -> (r: bool)
    ensures
        r == ascii(s).is_prefix_of(buffer@),
{
    let prefix = s.as_bytes();
    if prefix.len() > buffer.len() {
        return false;
    }
    bytes_equal(slice_subrange(buffer, 0, prefix.len()), prefix)
}

/// Tests whether `b` is ASCII whitespace.
pub fn is_space_byte(b: u8) -> (r: bool)
    ensures
        r == is_space(b),
{
    b == 0x20 || (0x09 <= b && b <= 0x0d)
}

/// Tests whether `buffer` ends with a line terminator.
pub fn has_line(buffer: &[u8]) -> (r: bool)
    ensures
        r == ends_with_crlf(buffer@),
{
    let n = buffer.len();
    n >= 2 && buffer[n - 2] == CR && buffer[n - 1] == LF
}

/// The first line of `buffer`, without its line feed.
pub fn take_first_line(buffer: &[u8]) -> (line: &[u8])
    ensures
        line@ == first_line(buffer@),
{
    let mut n: usize = 0;
    while n < buffer.len() && buffer[n] != LF
        invariant
            n <= buffer.len(),
            forall|i: int| 0 <= i < n ==> #[trigger] buffer@[i] != LF,
        decreases buffer.len() - n,
    {
        n += 1;
    }
    proof {
        lemma_line_len_is(buffer@, n as int);
    }
    slice_subrange(buffer, 0, n)
}

/// Divides `line` into its whitespace-separated words.
pub fn split_words(line: &[u8]) -> (ws: Vec<Vec<u8>>)
    ensures
        ws@.len() == words(line@).len(),
        forall|k: int| 0 <= k < ws@.len() ==> (#[trigger] ws@[k])@ == words(line@)[k],
{
    let mut ws: Vec<Vec<u8>> = Vec::new();
    let ghost mut done: Seq<Seq<u8>> = Seq::empty();
    let mut i: usize = 0;
    proof {
        assert(line@.skip(0) =~= line@);
        assert(done + words(line@) =~= words(line@));
    }
    while i < line.len()
        invariant
            i <= line.len(),
            ws@.len() == done.len(),
            forall|k: int| 0 <= k < ws@.len() ==> (#[trigger] ws@[k])@ == done[k],
            words(line@) == done + words(line@.skip(i as int)),
        decreases line.len() - i,
    {
        let ghost rest = line@.skip(i as int);
        assert(rest[0] == line@[i as int]);
        if is_space_byte(line[i]) {
            assert(rest.skip(1) =~= line@.skip(i + 1));
            i += 1;
        } else {
            let mut j: usize = i + 1;
            while j < line.len() && !is_space_byte(line[j])
                invariant
                    i < j <= line.len(),
                    forall|k: int| i <= k < j ==> !is_space(#[trigger] line@[k]),
                decreases line.len() - j,
            {
                j += 1;
            }
            proof {
                assert forall|k: int| 0 <= k < j - i implies !is_space(#[trigger] rest[k]) by {
                    assert(rest[k] == line@[i + k]);
                }
                if j < line.len() {
                    assert(rest[j - i] == line@[j as int]);
                }
                lemma_word_len_is(rest, j - i);
                assert(rest.take(j - i) =~= line@.subrange(i as int, j as int));
                assert(rest.skip(j - i) =~= line@.skip(j as int));
                assert(done + (seq![rest.take(j - i)] + words(rest.skip(j - i))) =~= done.push(
                    rest.take(j - i),
                ) + words(rest.skip(j - i)));
                done = done.push(rest.take(j - i));
            }
            let word = slice_to_vec(slice_subrange(line, i, j));
            ws.push(word);
            i = j;
        }
    }
    proof {
        assert(line@.skip(i as int) =~= Seq::<u8>::empty());
        assert(done + Seq::<Seq<u8>>::empty() =~= done);
    }
    ws
}

} // verus!
