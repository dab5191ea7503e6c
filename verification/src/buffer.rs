//! The buffer of a handshake.
//!
//! A handshake holds one buffer and uses it in turn for the line it sends and
//! for the line it collects. While a line is sent, each partial write takes
//! bytes from the front; while a line is collected, what arrives is added at
//! the back until the buffer ends with a line terminator.

use vstd::prelude::*;

use crate::wire::{ends_with_crlf, has_line};

verus! {

/// Takes from the front of `buffer` the `written` bytes that the socket
/// accepted. What is left is what still has to be sent, in order.
pub fn flush_buffer(buffer: &mut Vec<u8>, written: usize)
    requires
        written <= old(buffer)@.len(),
    ensures
        final(buffer)@ == old(buffer)@.skip(written as int),
{
    let rest = buffer.split_off(written);
    *buffer = rest;
}

/// Adds the bytes that the socket delivered to the back of `buffer`, and
/// tells whether `buffer` now ends with a line terminator.
pub fn read_command(buffer: &mut Vec<u8>, received: Vec<u8>) -> (complete: bool)
    ensures
        final(buffer)@ == old(buffer)@ + received@,
        complete == ends_with_crlf(final(buffer)@),
{
    let mut received = received;
    buffer.append(&mut received);
    has_line(buffer.as_slice())
}

/// However a line is cut into partial writes, the bytes that have left the
/// buffer followed by the bytes still in it are the line: no byte is sent
/// twice and none is lost.
pub proof fn lemma_flush_keeps_bytes(buffer: Seq<u8>, first: int, second: int)
    requires
        0 <= first,
        0 <= second,
        first + second <= buffer.len(),
    ensures
        buffer.take(first) + buffer.skip(first) == buffer,
        buffer.skip(first).skip(second) == buffer.skip(first + second),
        buffer.take(first) + buffer.skip(first).take(second) == buffer.take(first + second),
{
    assert(buffer.take(first) + buffer.skip(first) =~= buffer);
    assert(buffer.skip(first).skip(second) =~= buffer.skip(first + second));
    assert(buffer.take(first) + buffer.skip(first).take(second) =~= buffer.take(first + second));
}

} // verus!
