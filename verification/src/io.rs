//! What passes between a handshake and the code that owns the socket.
//!
//! A handshake performs no input or output itself. Each call that advances it
//! names the operation it needs next, an [`Action`]; the caller performs that
//! operation on the socket and reports what came of it in the [`Event`] of
//! the next call.

use vstd::prelude::*;

verus! {

/// The most bytes that a handshake asks for while it collects a line.
pub const LINE_CHUNK: usize = 40;

/// What a handshake needs from the socket before it can go on.
#[derive(Clone, Copy, Debug, PartialEq, Eq, Structural)]
pub enum Action {
    /// Send the bytes that wait in the handshake's buffer, or as many of
    /// them as the socket takes.
    Send,
    /// Receive bytes, at most as many as given.
    Receive(usize),
    /// Nothing: the handshake is complete.
    Done,
}

/// The direction in which a socket must become ready.
#[derive(Clone, Copy, Debug, PartialEq, Eq, Structural)]
pub enum Direction {
    /// The socket has bytes to read.
    Readable,
    /// The socket takes bytes to write.
    Writable,
}

/// What happened on the socket since the handshake was last advanced.
#[derive(Debug)]
pub enum Event {
    /// Nothing: the handshake is advanced for the first time, or the
    /// operation it asked for could not be performed yet.
    Resume,
    /// The socket took this many bytes from the front of the buffer.
    Sent(usize),
    /// These bytes arrived.
    Received(Vec<u8>),
}

/// An [`Event`] as contracts see it.
pub enum EventView {
    /// See [`Event::Resume`].
    Resume,
    /// See [`Event::Sent`].
    Sent(nat),
    /// See [`Event::Received`].
    Received(Seq<u8>),
}

impl View for Event {
    type V = EventView;

    open spec fn view(&self) -> EventView {
        match self {
            Event::Resume => EventView::Resume,
            Event::Sent(n) => EventView::Sent(*n as nat),
            Event::Received(bytes) => EventView::Received(bytes@),
        }
    }
}

} // verus!
