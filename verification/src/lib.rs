//! The authentication handshake that opens a D-Bus connection.
//!
//! Before any message is exchanged, the two ends of a connection talk in
//! lines of text: the client proves which user it runs as, learns which
//! server it has reached, and may ask for the passing of file descriptors.
//! [`ClientHandshake`] and [`ServerHandshake`] are the two sides of that
//! conversation, each a state machine that can be suspended wherever the
//! socket would block and resumed later.
//!
//! Neither side touches the socket. A handshake is advanced with what has
//! happened on the socket, and answers with what it needs next; see
//! [`io`].

pub mod buffer;
pub mod client;
pub mod command;
pub mod error;
pub mod exchange;
pub mod guid;
pub mod io;
pub mod server;
pub mod uid;
pub mod wire;

pub use client::{ClientHandshake, ClientHandshakeStep, InitializedClient};
pub use error::Error;
pub use guid::Guid;
pub use io::{Action, Direction, Event};
pub use server::{InitializedServer, ServerHandshake, ServerHandshakeStep};
