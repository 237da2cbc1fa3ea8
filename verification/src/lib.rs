//! Assuan protocol primitives.
//!
//! Reusable building blocks for the Assuan protocol of the GnuPG ecosystem:
//! - **Reading**: [`LineReader`] — splits received bytes into lines, with the
//!   1000-byte line limit
//! - **Parsing**: [`Request`] — parse a line into command and arguments
//! - **Responses**: [`Response`] — typed response lines with owned data
//! - **Writing**: [`LineWriter`] — protocol lines into a byte buffer
//! - **Sessions**: [`Server`] and [`Client`] — typed `send`/`recv` over the
//!   bytes of a transport, which their owner moves
//! - **Errors**: [`Error`] — the crate's error type; [`ErrorCode`] —
//!   libgpg-error compatible error codes
use vstd::prelude::*;

pub mod client;
pub mod error;
pub mod line_reader;
pub mod line_writer;
pub mod number;
pub mod percent;
pub mod request;
pub mod response;
pub mod server;
pub mod text;
pub mod wire;

pub use client::Client;
pub use error::{Error, ErrorCode};
pub use line_reader::{LineReader, ReadEvent, ReadStep};
pub use line_writer::LineWriter;
pub use request::Request;
pub use response::Response;
pub use server::{Incoming, Server};

verus! {

/// Maximum size of an Assuan line in bytes, the terminating newline included.
pub const MAX_LINE_SIZE: usize = 1000;

} // verus!
