//! The core of a chat bot that sits in one channel of one server.
//!
//! The library reassembles protocol lines from a fragmented byte stream,
//! tells each line's origin, and decides what the bot sends back. It opens
//! no connection and reads no clock: a program around it hands in the bytes
//! that it read and the ticks of its timer, and puts on the wire what the
//! session has queued.
//!
//! - `line_buffer`: from chunks of bytes to complete lines.
//! - `message`: from a line to its origin and content.
//! - `respond`: from what a peer said to what the bot says.
//! - `bot`: the session, which ties these together.
//! - `invariants`: what holds of a session over every run.
//! - `protocol`, `phrases`: the words of the protocol and of the bot.
//! - `rng`, `text`: the generator that choices are drawn from, and the
//!   operations on text that the rest is stated in.

pub mod bot;
pub mod invariants;
pub mod line_buffer;
pub mod message;
pub mod phrases;
pub mod protocol;
pub mod respond;
pub mod rng;
pub mod text;

pub use crate::bot::Bot;
pub use crate::line_buffer::{LineBuffer, NextLine};
pub use crate::message::{classify, ClassifiedMessage, Key, LineError};
pub use crate::respond::{respond, ReplyCategory};
pub use crate::rng::Rng;
