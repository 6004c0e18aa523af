//! A client for the JSON IPC protocol of the mpv media player.
//!
//! Commands go out and replies and events come in as one JSON value per line
//! on a single duplex stream. This crate holds everything that decides what
//! those lines are and what they mean; it never touches the stream itself.
//!
//! * [`codec`] writes a command as a line and tells an incoming line to be a
//!   reply or an event.
//! * [`convert`] reads the payload of a reply as the type that the caller
//!   expects.
//! * [`client`] is the client proper: a state machine that is handed every
//!   line that comes in and answers with what to do next. The owner of the
//!   stream runs the loop around it.
//! * [`laws`] proves what holds of these together.
//!
//! Numbers are carried as their decimal literals ([`Number`]) and are never
//! computed with here.

pub mod client;
pub mod codec;
pub mod command;
pub mod convert;
pub mod error;
pub mod event;
pub mod json;
pub mod laws;
pub mod number;

pub use client::{position_result, reply_result, Mpv, MpvView, State, Step};
pub use codec::{
    classify, decode, decode_parsed, encode, strip_terminator, to_text, RawMessage,
    RawMessageView,
};
pub use command::{Command, MpvCommand};
pub use convert::FromValue;
pub use error::{Error, ErrorCode, ErrorCodeView};
pub use event::{Event, EventKind, EventView};
pub use json::{parse, Json, JsonView};
pub use number::Number;
