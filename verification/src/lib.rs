//! Network-attached recorder core for a time-travel debugging tool.
//!
//! Remote client processes stream "action + resulting state" events over a
//! socket, one JSON document per newline-delimited frame.  This crate holds
//! the verified core of the recorder:
//!
//! - `framing`: turns an unbounded byte stream, delivered chunk by chunk,
//!   into discrete text lines, preserving partial lines across reads;
//! - `wire` and `message_parser`: decode one text line into a typed action;
//! - `state`: the canonical per-client history store and its operations;
//! - `actions`: the single-writer reducer that applies one action to the
//!   state and tells the surrounding process what to do next;
//! - `laws`: proofs of the global properties the recorder promises.
//!
//! Everything that touches a socket, a thread or a window lives outside this
//! crate; it hands the library plain values and takes plain values back.

pub mod actions;
pub mod framing;
pub mod laws;
pub mod message_parser;
pub mod state;
pub mod text;
pub mod wire;
