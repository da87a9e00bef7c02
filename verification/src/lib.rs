//! A verified core for a bridge from a line-oriented music-player control
//! protocol to an in-process model of "current player state plus a stream of
//! change notifications".
//!
//! The library holds the protocol codec (field lines, structured error lines,
//! response framing with an embedded binary sub-protocol), the canonical
//! player snapshot with its field-by-field diff, the reconnect and command
//! retry state machines, the chunked album-art download protocol, and a
//! lossy fan-out event bus. All of it is verified; the asynchronous I/O that
//! drives these state machines lives outside the library.

pub mod parser;
pub mod response;
pub mod status;
pub mod events;
pub mod bus;
pub mod retry;
pub mod art;
pub mod stateserver;
pub mod util;
pub mod config;
pub mod notification;
pub mod commands;

pub use parser::is_field_name_char;
