//! Core of a session-bridging daemon: a transcript tailer, a service
//! directory protocol, a socket-session state machine, a writer election,
//! an approval registry, and the request/response dispatch that ties them
//! together.  Everything here is verified; the I/O that feeds these
//! functions lives outside the library.

pub mod error;
pub mod strutil;
pub mod paths;
pub mod jsonval;
pub mod timeutil;
pub mod tail;
pub mod directory;
pub mod conn;
pub mod approval;
pub mod election;
pub mod types;
pub mod events;
pub mod dispatch;
pub mod metrics;
pub mod msgsync;
pub mod listing;
