//! Core of a personal media-library daemon: change-suppressed metadata
//! synchronisation for websocket clients and byte-range media streaming.
//!
//! Everything here is plain computation on plain values. Sockets, timers, the
//! store and the HTTP server live with the caller, which feeds events in and
//! performs the actions that come back.

pub mod domain;
pub mod infrastructure;
