//! The rules of the daemon, independent of the transport in use.

pub mod config;
pub mod encode;
pub mod entity;
pub mod fingerprint;
pub mod stream;
pub mod sync;
pub mod text;
