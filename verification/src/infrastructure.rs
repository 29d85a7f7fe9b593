//! What the daemon knows of the tools it runs.

pub mod youtube_dl;
