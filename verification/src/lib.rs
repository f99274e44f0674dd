//! Core logic of a download manager: streaming-transfer bookkeeping with
//! progress reporting and cooperative cancellation, a reference-counted key
//! registry, extraction/cleanup sequencing, and the pure formatting helpers
//! that turn byte counts and durations into human-readable text.
//!
//! All I/O (the HTTP transfer itself, the filesystem, the extraction
//! subprocess, event delivery) lives outside this crate; the functions here
//! make every decision those steps need and are verified to do so.

pub mod format;
pub mod strutil;
pub mod naming;
pub mod errors;
pub mod registry;
pub mod transfer;
pub mod pipeline;
pub mod session;
pub mod wallpaper_store;
