//! Per-directory record of the video files a user has marked as watched.
//!
//! Every directory that holds a marked file also holds a small hidden text
//! file, the ledger, with one file name per line. This crate decides what a
//! lookup answers and what a mark command writes. It never touches a file
//! itself: a host opens, reads and writes the ledger and hands the bytes
//! over, so the same decisions serve a command line, a shell extension and
//! a test that keeps the ledger in memory.
//!
//! - `path` splits a file path, `video` knows the video extensions.
//! - `ledger` is the file format, `sidecar` the record read from it.
//! - `provider` runs a lookup or a mark command step by step, and `memory`
//!   is a host without a file system.
//! - `laws` states what holds of every request.
//! - `overlay`, `context_menu`, `cli` and `winapi` are what the callers of
//!   the above need besides.
//!
//! Two requests on one ledger must not overlap. The host sees to that: it
//! holds the ledger locked from the moment it has opened it until the write
//! is flushed or the request has ended without one.

pub mod cli;
pub mod context_menu;
pub mod distinct;
pub mod error;
pub mod laws;
pub mod ledger;
pub mod memory;
pub mod overlay;
pub mod path;
pub mod provider;
pub mod sidecar;
pub mod text;
pub mod video;
pub mod winapi;
