//! Synchronization engine that keeps a local mirror of remote playlists.
//!
//! For every playlist the engine keeps a manifest of the tracks it already
//! knows, compares it with the current remote snapshot, decides which tracks
//! have to be downloaded and how the manifest changes, and schedules the next
//! pass. Everything in this crate works on plain values; talking to the remote
//! service, the file system and the downloader process is left to the caller.

pub mod diff;
pub mod download;
pub mod fetch;
pub mod manifest;
pub mod order;
pub mod schedule;
pub mod sync;
pub mod track;
