//! Core logic of a small HTTP bridge for local media players: a directory of
//! player identifiers, a per-subscription state watcher, a coalescing
//! latest-value channel, an event-stream encoder, an art resource proxy and a
//! transport-command dispatcher.  The surrounding HTTP and player-bus plumbing
//! lives outside this library; everything here is verified.

pub mod arthash;
pub mod artwork;
pub mod command;
pub mod directory;
pub mod error;
pub mod numbertext;
pub mod slot;
pub mod snapshot;
pub mod sse;
pub mod text;
pub mod watcher;
