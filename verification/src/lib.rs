//! Aggregation and protocol-adaptation layer of a desktop game-search plugin.
//!
//! The library fans a text query out to pluggable game-source backends,
//! merges the results into an ephemeral match list keyed by a stable
//! composite identifier, resolves later "run" / "open directory" actions
//! back to the right backend and game, and marshals matches into the wire
//! tuple shape of the remote protocol.

pub mod adapter;
pub mod game;
pub mod library;
pub mod lutris;
pub mod steam;
