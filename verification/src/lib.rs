//! Decision logic of a game pre-launcher: progress aggregation, artifact
//! resolution and version-descriptor composition.
//!
//! The library decides; its caller performs. Whatever touches the network or
//! the file system is handed out as an action and comes back as an event.
//!
//! - `progress`: per-item and per-phase progress as one scalar.
//! - `manifest`, `maven`: the mods of a build, their cache paths and URLs.
//! - `archive`: the JAR inside a downloaded zip archive.
//! - `resolver`: the state machine that brings the mods in, through a cache.
//! - `model`: what a run of the resolver does to cache and working directory.
//! - `version`: version descriptors and their composition with a parent.
//! - `launch`: the state machine of a whole launch.
//! - `text`, `search`, `error`: what the others share.

pub mod archive;
pub mod error;
pub mod launch;
pub mod manifest;
pub mod maven;
pub mod model;
pub mod progress;
pub mod resolver;
pub mod search;
pub mod text;
pub mod version;
