//! Brute-force melody enumeration and the archive layouts that store the
//! resulting MIDI files: arithmetic on melody counts, partitioned storage
//! paths, and append-only tar backends.

pub mod batched;
pub mod cli;
pub mod directives;
pub mod midi;
pub mod partition;
pub mod sequences;
pub mod storage;
pub mod utils;
