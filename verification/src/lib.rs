//! Structured snapshots of a terminal screen.
//!
//! A terminal-emulation engine owns the actual escape-sequence parsing and
//! cell storage; this library owns everything the surrounding process does
//! with the engine's output: resolving raw per-cell colors to canonical
//! 256-color palette indices, coalescing cells into attribute-tagged text
//! runs, serializing snapshots and cursor state as JSON lines, and driving
//! the line-oriented control protocol that sequences it all.

pub mod color;
pub mod json;
pub mod attr;
pub mod snapshot;
pub mod screen;
pub mod protocol;
