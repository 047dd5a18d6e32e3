//! A verified core for a personal reading-catalog manager.
//!
//! The library covers the two subsystems with real algorithmic content:
//! the import engine (header alias resolution, field coercion,
//! deduplication, record construction, shelf linkage) and the cover
//! resolver (a fixed-priority fallback chain with a placeholder
//! validator).  Persistence and network transport live outside the
//! library; callers hand in plain values and drive the resolver's
//! state machine.

pub mod alias;
pub mod covers;
pub mod import;
pub mod model;
pub mod store;
pub mod text;
