//! An in-memory key-value cache for values that are slow or fallible to
//! refresh, and cheaper to refresh in batches than one by one.
//!
//! Every value carries the clock reading of its insertion. With an expiry
//! duration set, a value older than that is invisible to reads until it is
//! overwritten. `Cache::entry` and `Cache::entries` check one key or many
//! and call a producer for exactly those that need a refresh.
//!
//! * `store` is the mathematical model: what a cache holds, and what each
//!   operation makes of it.
//! * `cache`, `entry` and `entries` are the executable cache and its views,
//!   each function with a contract over the model.
//! * `clock` reads the time.
//! * `laws` states what follows for sequences of operations.
//!
//! A function whose name ends in `_at` takes the clock's reading as an
//! argument; its twin without the ending reads the clock itself.

pub mod cache;
pub mod clock;
pub mod entries;
pub mod entry;
pub mod laws;
pub mod store;

pub use cache::Cache;
pub use entries::Entries;
pub use entry::{Entry, OccupiedEntry, VacantEntry};
pub use store::{Slot, Store};
