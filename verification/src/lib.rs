//! Core of a small personal task/plan tracker: in-memory entity stores for
//! one-off tasks (todos) and recurring plans, a text codec for the persisted
//! JSON files, a recurrence engine that resets per-cycle counters at calendar
//! boundaries, and a pure projection of task history events.
//!
//! All file and clock I/O lives outside this crate: callers read the persisted
//! file and hand its text in, and supply "now" and "today" values; the crate
//! hands back the full text to be written atomically (temp file + rename).

pub mod errors;
pub mod text;
pub mod digits;
pub mod codec;
pub mod todo;
pub mod plan;
pub mod store;
pub mod date;
pub mod recurrence;
pub mod history;
pub mod atomic;
