//! A filesystem-mutation history engine: destructive operations (delete,
//! move, copy) are recorded in an append-only log, a dependency predicate
//! decides which later operations relied on an earlier one, and any past
//! operation can be reverted once nothing live depends on it.  Content
//! digests detect out-of-band edits before a revert mutates anything.

pub mod command;
pub mod construct;
pub mod digest;
pub mod error;
pub mod fs;
pub mod history;
pub mod laws;
pub mod mode;
pub mod object;
pub mod path;
