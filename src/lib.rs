//! A cell that holds at most one pending callback.
//!
//! `put` installs a callback, dropping (never running) any callback it
//! displaces; `take_call` moves the pending callback out and runs it, or
//! reports that there was none. Every installed callback is disposed of
//! exactly once: run by a `take_call`, or dropped by a displacing `put` or by
//! the cell's own drop.
//!
//! [`CallbackCell`] holds a callback without arguments; [`CallbackCellArgs`]
//! holds one that maps an input to an output. The module [`model`] describes
//! both through the history of operations applied to a cell.

pub mod model;
mod with_args;
mod without_args;

pub use model::{Disposal, Op};
pub use with_args::CallbackCellArgs;
pub use without_args::CallbackCell;
