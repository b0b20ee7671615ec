//! A store in the style of Redux: one state, changed only by dispatching
//! actions to a reducer, with middleware wrapped around the reducer and
//! subscribers notified after it.
//!
//! [`store`] holds the store itself, [`pipeline`] the path an action takes
//! and the handles given to middleware and subscribers, [`laws`] what is
//! proved of every store, and [`counter`] a small example of a state, its
//! actions and its reducer.
pub mod counter;
pub mod laws;
pub mod pipeline;
pub mod store;

pub use counter::{reducer, Action, State};
pub use pipeline::{Callbacks, Dispatcher, Notice, Pipeline, Route};
pub use store::Store;
