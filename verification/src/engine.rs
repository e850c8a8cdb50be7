//! The routing engine: destination matching, rule execution bookkeeping and
//! the event dispatcher.

pub mod matcher;
pub mod executor;
pub mod dispatcher;
