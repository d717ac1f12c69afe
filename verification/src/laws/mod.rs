//! What the operations of the index are for.
//!
//! Each law speaks of the arguments and the result of an operation, field by
//! field, and of nothing in between.

pub mod apply;
pub mod changes;
pub mod client;
pub mod commands;
pub mod hits;
pub mod inputs;
pub mod matching;
pub mod order;
pub mod prefix;
pub mod ranking;
pub mod requests;
pub mod scan;
pub mod settings;
pub mod store;
pub mod text;
pub mod time;
pub mod views;
