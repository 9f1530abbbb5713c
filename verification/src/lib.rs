//! An in-memory task tracker driven by textual commands.
//!
//! A command line is trimmed, folded to lowercase and split into words; the
//! first word selects one operation on an ordered list of tasks. Every
//! operation is specified over sequences of characters and proved against
//! that specification.

pub mod command;
pub mod laws;
pub mod marker;
pub mod notice;
pub mod number;
pub mod tasks;
pub mod text;
