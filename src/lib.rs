//! A line-oriented task list: a command parser, an ordered store of tasks
//! whose display ids always run from 1 to the number of tasks, and the
//! decision step of an interactive session.

pub mod text;
pub mod command;
pub mod tasks;
pub mod session;
pub mod laws;
