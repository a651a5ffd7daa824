//! A personal task tracker: the task model, an in-memory task table with the
//! store's query and update rules, and the key handling of a small terminal shell.
pub mod shell;
pub mod table;
pub mod task;
pub mod timestamp;
