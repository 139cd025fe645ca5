//! A small file and directory removal tool: argument parsing, the choice of
//! deletion mode, and the decisions of the deletion itself, with the file
//! system and the terminal left to the caller.

pub mod config;
pub mod mode;
pub mod deletion;
