//! What the program does on a command.

pub mod input;
pub mod login;
