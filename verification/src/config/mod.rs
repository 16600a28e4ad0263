//! What a run of the program is given and what it keeps.

pub mod app_config;
pub mod args;
pub mod user_config;
