//! Signing in to the catalogue service.

pub mod code;
pub mod token_refresh;
