//! Helpers: the clock, places on the grid, addresses and dates.

pub mod date;
pub mod file;
pub mod url;
pub mod utils;
