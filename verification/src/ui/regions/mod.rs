//! The regions of the terminal interface.

pub mod input_region;
pub mod list_region;
pub mod region;
pub mod table_region;
