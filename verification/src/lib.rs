//! A small query language over cached collections of music-catalogue
//! records, with the pieces of the terminal program around it that are pure
//! computation.

pub mod api;
pub mod auth;
pub mod commands;
pub mod config;
pub mod query;
pub mod text;
pub mod ui;
pub mod utils;
