//! The query engine: values, tokens, statements, conditions and execution.

pub mod condition;
pub mod data;
pub mod display;
pub mod error;
pub mod execute;
pub mod json;
pub mod literal;
pub mod message;
pub mod parse;
pub mod response;
pub mod run;
pub mod statements;
pub mod token;
pub mod tokenise;
pub mod value;
