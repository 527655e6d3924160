//! The command mini-language: request shapes, a recursive-descent
//! parser for the command grammar, and the event-loop scaffolding.

pub mod event;
pub mod parse;
pub mod parser;
pub mod script;

pub use parse::Command;
pub use script::parse_src;
