//! A minimal command-line argument parser, verified.
//!
//! An argument sequence is scanned once, left to right. The first element
//! is the program path. A single-dash token opens a command; a double-dash
//! token attaches a sub-command (optionally carrying a value after the
//! first `:` or `=`) to the currently active command; a plain token is a
//! positional argument of the active command, or of the top level when no
//! command is active. A double-dash token with no active command is the
//! one parse error.

pub mod laws;
pub mod model;
pub mod parser;

pub use parser::Command;
pub use parser::Parser;
pub use parser::SubCommand;
pub use parser::ParseError;
pub use parser::parse;
