//! Core of an interactive command shell: the line lexer, redirection
//! detection, command resolution and the decisions of the execution engine.
//! Everything that touches the operating system stays with the caller.

pub mod command;
pub mod engine;
pub mod error;
pub mod executable;
pub mod redirection;
pub mod text;
pub mod tokenizer;
