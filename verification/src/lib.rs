//! Akkhara, a programming language written in Myanmar: its lexer and parser,
//! the parts of its run-time that need no fractional numbers, its "request"
//! library's checks, and the decisions of the `akk` command line.
//!
//! - `lexer`: source text to tokens;
//! - `parser`: tokens to statements;
//! - `template`: `{...}` placeholders in string literals;
//! - `exec`: the decisions of running a statement, step by step;
//! - `runtime`: operator and type names, error codes and run-time messages;
//! - `library`: which libraries a program has loaded;
//! - `request`: URL checks and what an HTTP reply comes to;
//! - `json`: string fields of flat JSON text;
//! - `cli` and `prompt`: the command line and its terminal prompts;
//! - `text`: characters, white space and decimal numbers.
pub mod cli;
pub mod exec;
pub mod json;
pub mod lexer;
pub mod library;
pub mod parser;
pub mod prompt;
pub mod request;
pub mod runtime;
pub mod template;
pub mod text;
