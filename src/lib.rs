//! Decisions of a small line-oriented shell: tokenizing a command line,
//! choosing the built-in, reading each built-in's arguments, deciding the
//! filesystem actions each one asks for, and rendering what it prints.
//! The filesystem itself is reached by the caller, which hands back what it
//! observed.
pub mod args;
pub mod cat;
pub mod cd;
pub mod command;
pub mod cp;
pub mod echo;
pub mod error;
pub mod fs;
pub mod laws;
pub mod ls;
pub mod mkdir;
pub mod mv;
pub mod path;
pub mod rm;
pub mod text;
