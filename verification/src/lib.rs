//! Resolution of the user's preferred text editor.
//!
//! The preferred editor is named by two environment variables, `VISUAL`
//! first and `EDITOR` second, with `vi` standing in when neither is set.
//! This crate holds the rules: which of the two lookups wins, and how the
//! winning command line is cut into a program and its arguments. Reading
//! the environment is left to the caller, who hands in what each lookup
//! gave.

pub mod command;
pub mod resolve;
pub mod tokens;
pub mod whitespace;

pub use crate::command::{parse_command_program_with_args, FALLBACK_EDITOR};
pub use crate::resolve::{get, get_editor_command, get_with_args, Lookup, EDITOR, VISUAL};
