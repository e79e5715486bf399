//! A minimal interactive database shell: a single in-memory table of rows,
//! a statement parser, a meta-command interpreter and a line dispatcher.
pub mod db_ctx;
pub mod meta_command;
pub mod repl;
pub mod statement;
pub mod text;
