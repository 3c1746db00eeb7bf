//! Execution core of an interactive command shell: what turns a call into
//! a running command, carries data from one command of a pipeline to the
//! next, and keeps the variables of nested blocks and closures.
//!
//! - [`value`], [`record`], [`span`], [`error`]: the values that commands
//!   exchange and the failures that they report.
//! - [`signature`], [`call`]: what a command accepts, and the binding of
//!   the arguments of a call against it.
//! - [`list_stream`], [`pipeline`], [`signals`]: lazy sequences of values,
//!   streams of bytes, and the cancellation signal that every pull reads.
//! - [`stack`], [`overlay`], [`bindings`], [`capture_block`]: scope frames,
//!   overlays, and closures that capture by value.
//! - [`pattern_match`]: structural matching that binds all or nothing.
//! - [`engine_state`], [`registry`], [`command`]: what the process shares,
//!   the commands it knows, and what a command is.
//! - [`commandline`], [`repl_state`], [`graphemes`]: the command that views
//!   and edits the line buffer, the buffer, and the grapheme clusters in
//!   which its cursor is addressed.
//! - [`int_parse`], [`decimal`], [`text`], [`seq_find`]: integers in text,
//!   comparison of texts, and the search that the lookups share.

pub mod bindings;
pub mod call;
pub mod capture_block;
pub mod command;
pub mod commandline;
pub mod decimal;
pub mod engine_state;
pub mod error;
pub mod graphemes;
pub mod int_parse;
pub mod list_stream;
pub mod overlay;
pub mod pattern_match;
pub mod pipeline;
pub mod record;
pub mod registry;
pub mod repl_state;
pub mod seq_find;
pub mod signals;
pub mod signature;
pub mod span;
pub mod stack;
pub mod text;
pub mod value;
