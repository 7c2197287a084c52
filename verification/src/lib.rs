//! Renders a declarative runbook — an ordered sequence of typed entries —
//! into a single markdown document. The entry model, the per-entry
//! rendering rules, the ephemeral shell-script naming protocol, the
//! context and variable substitution, and the indentation utility are
//! verified here; reading files, parsing JSON, and spawning the shell are
//! left to the surrounding binary.

pub mod args;
pub mod breakpoint;
pub mod command;
pub mod context;
pub mod display_file;
pub mod document;
pub mod heading;
pub mod markdown;
pub mod paths;
pub mod shell;
pub mod strings;
pub mod text_variable;
pub mod todo;
