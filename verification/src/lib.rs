//! Running shell commands with less to read.
//!
//! [`embedded::plan`] looks at a command line and, if the command is one whose output can
//! be shortened, says which shell commands to run in its place.
//! [`embedded::ShellPlan::render`] takes what they printed and says what to show. The
//! library runs nothing itself.
//!
//! The modules named after tools hold what is known of each tool: the commands that are
//! run for it, and what is left out of its output. `text`, `number` and `compact` hold
//! what they share.
pub mod cargo_cmd;
pub mod compact;
pub mod diff_cmd;
pub mod discover;
pub mod embedded;
pub mod filter;
pub mod git;
pub mod grep_cmd;
pub mod ls;
pub mod number;
pub mod prettier_cmd;
pub mod pytest_cmd;
pub mod read;
pub mod ruff_cmd;
pub mod shell_words;
pub mod text;
pub mod toml_filter;
pub mod tree;
pub mod tsc_cmd;
