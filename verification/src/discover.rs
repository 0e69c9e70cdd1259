//! Finding the commands that have a filter.
pub mod registry;
