//! How much of a file is shown.
use vstd::prelude::*;
use crate::text;

verus! {

/// How much of a file is shown.
#[derive(Clone, Copy, PartialEq, Eq, Structural, Debug)]
pub enum FilterLevel {
    /// Everything.
    Whole,
    /// Everything but plain comments.
    Minimal,
    /// Neither comments nor empty lines.
    Aggressive,
}

/// The level that a name stands for.
pub open spec fn level_named(name: Seq<char>) -> Option<FilterLevel> {
    if name == "none"@ {
        Some(FilterLevel::Whole)
    } else if name == "minimal"@ {
        Some(FilterLevel::Minimal)
    } else if name == "aggressive"@ {
        Some(FilterLevel::Aggressive)
    } else {
        None
    }
}

impl FilterLevel {
    /// The level that `name` stands for.
    pub fn named(name: &str) -> (r: Option<FilterLevel>)
        ensures
            r == level_named(name@),
    {
        if text::same(name, "none") {
            Some(FilterLevel::Whole)
        } else if text::same(name, "minimal") {
            Some(FilterLevel::Minimal)
        } else if text::same(name, "aggressive") {
            Some(FilterLevel::Aggressive)
        } else {
            None
        }
    }
}

} // verus!
