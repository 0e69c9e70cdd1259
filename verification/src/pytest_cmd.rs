//! Output of `pytest`.
use vstd::prelude::*;
use crate::compact;
use crate::text;

verus! {

/// What a test run printed, without its header and without the tests that passed.
pub open spec fn pytest_report(output: Seq<char>) -> Seq<char> {
    compact::compact(output, seq!["cachedir:"@, "collected "@, "platform "@, "plugins:"@, "rootdir:"@], seq!["%]"@, " PASSED"@], "✓ pytest"@)
}

/// Shorten what `pytest` printed.
pub fn filter_pytest_output(output: &str) -> (r: String)
    ensures
        r@ == pytest_report(output@),
{
    let starts: Vec<&str> = vec!["cachedir:", "collected ", "platform ", "plugins:", "rootdir:"];
    let ends: Vec<&str> = vec!["%]", " PASSED"];
    proof {
        assert(text::str_views(starts@) =~= seq!["cachedir:"@, "collected "@, "platform "@, "plugins:"@, "rootdir:"@]);
        assert(text::str_views(ends@) =~= seq!["%]"@, " PASSED"@]);
    }
    compact::compacted(output, starts.as_slice(), ends.as_slice(), "✓ pytest")
}

} // verus!
