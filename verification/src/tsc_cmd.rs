//! Output of `tsc`.
use vstd::prelude::*;
use crate::compact;
use crate::text;

verus! {

/// What the compiler printed, without empty lines.
pub open spec fn tsc_report(output: Seq<char>) -> Seq<char> {
    compact::compact(output, seq![], seq![], "✓ tsc"@)
}

/// Shorten what `tsc` printed.
pub fn filter_tsc_output(output: &str) -> (r: String)
    ensures
        r@ == tsc_report(output@),
{
    let starts: Vec<&str> = Vec::new();
    let ends: Vec<&str> = Vec::new();
    proof {
        assert(text::str_views(starts@) =~= seq![]);
        assert(text::str_views(ends@) =~= seq![]);
    }
    compact::compacted(output, starts.as_slice(), ends.as_slice(), "✓ tsc")
}

} // verus!
