//! Output of `prettier`.
use vstd::prelude::*;
use crate::compact;
use crate::text;

verus! {

/// What the formatter printed, without its progress.
pub open spec fn prettier_report(output: Seq<char>) -> Seq<char> {
    compact::compact(output, seq!["Checking formatting..."@], seq![], "✓ prettier"@)
}

/// Shorten what `prettier` printed.
pub fn filter_prettier_output(output: &str) -> (r: String)
    ensures
        r@ == prettier_report(output@),
{
    let starts: Vec<&str> = vec!["Checking formatting..."];
    let ends: Vec<&str> = Vec::new();
    proof {
        assert(text::str_views(starts@) =~= seq!["Checking formatting..."@]);
        assert(text::str_views(ends@) =~= seq![]);
    }
    compact::compacted(output, starts.as_slice(), ends.as_slice(), "✓ prettier")
}

} // verus!
