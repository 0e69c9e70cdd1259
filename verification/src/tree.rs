//! Output of `tree`.
use vstd::prelude::*;
use crate::compact;
use crate::text;

verus! {

/// The tree, without empty lines.
pub open spec fn tree_report(output: Seq<char>) -> Seq<char> {
    compact::compact(output, seq![], seq![], "(empty)"@)
}

/// Shorten what `tree` printed.
pub fn filter_tree_output(output: &str) -> (r: String)
    ensures
        r@ == tree_report(output@),
{
    let starts: Vec<&str> = Vec::new();
    let ends: Vec<&str> = Vec::new();
    proof {
        assert(text::str_views(starts@) =~= seq![]);
        assert(text::str_views(ends@) =~= seq![]);
    }
    compact::compacted(output, starts.as_slice(), ends.as_slice(), "(empty)")
}

} // verus!
