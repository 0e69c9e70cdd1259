//! Output of `ruff`.
use vstd::prelude::*;
use crate::compact;
use crate::text;

verus! {

/// How the lines of the linter's JSON start that say neither the code, nor the file,
/// nor the row, nor the message of a finding.
pub open spec fn json_frame() -> Seq<Seq<char>> {
    seq![
        "["@,
        "]"@,
        "{"@,
        "}"@,
        "\"cell\""@,
        "\"column\""@,
        "\"edits\""@,
        "\"end_location\""@,
        "\"fix\""@,
        "\"location\""@,
        "\"noqa_row\""@,
        "\"url\""@,
    ]
}

/// The findings in the linter's JSON, without what frames them.
pub open spec fn check_report(output: Seq<char>) -> Seq<char> {
    compact::compact(output, json_frame(), seq![], "✓ ruff check"@)
}

/// What the formatter printed, without empty lines.
pub open spec fn format_report(output: Seq<char>) -> Seq<char> {
    compact::compact(output, seq![], seq![], "✓ ruff format"@)
}

/// Shorten the linter's JSON.
pub fn filter_ruff_check_json(output: &str) -> (r: String)
    ensures
        r@ == check_report(output@),
{
    let starts: Vec<&str> = vec![
        "[",
        "]",
        "{",
        "}",
        "\"cell\"",
        "\"column\"",
        "\"edits\"",
        "\"end_location\"",
        "\"fix\"",
        "\"location\"",
        "\"noqa_row\"",
        "\"url\"",
    ];
    let ends: Vec<&str> = Vec::new();
    proof {
        assert(text::str_views(starts@) =~= json_frame());
        assert(text::str_views(ends@) =~= Seq::<Seq<char>>::empty());
    }
    compact::compacted(output, starts.as_slice(), ends.as_slice(), "✓ ruff check")
}

/// Shorten what the formatter printed.
pub fn filter_ruff_format(output: &str) -> (r: String)
    ensures
        r@ == format_report(output@),
{
    let none: Vec<&str> = Vec::new();
    assert(text::str_views(none@) =~= Seq::<Seq<char>>::empty());
    compact::compacted(output, none.as_slice(), none.as_slice(), "✓ ruff format")
}

} // verus!
