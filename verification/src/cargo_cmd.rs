//! Output of `cargo`.
use vstd::prelude::*;
use crate::compact;
use crate::text;

verus! {

/// How the lines about progress start.
pub open spec fn progress() -> Seq<Seq<char>> {
    seq![
        "Blocking"@,
        "Checking"@,
        "Compiling"@,
        "Downloaded"@,
        "Downloading"@,
        "Finished"@,
        "Locking"@,
        "Updating"@,
    ]
}

/// How the lines that say which tests run start.
pub open spec fn test_headings() -> Seq<Seq<char>> {
    seq!["Doc-tests"@, "Running"@, "running "@]
}

/// What a build printed, without its progress.
pub open spec fn build_report(output: Seq<char>) -> Seq<char> {
    compact::compact(output, progress(), seq![], "✓ cargo build"@)
}

/// What a test run printed, without its progress and without the tests that
/// passed.
pub open spec fn test_report(output: Seq<char>) -> Seq<char> {
    compact::compact(output, progress() + test_headings(), seq![" ... ok"@], "✓ cargo test"@)
}

/// What the linter printed, without its progress.
pub open spec fn clippy_report(output: Seq<char>) -> Seq<char> {
    compact::compact(output, progress(), seq![], "✓ cargo clippy"@)
}

/// What an installation printed, without its progress.
pub open spec fn install_report(output: Seq<char>) -> Seq<char> {
    compact::compact(output, progress(), seq![], "✓ cargo install"@)
}

/// How the lines about progress start.
fn progress_list() -> (r: Vec<&'static str>)
    ensures
        text::str_views(r@) == progress(),
{
    let r: Vec<&'static str> = vec![
        "Blocking",
        "Checking",
        "Compiling",
        "Downloaded",
        "Downloading",
        "Finished",
        "Locking",
        "Updating",
    ];
    assert(text::str_views(r@) =~= progress());
    r
}

/// What is left of the output without progress, or `otherwise`.
fn without_progress(output: &str, otherwise: &str) -> (r: String)
    ensures
        r@ == compact::compact(output@, progress(), seq![], otherwise@),
{
    let starts = progress_list();
    let ends: Vec<&str> = Vec::new();
    assert(text::str_views(ends@) =~= Seq::<Seq<char>>::empty());
    compact::compacted(output, starts.as_slice(), ends.as_slice(), otherwise)
}

/// Shorten what a build printed.
pub fn filter_cargo_build(output: &str) -> (r: String)
    ensures
        r@ == build_report(output@),
{
    without_progress(output, "✓ cargo build")
}

/// Shorten what a test run printed.
pub fn filter_cargo_test(output: &str) -> (r: String)
    ensures
        r@ == test_report(output@),
{
    let mut starts = progress_list();
    starts.push("Doc-tests");
    starts.push("Running");
    starts.push("running ");
    let ends: Vec<&str> = vec![" ... ok"];
    proof {
        assert(text::str_views(starts@) =~= progress() + test_headings());
        assert(text::str_views(ends@) =~= seq![" ... ok"@]);
    }
    compact::compacted(output, starts.as_slice(), ends.as_slice(), "✓ cargo test")
}

/// Shorten what the linter printed.
pub fn filter_cargo_clippy(output: &str) -> (r: String)
    ensures
        r@ == clippy_report(output@),
{
    without_progress(output, "✓ cargo clippy")
}

/// Shorten what an installation printed.
pub fn filter_cargo_install(output: &str) -> (r: String)
    ensures
        r@ == install_report(output@),
{
    without_progress(output, "✓ cargo install")
}

} // verus!
