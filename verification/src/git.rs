//! Commands and output of `git`.
use vstd::prelude::*;
use crate::compact;
use crate::compact::LineFilter;
use crate::number;
use crate::shell_words;
use crate::text;

verus! {

/// How many commits a log shows unless it is told.
pub const LOG_LIMIT: usize = 10;

/// How wide a line of a log or of a list of stashes may be.
pub const LINE_WIDTH: usize = 80;

/// The limit that the first of `args` sets: `-n N`, `--max-count=N`, `-nN` or `-N`.
pub open spec fn limit_at_head(args: Seq<Seq<char>>) -> Option<nat> {
    let limit = usize::MAX as nat;
    if args[0] == "-n"@ && args.len() > 1 {
        number::parse_unsigned(args[1], limit)
    } else if "--max-count="@.is_prefix_of(args[0]) {
        number::parse_unsigned(args[0].skip("--max-count="@.len() as int), limit)
    } else if "-n"@.is_prefix_of(args[0]) {
        number::parse_unsigned(args[0].skip("-n"@.len() as int), limit)
    } else if "-"@.is_prefix_of(args[0]) {
        number::parse_unsigned(args[0].skip("-"@.len() as int), limit)
    } else {
        None
    }
}

/// The limit that the arguments of a log set first.
pub open spec fn log_limit(args: Seq<Seq<char>>) -> Option<nat>
    decreases args.len(),
{
    if args.len() == 0 {
        None
    } else if limit_at_head(args) is Some {
        limit_at_head(args)
    } else {
        log_limit(args.drop_first())
    }
}

/// Whether `arg` says how a commit is written.
pub open spec fn is_format_arg(arg: Seq<char>) -> bool {
    "--oneline"@.is_prefix_of(arg) || "--pretty"@.is_prefix_of(arg) || "--format"@.is_prefix_of(arg)
}

/// Whether the arguments of a log say how a commit is written.
pub open spec fn has_format(args: Seq<Seq<char>>) -> bool {
    exists|i: int| 0 <= i < args.len() && is_format_arg(#[trigger] args[i])
}

/// The words of a log command: one line for each commit and a limit, where the
/// arguments ask for nothing else.
pub open spec fn log_words(args: Seq<Seq<char>>) -> Seq<Seq<char>> {
    seq!["git"@, "log"@] + (if has_format(args) {
        seq![]
    } else {
        seq!["--pretty=format:%h %s (%ar) <%an>"@]
    }) + (if log_limit(args) is Some {
        seq![]
    } else {
        seq!["-10"@]
    }) + args
}

/// A log command, how many commits it shows, and whether the arguments said so.
pub open spec fn log_command(args: Seq<Seq<char>>) -> (Seq<char>, nat, bool) {
    (
        shell_words::command_line(log_words(args)),
        match log_limit(args) {
            Some(n) => n,
            None => LOG_LIMIT as nat,
        },
        log_limit(args) is Some,
    )
}

/// A line of a list, trimmed and cut to the width; empty lines are left out.
pub open spec fn list_line(line: Seq<char>) -> Option<Seq<char>> {
    let t = text::trim(line);
    if t.len() == 0 {
        None
    } else {
        Some(compact::clip(t, LINE_WIDTH as nat))
    }
}

/// The log as it is shown: all of it where the arguments set the limit, else as many
/// lines as the limit says.
pub open spec fn log_report(output: Seq<char>, limit: nat, user_set_limit: bool) -> Seq<char> {
    let list = text::lines(output).filter_map(|l: Seq<char>| list_line(l));
    compact::lines_or(
        if user_set_limit || list.len() <= limit {
            list
        } else {
            list.take(limit as int)
        },
        "No commits"@,
    )
}

/// A branch as it is shown: without pointers to other branches.
pub open spec fn branch_line(line: Seq<char>) -> Option<Seq<char>> {
    let t = text::trim(line);
    if t.len() == 0 || text::contains(t, "->"@) {
        None
    } else {
        Some(t)
    }
}

/// The branches as they are shown.
pub open spec fn branch_report(output: Seq<char>) -> Seq<char> {
    compact::lines_or(
        text::lines(output).filter_map(|l: Seq<char>| branch_line(l)),
        "No branches"@,
    )
}

/// The stashes as they are shown.
pub open spec fn stash_list_report(output: Seq<char>) -> Seq<char> {
    compact::lines_or(
        text::lines(output).filter_map(|l: Seq<char>| list_line(l)),
        "No stashes"@,
    )
}

/// A work tree as it is shown: its columns with one space between them.
pub open spec fn worktree_line(line: Seq<char>) -> Option<Seq<char>> {
    let w = text::words(line);
    if w.len() == 0 {
        None
    } else {
        Some(text::join(w, " "@))
    }
}

/// The work trees as they are shown.
pub open spec fn worktree_report(output: Seq<char>) -> Seq<char> {
    compact::lines_or(
        text::lines(output).filter_map(|l: Seq<char>| worktree_line(l)),
        "No worktrees"@,
    )
}

/// A line of the short status as it is shown: the branch is marked.
pub open spec fn status_line(line: Seq<char>) -> Option<Seq<char>> {
    if text::trim(line).len() == 0 {
        None
    } else if "## "@.is_prefix_of(line) {
        Some("📌 "@ + line.skip("## "@.len() as int))
    } else {
        Some(line)
    }
}

/// A line of the short status that is a change.
pub open spec fn change_line(line: Seq<char>) -> Option<Seq<char>> {
    if text::trim(line).len() == 0 || "## "@.is_prefix_of(line) {
        None
    } else {
        Some(line)
    }
}

/// The short status as it is shown: the branch and the changes, or that there are
/// none.
pub open spec fn status_report(output: Seq<char>) -> Seq<char> {
    let list = text::lines(output);
    let shown = list.filter_map(|l: Seq<char>| status_line(l));
    let changes = list.filter_map(|l: Seq<char>| change_line(l));
    text::join(
        if changes.len() == 0 {
            shown.push("clean"@)
        } else {
            shown
        },
        "\n"@,
    )
}

/// The long status as it is shown: without empty lines and advice.
pub open spec fn long_status_report(output: Seq<char>) -> Seq<char> {
    compact::compact(output, seq!["(use \"git"@], seq![], "clean"@)
}

/// The file that a `diff --git` line is about.
pub open spec fn diff_file(line: Seq<char>) -> Seq<char> {
    text::strip_prefix(text::words(line).last(), "b/"@)
}

/// Whether a line of a diff adds or removes a line.
pub open spec fn is_change(line: Seq<char>) -> bool {
    ||| "+"@.is_prefix_of(line) && !"+++"@.is_prefix_of(line)
    ||| "-"@.is_prefix_of(line) && !"---"@.is_prefix_of(line)
}

/// A line of a diff as it is shown: files, hunks and changes.
pub open spec fn diff_line(line: Seq<char>) -> Option<Seq<char>> {
    if "diff --git "@.is_prefix_of(line) {
        Some("📄 "@ + diff_file(line))
    } else if "@@"@.is_prefix_of(line) {
        Some(line)
    } else if is_change(line) {
        Some("  "@ + line)
    } else {
        None
    }
}

/// The diff as it is shown, cut to `max_lines` lines.
pub open spec fn diff_report(diff: Seq<char>, max_lines: nat) -> Seq<char> {
    text::join(
        compact::cap(
            text::lines(diff).filter_map(|l: Seq<char>| diff_line(l)),
            max_lines,
            "... (more changes truncated)"@,
        ),
        "\n"@,
    )
}

/// Shows lines trimmed and cut to the width.
struct Listed;

impl LineFilter for Listed {
    closed spec fn shows(&self, line: Seq<char>) -> Option<Seq<char>> {
        list_line(line)
    }

    fn show(&self, line: &str) -> (r: Option<String>) {
        let t = text::trimmed(line);
        if t.as_str().is_empty() {
            None
        } else {
            Some(compact::clipped(t.as_str(), LINE_WIDTH))
        }
    }
}

/// Shows branches.
struct Branches;

impl LineFilter for Branches {
    closed spec fn shows(&self, line: Seq<char>) -> Option<Seq<char>> {
        branch_line(line)
    }

    fn show(&self, line: &str) -> (r: Option<String>) {
        let t = text::trimmed(line);
        if t.as_str().is_empty() || text::has(t.as_str(), "->") {
            None
        } else {
            Some(t)
        }
    }
}

/// Shows work trees.
struct Worktrees;

impl LineFilter for Worktrees {
    closed spec fn shows(&self, line: Seq<char>) -> Option<Seq<char>> {
        worktree_line(line)
    }

    fn show(&self, line: &str) -> (r: Option<String>) {
        let w = text::word_list(line);
        if w.len() == 0 {
            None
        } else {
            Some(text::joined(w.as_slice(), " "))
        }
    }
}

/// Shows the short status.
struct ShortStatus;

impl LineFilter for ShortStatus {
    closed spec fn shows(&self, line: Seq<char>) -> Option<Seq<char>> {
        status_line(line)
    }

    fn show(&self, line: &str) -> (r: Option<String>) {
        if text::trimmed(line).as_str().is_empty() {
            None
        } else if text::starts_with(line, "## ") {
            let rest = text::prefix_stripped(line, "## ");
            Some(text::cat("📌 ", rest.as_str()))
        } else {
            Some(line.to_owned())
        }
    }
}

/// Shows the changes in the short status.
struct Changes;

impl LineFilter for Changes {
    closed spec fn shows(&self, line: Seq<char>) -> Option<Seq<char>> {
        change_line(line)
    }

    fn show(&self, line: &str) -> (r: Option<String>) {
        if text::trimmed(line).as_str().is_empty() || text::starts_with(line, "## ") {
            None
        } else {
            Some(line.to_owned())
        }
    }
}

/// Shows a diff.
struct DiffLines;

impl LineFilter for DiffLines {
    closed spec fn shows(&self, line: Seq<char>) -> Option<Seq<char>> {
        diff_line(line)
    }

    fn show(&self, line: &str) -> (r: Option<String>) {
        if text::starts_with(line, "diff --git ") {
            let w = text::word_list(line);
            proof {
                reveal_strlit("diff --git ");
                assert(line@.take(11)[0] == 'd');
                text::lemma_ink_has_word(line@, 0);
            }
            let file = text::prefix_stripped(w[w.len() - 1].as_str(), "b/");
            assert(text::views(w@).last() == w@[w@.len() - 1]@);
            Some(text::cat("📄 ", file.as_str()))
        } else if text::starts_with(line, "@@") {
            Some(line.to_owned())
        } else if (text::starts_with(line, "+") && !text::starts_with(line, "+++")) || (
        text::starts_with(line, "-") && !text::starts_with(line, "---")) {
            Some(text::cat("  ", line))
        } else {
            None
        }
    }
}

/// The limit that `args[i]` sets.
fn read_limit(args: &[String], i: usize) -> (r: Option<usize>)
    requires
        i < args@.len(),
    ensures
        match r {
            Some(n) => limit_at_head(text::views(args@).skip(i as int)) == Some(n as nat),
            None => limit_at_head(text::views(args@).skip(i as int)) is None,
        },
{
    let arg = args[i].as_str();
    let ghost rest = text::views(args@).skip(i as int);
    assert(rest[0] == arg@);
    if text::same(arg, "-n") && i + 1 < args.len() {
        assert(rest[1] == args@[i + 1]@);
        number::parse_usize(args[i + 1].as_str())
    } else if text::starts_with(arg, "--max-count=") {
        number::parse_usize(text::prefix_stripped(arg, "--max-count=").as_str())
    } else if text::starts_with(arg, "-n") {
        number::parse_usize(text::prefix_stripped(arg, "-n").as_str())
    } else if text::starts_with(arg, "-") {
        number::parse_usize(text::prefix_stripped(arg, "-").as_str())
    } else {
        None
    }
}

/// The limit that the arguments of a log set first.
fn find_limit(args: &[String]) -> (r: Option<usize>)
    ensures
        match r {
            Some(n) => log_limit(text::views(args@)) == Some(n as nat),
            None => log_limit(text::views(args@)) is None,
        },
{
    let ghost all = text::views(args@);
    let mut i: usize = 0;
    assert(all.skip(0) == all);
    while i < args.len()
        invariant
            i <= args@.len(),
            all == text::views(args@),
            log_limit(all) == log_limit(all.skip(i as int)),
        decreases args@.len() - i,
    {
        match read_limit(args, i) {
            Some(n) => {
                return Some(n);
            },
            None => {},
        }
        assert(all.skip(i as int).drop_first() == all.skip(i + 1));
        i += 1;
    }
    None
}

/// Whether the arguments of a log say how a commit is written.
fn says_format(args: &[String]) -> (r: bool)
    ensures
        r == has_format(text::views(args@)),
{
    let ghost all = text::views(args@);
    let mut i: usize = 0;
    while i < args.len()
        invariant
            i <= args@.len(),
            all == text::views(args@),
            forall|j: int| 0 <= j < i ==> !is_format_arg(#[trigger] all[j]),
        decreases args@.len() - i,
    {
        let arg = args[i].as_str();
        assert(all[i as int] == arg@);
        if text::starts_with(arg, "--oneline") || text::starts_with(arg, "--pretty")
            || text::starts_with(arg, "--format") {
            return true;
        }
        i += 1;
    }
    false
}

/// Write a log command, and say how many commits it shows and whether the arguments
/// said so.
pub fn build_git_log_command(args: &[String]) -> (r: (String, usize, bool))
    ensures
        (r.0@, r.1 as nat, r.2) == log_command(text::views(args@)),
{
    let mut list: Vec<String> = Vec::new();
    list.push("git".to_owned());
    list.push("log".to_owned());
    if !says_format(args) {
        list.push("--pretty=format:%h %s (%ar) <%an>".to_owned());
    }
    let found = find_limit(args);
    if found.is_none() {
        list.push("-10".to_owned());
    }
    let mut rest = compact::copied(args, 0, args.len());
    assert(text::views(args@).subrange(0, args@.len() as int) == text::views(args@));
    list.append(&mut rest);
    assert(text::views(list@) =~= log_words(text::views(args@)));
    let command = shell_words::join(list.as_slice());
    match found {
        Some(n) => (command, n, true),
        None => (command, LOG_LIMIT, false),
    }
}

/// Shorten a log.
pub fn render_git_log_output(output: &str, limit: usize, user_set_limit: bool) -> (r: String)
    ensures
        r@ == log_report(output@, limit as nat, user_set_limit),
{
    let all = text::line_list(output);
    let list = compact::show_lines(&Listed, all.as_slice());
    proof {
        assert((|l: Seq<char>| Listed.shows(l)) =~= (|l: Seq<char>| list_line(l)));
    }
    if user_set_limit || list.len() <= limit {
        compact::joined_or(list.as_slice(), "No commits")
    } else {
        let front = compact::copied(list.as_slice(), 0, limit);
        compact::joined_or(front.as_slice(), "No commits")
    }
}

/// Shorten a list of branches.
pub fn filter_branch_output(output: &str) -> (r: String)
    ensures
        r@ == branch_report(output@),
{
    let all = text::line_list(output);
    let list = compact::show_lines(&Branches, all.as_slice());
    proof {
        assert((|l: Seq<char>| Branches.shows(l)) =~= (|l: Seq<char>| branch_line(l)));
    }
    compact::joined_or(list.as_slice(), "No branches")
}

/// Shorten a list of stashes.
pub fn filter_stash_list(output: &str) -> (r: String)
    ensures
        r@ == stash_list_report(output@),
{
    let all = text::line_list(output);
    let list = compact::show_lines(&Listed, all.as_slice());
    proof {
        assert((|l: Seq<char>| Listed.shows(l)) =~= (|l: Seq<char>| list_line(l)));
    }
    compact::joined_or(list.as_slice(), "No stashes")
}

/// Shorten a list of work trees.
pub fn filter_worktree_list(output: &str) -> (r: String)
    ensures
        r@ == worktree_report(output@),
{
    let all = text::line_list(output);
    let list = compact::show_lines(&Worktrees, all.as_slice());
    proof {
        assert((|l: Seq<char>| Worktrees.shows(l)) =~= (|l: Seq<char>| worktree_line(l)));
    }
    compact::joined_or(list.as_slice(), "No worktrees")
}

/// Shorten the short status.
pub fn format_status_output(output: &str) -> (r: String)
    ensures
        r@ == status_report(output@),
{
    let all = text::line_list(output);
    let mut list = compact::show_lines(&ShortStatus, all.as_slice());
    let changes = compact::show_lines(&Changes, all.as_slice());
    proof {
        assert((|l: Seq<char>| ShortStatus.shows(l)) =~= (|l: Seq<char>| status_line(l)));
        assert((|l: Seq<char>| Changes.shows(l)) =~= (|l: Seq<char>| change_line(l)));
    }
    if changes.len() == 0 {
        let clean = "clean".to_owned();
        proof {
            text::lemma_views_push(list@, clean);
        }
        list.push(clean);
    }
    text::joined(list.as_slice(), "\n")
}

/// Shorten the long status.
pub fn filter_status_with_args(output: &str) -> (r: String)
    ensures
        r@ == long_status_report(output@),
{
    let starts: Vec<&str> = vec!["(use \"git"];
    let ends: Vec<&str> = Vec::new();
    proof {
        assert(text::str_views(starts@) =~= seq!["(use \"git"@]);
        assert(text::str_views(ends@) =~= Seq::<Seq<char>>::empty());
    }
    compact::compacted(output, starts.as_slice(), ends.as_slice(), "clean")
}

/// Shorten a diff.
pub fn compact_diff(diff: &str, max_lines: usize) -> (r: String)
    ensures
        r@ == diff_report(diff@, max_lines as nat),
{
    let all = text::line_list(diff);
    let list = compact::show_lines(&DiffLines, all.as_slice());
    proof {
        assert((|l: Seq<char>| DiffLines.shows(l)) =~= (|l: Seq<char>| diff_line(l)));
    }
    let more = "... (more changes truncated)".to_owned();
    let parts = compact::capped(list, max_lines, more);
    text::joined(parts.as_slice(), "\n")
}

} // verus!
