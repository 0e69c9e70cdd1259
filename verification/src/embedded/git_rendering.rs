//! How the results of `git` steps are shown.
use vstd::prelude::*;
use crate::compact;
use crate::compact::LineFilter;
use crate::embedded::{GitRenderer, GitStashRenderer, StepResult};
use crate::embedded;
use crate::embedded::ResultView;
use crate::git;
use crate::number;
use crate::text;

verus! {

/// How many lines of a stash are shown.
pub const STASH_LINES: usize = 100;

/// The numbers and the diff, of which either may be missing.
pub open spec fn diff_shown(stat: Seq<char>, diff: Seq<char>, max_lines: nat) -> Seq<char> {
    let s = text::trim(stat);
    let d = git::diff_report(text::trim(diff), max_lines);
    if s.len() == 0 {
        d
    } else if d.len() == 0 {
        s
    } else {
        s + "\n\n--- Changes ---\n"@ + d
    }
}

/// The text as the only part, or no part if it is empty.
pub open spec fn part(s: Seq<char>) -> Seq<Seq<char>> {
    if s.len() == 0 {
        seq![]
    } else {
        seq![s]
    }
}

/// The summary, the numbers and the diff of a commit, those that are not empty.
pub open spec fn commit_shown(
    summary: Seq<char>,
    stat: Seq<char>,
    diff: Seq<char>,
    max_lines: nat,
) -> Seq<char> {
    text::join(
        part(text::trim(summary)) + part(text::trim(stat)) + (if text::trim(diff).len() == 0 {
            seq![]
        } else {
            part(git::diff_report(text::trim(diff), max_lines))
        }),
        "\n"@,
    )
}

/// The last line of `s`, trimmed.
pub open spec fn last_line(s: Seq<char>) -> Seq<char> {
    let list = text::lines(s);
    if list.len() == 0 {
        text::trim(seq![])
    } else {
        text::trim(list.last())
    }
}

/// What adding did: why it failed, or what is now to be committed.
pub open spec fn add_shown(added: ResultView, counted: ResultView) -> Seq<char> {
    let short = last_line(counted.output);
    if !added.succeeded {
        text::trim(added.output)
    } else if short.len() == 0 {
        "ok (nothing to add)"@
    } else {
        "ok ✓ "@ + short
    }
}

/// That a change succeeded, or why it failed.
pub open spec fn change_shown(result: ResultView) -> Seq<char> {
    if result.succeeded {
        "ok ✓"@
    } else {
        text::trim(result.output)
    }
}

/// How many bytes of a commit's hash are shown.
pub const HASH_BYTES: usize = 7;

/// Where the square bracket stands that closes the first line of a commit's output.
pub open spec fn bracket(line: Seq<char>) -> int {
    text::index_where(line, text::only(']'))
}

/// The words between the first character of the line and its closing square bracket.
pub open spec fn bracketed_words(line: Seq<char>) -> Seq<Seq<char>> {
    text::words(line.subrange(1, bracket(line)))
}

/// Whether the line can be cut behind its first byte and before its bracket, and the
/// hash behind its seventh byte. A line without a bracket is not cut.
pub open spec fn line_can_be_cut(line: Seq<char>) -> bool {
    bracket(line) < line.len() ==> {
        let w = bracketed_words(line);
        let hash = vstd::utf8::encode_utf8(w.last());
        &&& bracket(line) >= 1
        &&& (line[0] as u32) < 0x80
        &&& w.len() > 0 && hash.len() >= HASH_BYTES ==> vstd::utf8::is_char_boundary(
            hash,
            HASH_BYTES as int,
        )
    }
}

/// Whether the output of a commit can be cut where its hash is looked for.
pub open spec fn commit_can_be_cut(output: Seq<char>) -> bool {
    let list = text::lines(text::trim(output));
    list.len() > 0 ==> line_can_be_cut(list[0])
}

/// The start of the hash in the first line of a commit's output: the last word before
/// the closing square bracket, if it has enough bytes.
pub open spec fn hash_in(line: Seq<char>) -> Option<Seq<char>> {
    let w = bracketed_words(line);
    let hash = vstd::utf8::encode_utf8(w.last());
    if bracket(line) < line.len() && w.len() > 0 && hash.len() >= HASH_BYTES {
        Some(vstd::utf8::decode_utf8(hash.take(HASH_BYTES as int)))
    } else {
        None
    }
}

/// What a commit did: its hash, that there was nothing to commit, or why it failed.
pub open spec fn commit_report(result: ResultView) -> Seq<char> {
    let t = text::trim(result.output);
    let list = text::lines(t);
    if result.succeeded {
        if list.len() > 0 && hash_in(list[0]) is Some {
            "ok ✓ "@ + hash_in(list[0])->0
        } else {
            "ok ✓"@
        }
    } else if text::contains(t, "nothing to commit"@) {
        "ok (nothing to commit)"@
    } else {
        t
    }
}

/// The lines with an arrow.
pub open spec fn with_arrow() -> spec_fn(Seq<char>) -> bool {
    |line: Seq<char>| text::contains(line, "->"@)
}

/// What a push did: the last word of the first line with an arrow says where it went.
pub open spec fn push_report(result: ResultView) -> Seq<char> {
    let t = text::trim(result.output);
    let list = text::lines(t);
    let n = text::index_where(list, with_arrow());
    if !result.succeeded {
        t
    } else if text::contains(t, "Everything up-to-date"@) {
        "ok (up-to-date)"@
    } else if 0 <= n < list.len() {
        "ok ✓ "@ + text::words(list[n]).last()
    } else {
        "ok ✓"@
    }
}

/// The parts of a line that counts changed files, or nothing for other lines.
pub open spec fn count_parts(line: Seq<char>) -> Seq<Seq<char>> {
    if text::contains(line, "file"@) && text::contains(line, "changed"@) {
        text::split_on(line, ',').map_values(|p: Seq<char>| text::trim(p))
    } else {
        seq![]
    }
}

/// The parts of all lines that count changed files.
pub open spec fn all_count_parts(list: Seq<Seq<char>>) -> Seq<Seq<char>> {
    list.flat_map(|line: Seq<char>| count_parts(line))
}

/// The parts that count files.
pub open spec fn counts_files() -> spec_fn(Seq<char>) -> bool {
    |p: Seq<char>| text::contains(p, "file"@)
}

/// The parts that count insertions.
pub open spec fn counts_insertions() -> spec_fn(Seq<char>) -> bool {
    |p: Seq<char>| !text::contains(p, "file"@) && text::contains(p, "insertion"@)
}

/// The parts that count deletions.
pub open spec fn counts_deletions() -> spec_fn(Seq<char>) -> bool {
    |p: Seq<char>|
        !text::contains(p, "file"@) && !text::contains(p, "insertion"@) && text::contains(
            p,
            "deletion"@,
        )
}

/// The number that a part starts with, or zero.
pub open spec fn leading_number(p: Seq<char>) -> int {
    let w = text::words(p);
    if w.len() == 0 {
        0
    } else {
        match number::parse_signed(w[0], 0x8000_0000, 0x7fff_ffff) {
            Some(n) => n,
            None => 0,
        }
    }
}

/// The number in the last part that counts what `counts` says, or zero.
pub open spec fn last_count(parts: Seq<Seq<char>>, counts: spec_fn(Seq<char>) -> bool) -> int {
    let n = text::end_where(parts, counts);
    if n > 0 {
        leading_number(parts[n - 1])
    } else {
        0
    }
}

/// What a pull did: how many files changed, and how many lines.
pub open spec fn pull_report(result: ResultView) -> Seq<char> {
    let t = text::trim(result.output);
    let parts = all_count_parts(text::lines(t));
    let files = last_count(parts, counts_files());
    if !result.succeeded {
        t
    } else if text::contains(t, "Already up to date"@) || text::contains(t, "Already up-to-date"@) {
        "ok (up-to-date)"@
    } else if files > 0 {
        "ok ✓ "@ + number::integer_text(files) + " files +"@ + number::integer_text(
            last_count(parts, counts_insertions()),
        ) + " -"@ + number::integer_text(last_count(parts, counts_deletions()))
    } else {
        "ok ✓"@
    }
}

/// A line about a new reference.
pub open spec fn new_ref(line: Seq<char>) -> Option<Seq<char>> {
    if text::contains(line, "->"@) || text::contains(line, "[new"@) {
        Some(line)
    } else {
        None
    }
}

/// How many lines are about new references.
pub open spec fn new_refs(t: Seq<char>) -> nat {
    text::lines(t).filter_map(|l: Seq<char>| new_ref(l)).len()
}

/// What a fetch did.
pub open spec fn fetch_report(result: ResultView) -> Seq<char> {
    let t = text::trim(result.output);
    if !result.succeeded {
        t
    } else if new_refs(t) > 0 {
        "ok fetched ("@ + number::decimal(new_refs(t)) + " new refs)"@
    } else {
        "ok fetched"@
    }
}

/// What a stash command did, or the stash.
pub open spec fn stash_report(
    renderer: GitStashRenderer<Seq<char>>,
    result: ResultView,
) -> Seq<char> {
    let t = text::trim(result.output);
    match renderer {
        GitStashRenderer::Action { subcommand } => if result.succeeded {
            "ok stash "@ + subcommand
        } else {
            t
        },
        GitStashRenderer::Default => if !result.succeeded {
            t
        } else if text::contains(t, "No local changes"@) {
            "ok (nothing to stash)"@
        } else {
            "ok stashed"@
        },
        GitStashRenderer::List => if t.len() == 0 {
            "No stashes"@
        } else {
            git::stash_list_report(t)
        },
        GitStashRenderer::Show => if t.len() == 0 {
            "Empty stash"@
        } else {
            git::diff_report(t, STASH_LINES as nat)
        },
    }
}

/// What is shown of the results of a `git` plan.
pub open spec fn git_shown(
    renderer: GitRenderer<Seq<char>>,
    results: Seq<ResultView>,
) -> Seq<char> {
    match renderer {
        GitRenderer::Add => add_shown(results[0], results[1]),
        GitRenderer::Branch { write } => if write {
            change_shown(results[0])
        } else {
            git::branch_report(results[0].output)
        },
        GitRenderer::Commit => commit_report(results[0]),
        GitRenderer::Diff { max_lines } => diff_shown(
            results[0].output,
            results[1].output,
            max_lines as nat,
        ),
        GitRenderer::Fetch => fetch_report(results[0]),
        GitRenderer::Log { limit, user_set_limit } => git::log_report(
            results[0].output,
            limit as nat,
            user_set_limit,
        ),
        GitRenderer::Pull => pull_report(results[0]),
        GitRenderer::Push => push_report(results[0]),
        GitRenderer::Show { max_lines, passthrough } => if passthrough {
            text::trim(results[0].output)
        } else {
            commit_shown(
                results[0].output,
                results[1].output,
                results[2].output,
                max_lines as nat,
            )
        },
        GitRenderer::Stash(stash) => stash_report(stash, results[0]),
        GitRenderer::Status { compact } => if compact {
            git::status_report(results[0].output)
        } else {
            git::long_status_report(results[0].output)
        },
        GitRenderer::Worktree { write } => if write {
            change_shown(results[0])
        } else {
            git::worktree_report(results[0].output)
        },
    }
}

/// Show the numbers and the diff.
pub fn render_git_diff_output(stat_output: &str, diff_output: &str, max_lines: usize) -> (r: String)
    ensures
        r@ == diff_shown(stat_output@, diff_output@, max_lines as nat),
{
    let stat = text::trimmed(stat_output);
    let diff = text::trimmed(diff_output);
    let compacted = git::compact_diff(diff.as_str(), max_lines);
    if stat.as_str().is_empty() {
        compacted
    } else if compacted.as_str().is_empty() {
        stat
    } else {
        let front = text::cat(stat.as_str(), "\n\n--- Changes ---\n");
        text::cat(front.as_str(), compacted.as_str())
    }
}

/// Add `s` to the parts unless it is empty.
fn add_part(parts: &mut Vec<String>, s: String)
    ensures
        text::views(final(parts)@) == text::views(old(parts)@) + part(s@),
{
    proof {
        text::lemma_views_push(parts@, s);
        assert(text::views(parts@).push(s@) =~= text::views(parts@) + seq![s@]);
        assert(text::views(parts@) + Seq::<Seq<char>>::empty() =~= text::views(parts@));
    }
    if !s.as_str().is_empty() {
        parts.push(s);
    }
}

/// Show the summary, the numbers and the diff of a commit.
pub fn render_git_show_output(
    summary_output: &str,
    stat_output: &str,
    diff_output: &str,
    max_lines: usize,
) -> (r: String)
    ensures
        r@ == commit_shown(summary_output@, stat_output@, diff_output@, max_lines as nat),
{
    let mut parts: Vec<String> = Vec::new();
    let summary = text::trimmed(summary_output);
    let stat = text::trimmed(stat_output);
    let diff = text::trimmed(diff_output);
    let ghost a = part(summary@);
    let ghost b = part(stat@);
    add_part(&mut parts, summary);
    assert(text::views(parts@) =~= a);
    add_part(&mut parts, stat);
    if !diff.as_str().is_empty() {
        let compacted = git::compact_diff(diff.as_str(), max_lines);
        add_part(&mut parts, compacted);
    } else {
        assert(a + b + Seq::<Seq<char>>::empty() =~= a + b);
    }
    text::joined(parts.as_slice(), "\n")
}

/// The last line of `s`, trimmed.
fn trimmed_last_line(s: &str) -> (r: String)
    ensures
        r@ == last_line(s@),
{
    let list = text::line_list(s);
    if list.len() == 0 {
        proof {
            reveal_strlit("");
            assert(""@ =~= Seq::<char>::empty());
        }
        text::trimmed("")
    } else {
        assert(text::views(list@).last() == list@[list@.len() - 1]@);
        text::trimmed(list[list.len() - 1].as_str())
    }
}

/// The position of the square bracket that closes the first line of a commit's output.
fn find_bracket(line: &str) -> (r: usize)
    ensures
        r == bracket(line@),
        r <= line@.len(),
{
    let cs = text::chars_of(line);
    let mut k: usize = 0;
    while k < cs.len() && cs[k] != ']'
        invariant
            k <= cs@.len(),
            cs@ == line@,
            forall|j: int| 0 <= j < k ==> !text::only(']')(#[trigger] cs@[j]),
        decreases cs@.len() - k,
    {
        k += 1;
    }
    proof {
        text::lemma_index_where(line@, text::only(']'), k as int);
    }
    k
}

/// Whether the output of a commit can be cut where its hash is looked for.
pub fn can_cut_commit(output: &str) -> (r: bool)
    ensures
        r == commit_can_be_cut(output@),
{
    let trimmed = text::trimmed(output);
    let list = text::line_list(trimmed.as_str());
    if list.len() == 0 {
        return true;
    }
    assert(text::views(list@)[0] == list@[0]@);
    let cs = text::chars_of(list[0].as_str());
    let k = find_bracket(list[0].as_str());
    if k == cs.len() {
        return true;
    }
    if k == 0 || cs[0] as u32 >= 0x80 {
        return false;
    }
    let header = text::string_of(cs.as_slice(), 1, k);
    let w = text::word_list(header.as_str());
    if w.len() == 0 {
        return true;
    }
    assert(text::views(w@).last() == w@[w@.len() - 1]@);
    let hash = w[w.len() - 1].as_str();
    hash.as_bytes().len() < HASH_BYTES || hash.is_char_boundary(HASH_BYTES)
}

/// The start of the hash in the first line of a commit's output.
fn find_hash(line: &str) -> (r: Option<String>)
    requires
        line_can_be_cut(line@),
    ensures
        text::opt_view(r) == hash_in(line@),
{
    let cs = text::chars_of(line);
    let k = find_bracket(line);
    if k == cs.len() {
        return None;
    }
    let header = text::string_of(cs.as_slice(), 1, k);
    let w = text::word_list(header.as_str());
    if w.len() == 0 {
        return None;
    }
    assert(text::views(w@).last() == w@[w@.len() - 1]@);
    let hash = w[w.len() - 1].as_str();
    if hash.as_bytes().len() < HASH_BYTES {
        return None;
    }
    let (front, _) = hash.split_at(HASH_BYTES);
    proof {
        vstd::utf8::encode_utf8_decode_utf8(front@);
        assert(vstd::utf8::encode_utf8(front@) =~= vstd::utf8::encode_utf8(hash@).take(
            HASH_BYTES as int,
        ));
    }
    Some(front.to_owned())
}

/// Show what a commit did.
pub fn render_git_commit_output(result: StepResult<'_>) -> (r: String)
    requires
        result.succeeded ==> commit_can_be_cut(result.output@),
    ensures
        r@ == commit_report(result@),
{
    let output = text::trimmed(result.output);
    if result.succeeded {
        let list = text::line_list(output.as_str());
        if list.len() > 0 {
            assert(text::views(list@)[0] == list@[0]@);
            match find_hash(list[0].as_str()) {
                Some(hash) => {
                    return text::cat("ok ✓ ", hash.as_str());
                },
                None => {},
            }
        }
        "ok ✓".to_owned()
    } else if text::has(output.as_str(), "nothing to commit") {
        "ok (nothing to commit)".to_owned()
    } else {
        output
    }
}

/// Show what a push did.
pub fn render_git_push_output(result: StepResult<'_>) -> (r: String)
    ensures
        r@ == push_report(result@),
{
    let output = text::trimmed(result.output);
    if !result.succeeded {
        return output;
    }
    if text::has(output.as_str(), "Everything up-to-date") {
        return "ok (up-to-date)".to_owned();
    }
    let list = text::line_list(output.as_str());
    let ghost all = text::views(list@);
    let mut i: usize = 0;
    while i < list.len()
        invariant
            i <= list@.len(),
            all == text::views(list@),
            all == text::lines(output@),
            output@ == text::trim(result.output@),
            result.succeeded,
            !text::contains(output@, "Everything up-to-date"@),
            forall|j: int| 0 <= j < i ==> !with_arrow()(#[trigger] all[j]),
        decreases list@.len() - i,
    {
        assert(all[i as int] == list@[i as int]@);
        if text::has(list[i].as_str(), "->") {
            let w = text::word_list(list[i].as_str());
            proof {
                text::lemma_index_where(all, with_arrow(), i as int);
                lemma_arrow_has_word(all[i as int]);
                assert(text::views(w@).last() == w@[w@.len() - 1]@);
            }
            return text::cat("ok ✓ ", w[w.len() - 1].as_str());
        }
        i += 1;
    }
    proof {
        text::lemma_index_where(all, with_arrow(), i as int);
    }
    "ok ✓".to_owned()
}

/// A line with an arrow has a word.
proof fn lemma_arrow_has_word(line: Seq<char>)
    requires
        text::contains(line, "->"@),
    ensures
        text::words(line).len() > 0,
{
    reveal_strlit("->");
    let i = choose|i: int| text::occurs_at(line, "->"@, i);
    assert(line.subrange(i, i + 2)[0] == '-');
    text::lemma_ink_has_word(line, i);
}

/// The number that a part starts with, or zero.
fn read_leading_number(p: &str) -> (r: i32)
    ensures
        r == leading_number(p@),
{
    let w = text::word_list(p);
    if w.len() == 0 {
        return 0;
    }
    assert(text::views(w@)[0] == w@[0]@);
    match number::parse_i32(w[0].as_str()) {
        Some(n) => n,
        None => 0,
    }
}

/// The parts of a line that counts changed files.
fn parts_of(line: &str) -> (r: Vec<String>)
    ensures
        text::views(r@) == count_parts(line@),
{
    let mut r: Vec<String> = Vec::new();
    if !(text::has(line, "file") && text::has(line, "changed")) {
        assert(text::views(r@) =~= Seq::<Seq<char>>::empty());
        return r;
    }
    let list = text::pieces(line, ',');
    let ghost f = |p: Seq<char>| text::trim(p);
    let ghost all = text::views(list@).map_values(f);
    let mut i: usize = 0;
    while i < list.len()
        invariant
            i <= list@.len(),
            f == (|p: Seq<char>| text::trim(p)),
            all == text::views(list@).map_values(f),
            text::views(r@) == all.take(i as int),
        decreases list@.len() - i,
    {
        let piece = text::trimmed(list[i].as_str());
        proof {
            text::lemma_views_push(r@, piece);
            assert(all.take(i + 1) =~= all.take(i as int).push(piece@));
        }
        r.push(piece);
        i += 1;
    }
    assert(all.take(i as int) =~= all);
    r
}

/// The parts of all lines that count changed files.
fn all_parts_of(list: &[String]) -> (r: Vec<String>)
    ensures
        text::views(r@) == all_count_parts(text::views(list@)),
{
    let ghost all = text::views(list@);
    let ghost f = |line: Seq<char>| count_parts(line);
    let mut r: Vec<String> = Vec::new();
    let mut i: usize = 0;
    proof {
        assert(all.take(0) =~= Seq::<Seq<char>>::empty());
        assert(all.take(0).flat_map(f) =~= Seq::<Seq<char>>::empty());
    }
    while i < list.len()
        invariant
            i <= list@.len(),
            all == text::views(list@),
            f == (|line: Seq<char>| count_parts(line)),
            text::views(r@) == all.take(i as int).flat_map(f),
        decreases list@.len() - i,
    {
        let mut more = parts_of(list[i].as_str());
        proof {
            all.lemma_flat_map_take_append(f, i as int);
            assert(text::views(r@ + more@) =~= text::views(r@) + text::views(more@));
        }
        r.append(&mut more);
        i += 1;
    }
    assert(all.take(i as int) =~= all);
    r
}

/// One more part decides the count if it counts the same.
proof fn lemma_last_count_step(
    parts: Seq<Seq<char>>,
    counts: spec_fn(Seq<char>) -> bool,
    i: int,
)
    requires
        0 <= i < parts.len(),
    ensures
        last_count(parts.take(i + 1), counts) == if counts(parts[i]) {
            leading_number(parts[i])
        } else {
            last_count(parts.take(i), counts)
        },
{
    let more = parts.take(i + 1);
    assert(more.drop_last() =~= parts.take(i));
    assert(more.last() == parts[i]);
    text::lemma_end_where_bounds(parts.take(i), counts);
}

/// Show what a pull did.
pub fn render_git_pull_output(result: StepResult<'_>) -> (r: String)
    ensures
        r@ == pull_report(result@),
{
    let output = text::trimmed(result.output);
    if !result.succeeded {
        return output;
    }
    if text::has(output.as_str(), "Already up to date") || text::has(
        output.as_str(),
        "Already up-to-date",
    ) {
        return "ok (up-to-date)".to_owned();
    }
    let list = text::line_list(output.as_str());
    let parts = all_parts_of(list.as_slice());
    let ghost all = text::views(parts@);
    let mut files: i32 = 0;
    let mut insertions: i32 = 0;
    let mut deletions: i32 = 0;
    let mut i: usize = 0;
    assert(all.take(0) =~= Seq::<Seq<char>>::empty());
    while i < parts.len()
        invariant
            i <= parts@.len(),
            all == text::views(parts@),
            files == last_count(all.take(i as int), counts_files()),
            insertions == last_count(all.take(i as int), counts_insertions()),
            deletions == last_count(all.take(i as int), counts_deletions()),
        decreases parts@.len() - i,
    {
        let p = parts[i].as_str();
        proof {
            assert(all[i as int] == p@);
            lemma_last_count_step(all, counts_files(), i as int);
            lemma_last_count_step(all, counts_insertions(), i as int);
            lemma_last_count_step(all, counts_deletions(), i as int);
        }
        if text::has(p, "file") {
            files = read_leading_number(p);
        } else if text::has(p, "insertion") {
            insertions = read_leading_number(p);
        } else if text::has(p, "deletion") {
            deletions = read_leading_number(p);
        }
        i += 1;
    }
    assert(all.take(i as int) =~= all);
    if files > 0 {
        let mut r = "ok ✓ ".to_owned();
        r.append(number::integer_string(files).as_str());
        r.append(" files +");
        r.append(number::integer_string(insertions).as_str());
        r.append(" -");
        r.append(number::integer_string(deletions).as_str());
        r
    } else {
        "ok ✓".to_owned()
    }
}

/// Picks the lines about new references.
struct NewRefs;

impl LineFilter for NewRefs {
    closed spec fn shows(&self, line: Seq<char>) -> Option<Seq<char>> {
        new_ref(line)
    }

    fn show(&self, line: &str) -> (r: Option<String>) {
        if text::has(line, "->") || text::has(line, "[new") {
            Some(line.to_owned())
        } else {
            None
        }
    }
}

/// Show what a fetch did.
pub fn render_git_fetch_output(result: StepResult<'_>) -> (r: String)
    ensures
        r@ == fetch_report(result@),
{
    let output = text::trimmed(result.output);
    if !result.succeeded {
        return output;
    }
    let list = text::line_list(output.as_str());
    let refs = compact::show_lines(&NewRefs, list.as_slice());
    proof {
        assert((|l: Seq<char>| NewRefs.shows(l)) =~= (|l: Seq<char>| new_ref(l)));
        assert(refs@.len() == text::views(refs@).len());
    }
    if refs.len() > 0 {
        let mut r = "ok fetched (".to_owned();
        r.append(number::decimal_string(refs.len() as u64).as_str());
        r.append(" new refs)");
        r
    } else {
        "ok fetched".to_owned()
    }
}

/// Show what a stash command did, or the stash.
pub fn render_git_stash_output(
    renderer: &GitStashRenderer<String>,
    result: StepResult<'_>,
) -> (r: String)
    ensures
        r@ == stash_report(renderer@, result@),
{
    let output = text::trimmed(result.output);
    match renderer {
        GitStashRenderer::Action { subcommand } => {
            if result.succeeded {
                text::cat("ok stash ", subcommand.as_str())
            } else {
                output
            }
        },
        GitStashRenderer::Default => {
            if result.succeeded {
                if text::has(output.as_str(), "No local changes") {
                    "ok (nothing to stash)".to_owned()
                } else {
                    "ok stashed".to_owned()
                }
            } else {
                output
            }
        },
        GitStashRenderer::List => {
            if output.as_str().is_empty() {
                "No stashes".to_owned()
            } else {
                git::filter_stash_list(output.as_str())
            }
        },
        GitStashRenderer::Show => {
            if output.as_str().is_empty() {
                "Empty stash".to_owned()
            } else {
                git::compact_diff(output.as_str(), STASH_LINES)
            }
        },
    }
}

/// Show that a change succeeded, or why it failed.
fn render_change(result: StepResult<'_>) -> (r: String)
    ensures
        r@ == change_shown(result@),
{
    if result.succeeded {
        "ok ✓".to_owned()
    } else {
        text::trimmed(result.output)
    }
}

/// Show the results of a `git` plan.
pub fn render_git_output(renderer: &GitRenderer<String>, results: &[StepResult<'_>]) -> (r: String)
    requires
        results@.len() >= 1,
        renderer is Add && !results@[0].succeeded || embedded::results_read(
            embedded::Renderer::Git(*renderer),
        ) <= results@.len(),
        renderer is Commit && results@[0].succeeded ==> commit_can_be_cut(results@[0].output@),
    ensures
        r@ == git_shown(renderer@, embedded::result_views(results@)),
{
    let first = results[0];
    match renderer {
        GitRenderer::Add => {
            if !first.succeeded {
                return text::trimmed(first.output);
            }
            let short = trimmed_last_line(results[1].output);
            if short.as_str().is_empty() {
                "ok (nothing to add)".to_owned()
            } else {
                text::cat("ok ✓ ", short.as_str())
            }
        },
        GitRenderer::Branch { write } => {
            if *write {
                render_change(first)
            } else {
                git::filter_branch_output(first.output)
            }
        },
        GitRenderer::Commit => render_git_commit_output(first),
        GitRenderer::Diff { max_lines } => render_git_diff_output(
            first.output,
            results[1].output,
            *max_lines,
        ),
        GitRenderer::Fetch => render_git_fetch_output(first),
        GitRenderer::Log { limit, user_set_limit } => git::render_git_log_output(
            first.output,
            *limit,
            *user_set_limit,
        ),
        GitRenderer::Pull => render_git_pull_output(first),
        GitRenderer::Push => render_git_push_output(first),
        GitRenderer::Show { max_lines, passthrough } => {
            if *passthrough {
                text::trimmed(first.output)
            } else {
                render_git_show_output(
                    first.output,
                    results[1].output,
                    results[2].output,
                    *max_lines,
                )
            }
        },
        GitRenderer::Stash(stash) => render_git_stash_output(stash, first),
        GitRenderer::Status { compact } => {
            if *compact {
                git::format_status_output(first.output)
            } else {
                git::filter_status_with_args(first.output)
            }
        },
        GitRenderer::Worktree { write } => {
            if *write {
                render_change(first)
            } else {
                git::filter_worktree_list(first.output)
            }
        },
    }
}

} // verus!
