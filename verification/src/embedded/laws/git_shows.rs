//! What is shown of what each `git` command printed.
use vstd::prelude::*;
use crate::embedded::{GitRenderer, GitStashRenderer, PlanView, Renderer, ResultView};
use crate::embedded;
use crate::embedded::git_rendering;
use crate::embedded::laws;
use crate::git;
use crate::number;
use crate::text;

verus! {

/// What is shown of one result.
pub open spec fn shows(
    renderer: GitRenderer<Seq<char>>,
    output: Seq<char>,
    succeeded: bool,
) -> Seq<char> {
    git_rendering::git_shown(renderer, seq![ResultView { output, succeeded }])
}

/// The first line of a text.
proof fn lemma_first_line(line: Seq<char>, tail: Seq<char>)
    requires
        line.len() > 0,
        line.last() != '\r',
        forall|i: int| 0 <= i < line.len() ==> (#[trigger] line[i]) != '\n',
        tail.len() == 0 || tail[0] == '\n',
    ensures
        text::lines(line + tail).len() > 0,
        text::lines(line + tail)[0] == line,
{
    if tail.len() == 0 {
        assert(line + tail =~= line);
        text::laws::law_lines(line, tail);
    } else {
        text::laws::law_lines(line, tail.drop_first());
        assert(line + tail =~= line + seq!['\n'] + tail.drop_first());
    }
}

/// What was added is shown by the last line of its count, wherever that ends; and where there
/// is no such line, nothing was added.
pub proof fn law_additions_are_shown(
    added: Seq<char>,
    front: Seq<char>,
    line: Seq<char>,
    end: Seq<char>,
    succeeded: bool,
)
    requires
        front.len() == 0 || front.last() == '\n',
        forall|i: int| 0 <= i < line.len() ==> (#[trigger] line[i]) != '\n',
        line.len() > 0 && line.last() != '\r',
        end.len() == 0 || end == seq!['\n'],
    ensures
        ({
            let shown = git_rendering::git_shown(
                GitRenderer::Add,
                seq![
                    ResultView { output: added, succeeded: true },
                    ResultView { output: front + line + end, succeeded },
                ],
            );
            &&& text::trim(line).len() > 0 ==> shown == "ok ✓ "@ + text::trim(line)
            &&& text::trim(line).len() == 0 ==> shown == "ok (nothing to add)"@
        }),
        git_rendering::git_shown(
            GitRenderer::Add,
            seq![
                ResultView { output: added, succeeded: true },
                ResultView { output: Seq::<char>::empty(), succeeded },
            ],
        ) == "ok (nothing to add)"@,
{
    let e = Seq::<char>::empty();
    text::laws::law_lines_behind(front, line + end);
    assert(front + line + end =~= front + (line + end));
    text::laws::law_lines(line, e);
    text::laws::law_lines(e, e);
    if end.len() == 0 {
        assert(line + end =~= line);
    } else {
        assert(line + end =~= line + seq!['\n'] + e);
        assert(seq![line] + Seq::<Seq<char>>::empty() =~= seq![line]);
    }
    let list = text::lines(front + line + end);
    assert(list.last() == line);
    text::laws::law_trim(e, e, e);
    assert(e + e + e =~= e);
    assert(text::trim(e) =~= e);
}

/// Where adding failed, what it printed is shown, trimmed, whatever was counted.
pub proof fn law_failed_additions_are_shown(added: Seq<char>, counted: Seq<ResultView>)
    ensures
        git_rendering::git_shown(
            GitRenderer::Add,
            seq![ResultView { output: added, succeeded: false }] + counted,
        ) == text::trim(added),
{
}

/// A change of branches or of work trees that succeeded is acknowledged, and one that failed
/// says why; a listing is shown as such, whether it succeeded or not.
pub proof fn law_changes_and_listings_are_shown(output: Seq<char>, succeeded: bool)
    ensures
        shows(GitRenderer::Branch { write: true }, output, true) == "ok ✓"@,
        shows(GitRenderer::Branch { write: true }, output, false) == text::trim(output),
        shows(GitRenderer::Branch { write: false }, output, succeeded) == git::branch_report(output),
        shows(GitRenderer::Worktree { write: true }, output, true) == "ok ✓"@,
        shows(GitRenderer::Worktree { write: true }, output, false) == text::trim(output),
        shows(GitRenderer::Worktree { write: false }, output, succeeded) == git::worktree_report(
            output,
        ),
        shows(GitRenderer::Status { compact: true }, output, succeeded) == git::status_report(output),
        shows(GitRenderer::Status { compact: false }, output, succeeded)
            == git::long_status_report(output),
{
}

/// A log is shown with the limit that it was asked for with, and what is shown as it was
/// asked for is trimmed.
pub proof fn law_logs_and_whole_output_are_shown(
    output: Seq<char>,
    succeeded: bool,
    limit: usize,
    user_set_limit: bool,
    max_lines: usize,
)
    ensures
        shows(GitRenderer::Log { limit, user_set_limit }, output, succeeded) == git::log_report(
            output,
            limit as nat,
            user_set_limit,
        ),
        shows(GitRenderer::Show { max_lines, passthrough: true }, output, succeeded) == text::trim(
            output,
        ),
{
}

/// A commit is shown by the first seven characters of its hash: the last word before the
/// first closing bracket of the first line. What is shorter is not shown.
pub proof fn law_commits_are_shown_by_hash(
    output: Seq<char>,
    name: Seq<char>,
    hash: Seq<char>,
    message: Seq<char>,
    tail: Seq<char>,
)
    requires
        text::trim(output) == seq!['['] + name + seq![' '] + hash + seq![']'] + message + tail,
        forall|i: int| 0 <= i < name.len() ==> (#[trigger] name[i]) != ']' && name[i] != '\n',
        hash.len() > 0,
        forall|i: int|
            0 <= i < hash.len() ==> (#[trigger] hash[i]) != ']' && !text::is_white(hash[i])
                && '\0' <= hash[i] <= '\u{7f}',
        forall|i: int| 0 <= i < message.len() ==> (#[trigger] message[i]) != '\n',
        message.len() == 0 || message.last() != '\r',
        tail.len() == 0 || tail[0] == '\n',
    ensures
        hash.len() >= 7 ==> shows(GitRenderer::Commit, output, true) == "ok ✓ "@ + hash.take(7),
        hash.len() < 7 ==> shows(GitRenderer::Commit, output, true) == "ok ✓"@,
{
    let line = seq!['['] + name + seq![' '] + hash + seq![']'] + message;
    let n = name.len() + hash.len() + 2;
    assert forall|i: int| 0 <= i < line.len() implies (#[trigger] line[i]) != '\n' by {
        lemma_commit_line(name, hash, message, i);
    }
    assert(line.last() != '\r');
    lemma_first_line(line, tail);
    assert(line + tail =~= text::trim(output));
    let p = text::only(']');
    assert forall|i: int| 0 <= i < n implies !p(#[trigger] line[i]) by {
        lemma_commit_line(name, hash, message, i);
    }
    assert(line[n as int] == ']');
    text::lemma_index_where(line, p, n as int);
    let inner = line.subrange(1, n as int);
    let front = name + seq![' '];
    assert(inner =~= front + hash);
    text::law_words_meet_in_white_space(front, hash);
    text::laws::law_words(hash);
    let w = git_rendering::bracketed_words(line);
    assert(w.last() == hash);
    assert(vstd::utf8::is_ascii_chars(hash));
    vstd::utf8::is_ascii_chars_encode_utf8(hash);
    if hash.len() >= 7 {
        laws::law_hash_is_cut_to_seven(line);
    }
}

/// The characters of the first line of a commit's output.
proof fn lemma_commit_line(name: Seq<char>, hash: Seq<char>, message: Seq<char>, i: int)
    requires
        0 <= i < name.len() + hash.len() + message.len() + 3,
    ensures
        ({
            let line = seq!['['] + name + seq![' '] + hash + seq![']'] + message;
            let c = line[i];
            let a = name.len() as int;
            let b = hash.len() as int;
            &&& i == 0 ==> c == '['
            &&& 1 <= i <= a ==> c == name[i - 1]
            &&& i == a + 1 ==> c == ' '
            &&& a + 2 <= i < a + b + 2 ==> c == hash[i - a - 2]
            &&& i == a + b + 2 ==> c == ']'
            &&& i > a + b + 2 ==> c == message[i - a - b - 3]
        }),
{
}

/// A commit whose first line has no closing bracket is acknowledged without a hash.
pub proof fn law_commits_without_hash(output: Seq<char>, line: Seq<char>, tail: Seq<char>)
    requires
        text::trim(output) == line + tail,
        line.len() > 0,
        line.last() != '\r',
        forall|i: int| 0 <= i < line.len() ==> (#[trigger] line[i]) != ']' && line[i] != '\n',
        tail.len() == 0 || tail[0] == '\n',
    ensures
        shows(GitRenderer::Commit, output, true) == "ok ✓"@,
{
    lemma_first_line(line, tail);
    text::lemma_index_where(line, text::only(']'), line.len() as int);
}

/// A commit that failed because there was nothing to commit says so, and one that failed for
/// another reason says that.
pub proof fn law_failed_commits_are_shown(output: Seq<char>)
    ensures
        text::contains(text::trim(output), "nothing to commit"@) ==> shows(
            GitRenderer::Commit,
            output,
            false,
        ) == "ok (nothing to commit)"@,
        !text::contains(text::trim(output), "nothing to commit"@) ==> shows(
            GitRenderer::Commit,
            output,
            false,
        ) == text::trim(output),
{
}

/// A push is shown by where it went: the last word of the first line with an arrow.
pub proof fn law_pushes_are_shown_by_target(
    output: Seq<char>,
    front: Seq<char>,
    before: Seq<char>,
    word: Seq<char>,
    tail: Seq<char>,
)
    requires
        text::trim(output) == front + (before + word) + tail,
        front.len() == 0 || front.last() == '\n',
        forall|k: int|
            0 <= k < text::lines(front).len() ==> !text::contains(
                #[trigger] text::lines(front)[k],
                "->"@,
            ),
        text::contains(before + word, "->"@),
        forall|i: int| 0 <= i < before.len() ==> (#[trigger] before[i]) != '\n',
        before.len() == 0 || text::is_white(before.last()),
        word.len() > 0,
        forall|i: int| 0 <= i < word.len() ==> !text::is_white(#[trigger] word[i]),
        tail.len() == 0 || tail[0] == '\n',
        !text::contains(text::trim(output), "Everything up-to-date"@),
    ensures
        shows(GitRenderer::Push, output, true) == "ok ✓ "@ + word,
{
    let line = before + word;
    let t = text::trim(output);
    assert forall|i: int| 0 <= i < line.len() implies (#[trigger] line[i]) != '\n' by {
        if i < before.len() {
            assert(line[i] == before[i]);
        } else {
            assert(line[i] == word[i - before.len()]);
        }
    }
    assert(line.last() == word.last());
    assert(word.last() == word[word.len() - 1]);
    lemma_first_line(line, tail);
    text::laws::law_lines_behind(front, line + tail);
    assert(front + (line + tail) =~= t);
    let list = text::lines(t);
    let n = text::lines(front).len() as int;
    let p = git_rendering::with_arrow();
    assert(list[n] == line);
    assert forall|k: int| 0 <= k < n implies !p(#[trigger] list[k]) by {
        assert(list[k] == text::lines(front)[k]);
    }
    text::lemma_index_where(list, p, n);
    text::law_words_meet_in_white_space(before, word);
    text::laws::law_words(word);
    assert(text::words(line).last() == word);
}

/// A push that had nothing to send says so; one without an arrow says only that it succeeded;
/// one that failed says why.
pub proof fn law_other_pushes_are_shown(output: Seq<char>)
    ensures
        text::contains(text::trim(output), "Everything up-to-date"@) ==> shows(
            GitRenderer::Push,
            output,
            true,
        ) == "ok (up-to-date)"@,
        !text::contains(text::trim(output), "Everything up-to-date"@) && (forall|k: int|
            0 <= k < text::lines(text::trim(output)).len() ==> !text::contains(
                #[trigger] text::lines(text::trim(output))[k],
                "->"@,
            )) ==> shows(GitRenderer::Push, output, true) == "ok ✓"@,
        shows(GitRenderer::Push, output, false) == text::trim(output),
{
    let list = text::lines(text::trim(output));
    if forall|k: int| 0 <= k < list.len() ==> !text::contains(#[trigger] list[k], "->"@) {
        text::lemma_index_where(list, git_rendering::with_arrow(), list.len() as int);
    }
}

/// A fetch is shown by the number of lines with an arrow or with `[new`.
pub proof fn law_fetches_are_counted(output: Seq<char>)
    ensures
        ({
            let n = text::lines(text::trim(output)).filter(
                |l: Seq<char>| text::contains(l, "->"@) || text::contains(l, "[new"@),
            ).len();
            &&& n > 0 ==> shows(GitRenderer::Fetch, output, true) == "ok fetched ("@
                + number::decimal(n) + " new refs)"@
            &&& n == 0 ==> shows(GitRenderer::Fetch, output, true) == "ok fetched"@
        }),
        shows(GitRenderer::Fetch, output, false) == text::trim(output),
{
    lemma_count_refs(text::lines(text::trim(output)));
}

/// Picking lines is filtering them.
proof fn lemma_count_refs(list: Seq<Seq<char>>)
    ensures
        list.filter_map(|l: Seq<char>| git_rendering::new_ref(l)).len() == list.filter(
            |l: Seq<char>| text::contains(l, "->"@) || text::contains(l, "[new"@),
        ).len(),
    decreases list.len(),
{
    reveal(Seq::filter);
    if list.len() > 0 {
        lemma_count_refs(list.drop_last());
    }
}

/// What was done to the stash is acknowledged by name, or why it failed is shown.
pub proof fn law_stash_changes_are_shown(subcommand: Seq<char>, output: Seq<char>)
    ensures
        shows(GitRenderer::Stash(GitStashRenderer::Action { subcommand }), output, true)
            == "ok stash "@ + subcommand,
        shows(GitRenderer::Stash(GitStashRenderer::Action { subcommand }), output, false)
            == text::trim(output),
        text::contains(text::trim(output), "No local changes"@) ==> shows(
            GitRenderer::Stash(GitStashRenderer::Default),
            output,
            true,
        ) == "ok (nothing to stash)"@,
        !text::contains(text::trim(output), "No local changes"@) ==> shows(
            GitRenderer::Stash(GitStashRenderer::Default),
            output,
            true,
        ) == "ok stashed"@,
        shows(GitRenderer::Stash(GitStashRenderer::Default), output, false) == text::trim(output),
{
}

/// The stashes are listed, and a stash is shown as a diff of at most a hundred lines; where
/// there is none, that is said.
pub proof fn law_stashes_are_shown(output: Seq<char>, succeeded: bool)
    ensures
        ({
            let t = text::trim(output);
            let list = shows(GitRenderer::Stash(GitStashRenderer::List), output, succeeded);
            let show = shows(GitRenderer::Stash(GitStashRenderer::Show), output, succeeded);
            &&& t.len() == 0 ==> list == "No stashes"@ && show == "Empty stash"@
            &&& t.len() > 0 ==> list == git::stash_list_report(t) && show == git::diff_report(
                t,
                100,
            )
        }),
{
}

/// Two texts, one above the other; where one is empty, only the other.
pub open spec fn above(a: Seq<char>, sep: Seq<char>, b: Seq<char>) -> Seq<char> {
    if a.len() == 0 {
        b
    } else if b.len() == 0 {
        a
    } else {
        a + sep + b
    }
}

/// A diff is shown behind its numbers, with a heading between them. Where there are no numbers
/// or no diff, there is no heading.
pub proof fn law_diffs_are_shown(
    stat: ResultView,
    diff: ResultView,
    max_lines: usize,
)
    ensures
        git_rendering::git_shown(GitRenderer::Diff { max_lines }, seq![stat, diff]) == above(
            text::trim(stat.output),
            "\n\n--- Changes ---\n"@,
            git::diff_report(text::trim(diff.output), max_lines as nat),
        ),
{
}

/// A commit is shown by its summary, its numbers and its diff, one above the other, without
/// those that are empty.
pub proof fn law_commits_are_shown_in_parts(
    summary: ResultView,
    stat: ResultView,
    diff: ResultView,
    max_lines: usize,
)
    ensures
        git_rendering::git_shown(
            GitRenderer::Show { max_lines, passthrough: false },
            seq![summary, stat, diff],
        ) == above(
            above(text::trim(summary.output), "\n"@, text::trim(stat.output)),
            "\n"@,
            git::diff_report(text::trim(diff.output), max_lines as nat),
        ),
{
    let a = text::trim(summary.output);
    let b = text::trim(stat.output);
    let d = text::trim(diff.output);
    let c = git::diff_report(d, max_lines as nat);
    if d.len() == 0 {
        text::laws::law_lines(d, d);
        assert(c.len() == 0);
    }
    let x = git_rendering::part(a);
    let y = git_rendering::part(b);
    let z = if d.len() == 0 {
        seq![]
    } else {
        git_rendering::part(c)
    };
    let parts = x + y + z;
    let sep = "\n"@;
    text::laws::law_join(seq![a], b, sep);
    text::laws::law_join(seq![a], c, sep);
    text::laws::law_join(seq![b], c, sep);
    text::laws::law_join(seq![a].push(b), c, sep);
    text::laws::law_join(seq![], a, sep);
    if a.len() > 0 && b.len() > 0 && c.len() > 0 {
        assert(parts =~= seq![a].push(b).push(c));
    } else if a.len() > 0 && b.len() > 0 {
        assert(parts =~= seq![a].push(b));
    } else if a.len() > 0 && c.len() > 0 {
        assert(parts =~= seq![a].push(c));
    } else if b.len() > 0 && c.len() > 0 {
        assert(parts =~= seq![b].push(c));
    } else if a.len() > 0 {
        assert(parts =~= seq![a]);
    } else if b.len() > 0 {
        assert(parts =~= seq![b]);
    } else if c.len() > 0 {
        assert(parts =~= seq![c]);
    } else {
        assert(parts =~= Seq::<Seq<char>>::empty());
        assert(text::join(parts, sep) =~= c);
    }
}

/// The output of a commit can be cut where its hash is looked for if its first line has no
/// closing bracket, or has one behind ASCII characters. It cannot where that line starts with
/// one, or has one and starts with a character that is not ASCII.
pub proof fn law_commits_can_be_cut(output: Seq<char>, line: Seq<char>, n: int, tail: Seq<char>)
    requires
        text::trim(output) == line + tail,
        line.len() > 0,
        line.last() != '\r',
        forall|i: int| 0 <= i < line.len() ==> (#[trigger] line[i]) != '\n',
        tail.len() == 0 || tail[0] == '\n',
    ensures
        (forall|i: int| 0 <= i < line.len() ==> (#[trigger] line[i]) != ']')
            ==> git_rendering::commit_can_be_cut(output),
        0 < n < line.len() && line[n] == ']' && (forall|i: int|
            0 <= i < n ==> (#[trigger] line[i]) != ']' && '\0' <= line[i] <= '\u{7f}')
            ==> git_rendering::commit_can_be_cut(output),
        line[0] == ']' ==> !git_rendering::commit_can_be_cut(output),
        0 <= n < line.len() && line[n] == ']' && line[0] as u32 >= 0x80
            ==> !git_rendering::commit_can_be_cut(output),
{
    lemma_first_line(line, tail);
    let p = text::only(']');
    text::lemma_index_where_bounds(line, p);
    if forall|i: int| 0 <= i < line.len() ==> (#[trigger] line[i]) != ']' {
        text::lemma_index_where(line, p, line.len() as int);
    }
    if 0 <= n < line.len() && line[n] == ']' {
        assert(git_rendering::bracket(line) <= n) by {
            if git_rendering::bracket(line) > n {
                assert(!p(line[n]));
            }
        }
    }
    if line[0] == ']' {
        text::lemma_index_where(line, p, 0);
    }
    if 0 < n < line.len() && line[n] == ']' && (forall|i: int|
        0 <= i < n ==> (#[trigger] line[i]) != ']' && '\0' <= line[i] <= '\u{7f}') {
        text::lemma_index_where(line, p, n);
        assert('\0' <= line[0] <= '\u{7f}');
        let inner = line.subrange(1, n);
        let w = text::words(inner);
        if w.len() > 0 {
            let hash = w.last();
            text::laws::lemma_words_are_parts(inner, w.len() - 1);
            let k = choose|k: int|
                0 <= k && k + hash.len() <= inner.len() && hash == #[trigger] inner.subrange(
                    k,
                    k + hash.len(),
                );
            assert forall|i: int| 0 <= i < hash.len() implies '\0' <= (#[trigger] hash[i])
                <= '\u{7f}' by {
                assert(hash[i] == inner[k + i]);
                assert(inner[k + i] == line[k + i + 1]);
            }
            assert(vstd::utf8::is_ascii_chars(hash));
            vstd::utf8::is_ascii_chars_encode_utf8(hash);
            if hash.len() >= 7 {
                lemma_ascii_boundary(hash, 7);
            }
        }
    }
}

/// Between two ASCII characters a text can be cut.
proof fn lemma_ascii_boundary(s: Seq<char>, i: int)
    requires
        vstd::utf8::is_ascii_chars(s),
        0 <= i <= s.len(),
    ensures
        vstd::utf8::is_char_boundary(vstd::utf8::encode_utf8(s), i),
{
    let bytes = vstd::utf8::encode_utf8(s);
    vstd::utf8::encode_utf8_valid_utf8(s);
    vstd::utf8::is_ascii_chars_encode_utf8(s);
    if i == s.len() {
        vstd::utf8::is_char_boundary_start_end_of_seq(bytes);
    } else {
        vstd::utf8::is_char_boundary_iff_is_leading_byte(bytes, i);
        assert('\0' <= s[i] <= '\u{7f}');
        assert(s[i] as u8 == bytes[i]);
        assert(vstd::utf8::is_leading_byte_width_1(bytes[i]));
    }
}

/// Only the output of a commit that succeeded has to be such that it can be cut.
pub proof fn law_everything_else_can_be_shown(plan: PlanView, results: Seq<ResultView>)
    ensures
        plan.renderer != Renderer::<Seq<char>>::Git(GitRenderer::Commit) || results.len()
            != plan.steps.len() || (results.len() > 0 && !results[0].succeeded)
            ==> embedded::can_render(plan, results),
        plan.renderer == Renderer::<Seq<char>>::Git(GitRenderer::Commit) && results.len()
            == plan.steps.len() && results.len() > 0 && git_rendering::commit_can_be_cut(
            results[0].output,
        ) ==> embedded::can_render(plan, results),
{
}

} // verus!
