//! What holds of every plan and of everything that is shown.
pub mod dispatch;
pub mod git_plans;
pub mod git_shows;
pub mod plans;
pub mod pulls;
pub mod reads;
pub mod tools;

use vstd::prelude::*;
use crate::discover::registry;
use crate::embedded::{GitRenderer, GitStashRenderer, PlanView, Renderer, RenderError, ResultView};
use crate::embedded::{git_planning, git_rendering, planning};
use crate::embedded;
use crate::shell_words;
use crate::text;

verus! {

/// A plan has as many steps as its renderer reads results: one, two or three.
pub proof fn law_one_step_for_each_result(raw: Seq<char>, excluded: Seq<Seq<char>>)
    requires
        embedded::planned(raw, excluded) is Some,
    ensures
        ({
            let plan = embedded::planned(raw, excluded)->0;
            &&& plan.steps.len() == embedded::results_read(plan.renderer)
            &&& 1 <= plan.steps.len() <= 3
        }),
{
}

/// Once there are as many results as steps, they are always shown: the filter that a
/// plan was made for is still known when it is needed.
pub proof fn law_planned_commands_are_shown(
    raw: Seq<char>,
    excluded: Seq<Seq<char>>,
    results: Seq<ResultView>,
)
    requires
        embedded::planned(raw, excluded) is Some,
        results.len() == (embedded::planned(raw, excluded)->0).steps.len(),
    ensures
        embedded::rendered(embedded::planned(raw, excluded)->0, results) is Ok,
{
}

/// Results are refused, whatever the plan, where there are not as many as there are
/// steps; and the refusal says how many there should be and how many there are.
pub proof fn law_results_are_counted(plan: PlanView, results: Seq<ResultView>)
    ensures
        results.len() != plan.steps.len() ==> embedded::rendered(plan, results)
            == Err::<Seq<char>, RenderError<Seq<char>>>(
            RenderError::ResultCount {
                expected: plan.steps.len() as usize,
                got: results.len() as usize,
            },
        ),
        results.len() == plan.steps.len() ==> !(embedded::rendered(plan, results) matches Err(
            RenderError::ResultCount { .. },
        )),
{
}

/// White space around a command does not change its plan.
pub proof fn law_surrounding_space_does_not_matter(raw: Seq<char>, excluded: Seq<Seq<char>>)
    ensures
        embedded::planned(text::trim(raw), excluded) == embedded::planned(raw, excluded),
{
    text::lemma_trim_twice(raw);
}

/// A command whose first word is excluded has no plan, whatever is set before it.
pub proof fn law_excluded_commands_have_no_plan(raw: Seq<char>, excluded: Seq<Seq<char>>)
    requires
        excluded.contains(registry::first_word(registry::actual_command(raw))),
    ensures
        embedded::planned(raw, excluded) is None,
{
}

/// A command before which `RTK_DISABLED` is set has no plan.
pub proof fn law_disabled_commands_have_no_plan(raw: Seq<char>, excluded: Seq<Seq<char>>)
    requires
        text::contains(registry::env_prefix(raw), "RTK_DISABLED="@),
    ensures
        embedded::planned(raw, excluded) is None,
{
}

/// The subcommands of `git` that have a plan are exactly those that are supported,
/// whatever their arguments.
pub proof fn law_supported_git_subcommands_have_plans(raw: Seq<char>, tokens: Seq<Seq<char>>)
    ensures
        git_planning::git_plan(raw, tokens) is Ok <==> tokens.len() >= 2 && tokens[0] == "git"@
            && git_planning::supported().contains(tokens[1]),
{
    if tokens.len() >= 2 {
        lemma_supported(raw, tokens[1], tokens.skip(2));
    }
}

/// The subcommands with a plan are those in the list.
proof fn lemma_supported(raw: Seq<char>, subcommand: Seq<char>, args: Seq<Seq<char>>)
    ensures
        git_planning::subcommand_plan(raw, subcommand, args) is Some
            <==> git_planning::supported().contains(subcommand),
{
    let list = git_planning::supported();
    assert(list[0] == "add"@ && list[1] == "branch"@ && list[2] == "commit"@ && list[3] == "diff"@
        && list[4] == "fetch"@ && list[5] == "log"@ && list[6] == "pull"@ && list[7] == "push"@
        && list[8] == "show"@ && list[9] == "stash"@ && list[10] == "status"@ && list[11]
        == "worktree"@);
    if list.contains(subcommand) {
        let i = choose|i: int| 0 <= i < list.len() && list[i] == subcommand;
        assert(i == 0 || i == 1 || i == 2 || i == 3 || i == 4 || i == 5 || i == 6 || i == 7 || i
            == 8 || i == 9 || i == 10 || i == 11);
    }
}

/// Commands that change the repository, and for which nothing is added, run as they were
/// written.
pub proof fn law_changes_run_as_written(
    raw: Seq<char>,
    subcommand: Seq<char>,
    args: Seq<Seq<char>>,
)
    requires
        subcommand == "commit"@ || subcommand == "fetch"@ || subcommand == "pull"@ || subcommand
            == "push"@ || (subcommand == "branch"@ && git_planning::writes_branch(args)) || (
        subcommand == "worktree"@ && git_planning::any_among(
            args,
            git_planning::worktree_actions(),
        )) || (subcommand == "stash"@ && (args.len() == 0 || (args[0] != "list"@ && args[0]
            != "show"@))),
    ensures
        git_planning::subcommand_plan(raw, subcommand, args) is Some,
        (git_planning::subcommand_plan(raw, subcommand, args)->0).steps == seq![text::trim(raw)],
{
    lemma_first_letters();
}

/// The first letters of the subcommands, and what tells those apart that share one.
proof fn lemma_first_letters()
    ensures
        "add"@[0] == 'a',
        "branch"@[0] == 'b',
        "commit"@[0] == 'c',
        "diff"@[0] == 'd',
        "fetch"@[0] == 'f',
        "log"@[0] == 'l',
        "pull"@[0] == 'p',
        "push"@[0] == 'p',
        "show"@[0] == 's',
        "stash"@[0] == 's',
        "status"@[0] == 's',
        "worktree"@[0] == 'w',
        "pull"@[2] == 'l',
        "push"@[2] == 's',
        "show"@[1] == 'h',
        "stash"@[1] == 't',
{
    reveal_strlit("add");
    reveal_strlit("branch");
    reveal_strlit("commit");
    reveal_strlit("diff");
    reveal_strlit("fetch");
    reveal_strlit("log");
    reveal_strlit("pull");
    reveal_strlit("push");
    reveal_strlit("show");
    reveal_strlit("stash");
    reveal_strlit("status");
    reveal_strlit("worktree");
}

/// The renderers that show what changed in the repository.
pub open spec fn shows_a_change(renderer: GitRenderer<Seq<char>>) -> bool {
    match renderer {
        GitRenderer::Add => true,
        GitRenderer::Branch { write } => write,
        GitRenderer::Commit => true,
        GitRenderer::Fetch => true,
        GitRenderer::Pull => true,
        GitRenderer::Push => true,
        GitRenderer::Stash(GitStashRenderer::Action { .. }) => true,
        GitRenderer::Stash(GitStashRenderer::Default) => true,
        GitRenderer::Worktree { write } => write,
        _ => false,
    }
}

/// Where a change failed, what the command printed is shown, trimmed. The one exception
/// is a commit that failed because there was nothing to commit.
pub proof fn law_failures_are_shown_as_they_are(
    renderer: GitRenderer<Seq<char>>,
    results: Seq<ResultView>,
)
    requires
        shows_a_change(renderer),
        !results[0].succeeded,
        renderer is Commit ==> !text::contains(
            text::trim(results[0].output),
            "nothing to commit"@,
        ),
    ensures
        git_rendering::git_shown(renderer, results) == text::trim(results[0].output),
{
}

/// Where a change succeeded, what is shown says so.
pub proof fn law_successes_are_ok(renderer: GitRenderer<Seq<char>>, results: Seq<ResultView>)
    requires
        shows_a_change(renderer),
        results[0].succeeded,
    ensures
        "ok"@.is_prefix_of(git_rendering::git_shown(renderer, results)),
{
    reveal_strlit("ok");
    reveal_strlit("ok ✓");
    reveal_strlit("ok ✓ ");
    reveal_strlit("ok (nothing to add)");
    reveal_strlit("ok (up-to-date)");
    reveal_strlit("ok fetched");
    reveal_strlit("ok fetched (");
    reveal_strlit("ok stash ");
    reveal_strlit("ok stashed");
    reveal_strlit("ok (nothing to stash)");
    let s = git_rendering::git_shown(renderer, results);
    assert("ok"@ =~= s.take(2));
}

/// A hash of ASCII characters is shown by its first seven.
pub proof fn law_hash_is_cut_to_seven(line: Seq<char>)
    requires
        git_rendering::bracket(line) < line.len(),
        git_rendering::bracketed_words(line).len() > 0,
        vstd::utf8::is_ascii_chars(git_rendering::bracketed_words(line).last()),
        git_rendering::bracketed_words(line).last().len() >= 7,
    ensures
        git_rendering::hash_in(line) == Some(git_rendering::bracketed_words(line).last().take(7)),
{
    let hash = git_rendering::bracketed_words(line).last();
    let front = hash.take(7);
    vstd::utf8::is_ascii_chars_encode_utf8(hash);
    vstd::utf8::is_ascii_chars_encode_utf8(front);
    assert(vstd::utf8::encode_utf8(front) =~= vstd::utf8::encode_utf8(hash).take(7));
    vstd::utf8::encode_utf8_decode_utf8(front);
}

/// Excluding commands only takes plans away: a plan that is left is the plan that there is
/// without exclusions.
pub proof fn law_exclusion_only_removes_plans(raw: Seq<char>, excluded: Seq<Seq<char>>)
    ensures
        embedded::planned(raw, excluded) is None || embedded::planned(raw, excluded)
            == embedded::planned(raw, seq![]),
{
}

/// Each `git` command with a supported subcommand is planned, unless it is excluded,
/// disabled or more than one command; and its plan is that of the words it was written
/// with.
pub proof fn law_git_commands_are_planned(
    raw: Seq<char>,
    excluded: Seq<Seq<char>>,
    blank: char,
    rest: Seq<char>,
)
    requires
        blank == ' ' || blank == '\t',
        registry::actual_command(raw) == "git"@ + seq![blank] + rest,
        shell_words::tokens(rest).len() > 0,
        git_planning::supported().contains(shell_words::tokens(rest)[0]),
        !text::contains(registry::env_prefix(raw), "RTK_DISABLED="@),
        !registry::is_compound(registry::actual_command(raw)),
        !excluded.contains("git"@),
    ensures
        embedded::planned(raw, excluded) is Some,
        git_planning::git_plan(raw, seq!["git"@] + shell_words::tokens(rest)) == Ok::<
            PlanView,
            planning::PlanError<Seq<char>>,
        >(embedded::planned(raw, excluded)->0),
{
    let command = registry::actual_command(raw);
    lemma_git_is_rewritten(command, blank, rest);
    reveal_strlit("rtk");
    reveal_strlit("git");
    reveal_strlit("rtk git");
    reveal_strlit("cargo");
    reveal_strlit("diff");
    let behind = "git"@ + seq![blank] + rest;
    let r = "rtk git"@ + command.skip(3);
    assert(r =~= "rtk"@ + seq![' '] + behind);
    shell_words::lemma_plain_is_one_token("rtk"@);
    shell_words::lemma_plain_is_one_token("git"@);
    shell_words::law_tokens_meet_in_a_blank("rtk"@, behind);
    shell_words::law_tokens_meet_in_a_blank("git"@, rest);
    let tokens = seq!["git"@] + shell_words::tokens(rest);
    let words = seq!["rtk"@] + tokens;
    assert(words[0] == "rtk"@ && words[1] == "git"@);
    assert("git"@[0] == 'g' && "cargo"@[0] == 'c' && "diff"@[0] == 'd');
    assert(tokens[0] == "git"@ && tokens[1] == shell_words::tokens(rest)[0]);
    law_supported_git_subcommands_have_plans(raw, tokens);
}

/// What becomes of a `git` command.
proof fn lemma_git_is_rewritten(command: Seq<char>, blank: char, rest: Seq<char>)
    requires
        blank == ' ' || blank == '\t',
        command == "git"@ + seq![blank] + rest,
    ensures
        registry::first_word(command) == "git"@,
        registry::rewrite_simple(command) == Some("rtk git"@ + command.skip(3)),
{
    reveal_strlit("rtk");
    reveal_strlit("cargo");
    reveal_strlit("diff");
    reveal_strlit("git");
    reveal_strlit("cat");
    reveal_strlit("head");
    reveal_strlit("tail");
    assert(command[0] == 'g' && command[1] == 'i' && command[2] == 't' && command[3] == blank);
    text::lemma_index_where(command, text::blank(), 3);
    assert(command.take(3) =~= "git"@);
    assert("git"@[0] == 'g' && "cat"@[0] == 'c' && "head"@[0] == 'h' && "tail"@[0] == 't');
    let list = registry::rules();
    let p = |rule: (Seq<char>, Seq<char>)| registry::apply_rule(command, rule) is Some;
    assert(list[0].0 == "rtk"@ && list[1].0 == "cargo"@ && list[2].0 == "diff"@ && list[3]
        == ("git"@, "rtk git"@));
    assert("rtk"@[0] == 'r' && "cargo"@[0] == 'c' && "diff"@[0] == 'd');
    assert(!"rtk"@.is_prefix_of(command)) by {
        assert(command.subrange(0, 3)[0] == 'g');
    }
    assert(!"cargo"@.is_prefix_of(command)) by {
        if command.len() >= 5 {
            assert(command.subrange(0, 5)[0] == 'g');
        }
    }
    assert(!"diff"@.is_prefix_of(command)) by {
        if command.len() >= 4 {
            assert(command.subrange(0, 4)[0] == 'g');
        }
    }
    assert("git"@.is_prefix_of(command)) by {
        assert(command.subrange(0, 3) =~= "git"@);
    }
    assert forall|j: int| 0 <= j < 3 implies !p(#[trigger] list[j]) by {
        assert(j == 0 || j == 1 || j == 2);
    }
    text::lemma_index_where(list, p, 3);
}

/// Putting a command back behind what stands before it gives the words that were there,
/// in their order.
pub proof fn law_environment_is_kept(raw: Seq<char>)
    ensures
        text::words(planning::with_env(raw, registry::actual_command(raw))) == text::words(raw),
{
    let t = text::trim(raw);
    let actual = registry::actual_command(raw);
    registry::lemma_bare_command_is_suffix(t);
    let n = t.len() - actual.len();
    let front = t.take(n);
    let prefix = registry::env_prefix(raw);
    assert(front + actual =~= t);
    text::law_trimming_keeps_the_words(raw);
    text::law_trimming_keeps_the_words(front);
    registry::lemma_prefix_ends_in_white_space(t);
    if front.len() > 0 {
        assert(front.last() == t[n - 1]);
    }
    text::law_words_meet_in_white_space(front, actual);
    if prefix.len() == 0 {
        assert(text::words(prefix) =~= Seq::<Seq<char>>::empty()) by {
            assert(prefix =~= Seq::<char>::empty());
            text::lemma_empty_has_no_words();
        }
        assert(text::words(front) + text::words(actual) =~= text::words(actual));
    } else {
        reveal_strlit(" ");
        let space = " "@;
        assert(space =~= seq![' ']);
        assert(prefix + space + actual =~= prefix + (space + actual));
        text::law_words_meet_in_white_space(prefix, space + actual);
        text::law_words_meet_in_white_space(space, actual);
        text::lemma_space_has_no_words();
        assert(text::words(space) + text::words(actual) =~= text::words(actual));
    }
}

/// What is shown of a commit, a diff, a push, a pull, a fetch or a stash does not change with
/// the white space around what was printed.
pub proof fn law_space_around_output_does_not_matter(
    renderer: GitRenderer<Seq<char>>,
    results: Seq<ResultView>,
    trimmed: Seq<ResultView>,
)
    requires
        renderer is Commit || renderer is Diff || renderer is Show || renderer is Push || renderer
            is Pull || renderer is Fetch || renderer is Stash,
        results.len() >= embedded::results_read(Renderer::Git(renderer)),
        trimmed == results.map_values(
            |r: ResultView|
                ResultView { output: text::trim(r.output), succeeded: r.succeeded },
        ),
    ensures
        git_rendering::git_shown(renderer, trimmed) == git_rendering::git_shown(renderer, results),
{
    text::lemma_trim_twice(results[0].output);
    text::lemma_trim_twice(results[1].output);
    text::lemma_trim_twice(results[2].output);
}

/// Whether no step of a plan is empty.
pub open spec fn each_step_runs(plan: PlanView) -> bool {
    forall|i: int| 0 <= i < plan.steps.len() ==> (#[trigger] plan.steps[i]).len() > 0
}

/// No step of a plan is empty: each runs something.
pub proof fn law_no_step_is_empty(raw: Seq<char>, excluded: Seq<Seq<char>>)
    requires
        embedded::planned(raw, excluded) is Some,
    ensures
        each_step_runs(embedded::planned(raw, excluded)->0),
{
    let actual = registry::actual_command(raw);
    let tokens = shell_words::tokens(actual);
    registry::lemma_bare_command_is_suffix(text::trim(raw));
    let args = if tokens.len() > 0 {
        tokens.skip(1)
    } else {
        seq![]
    };
    lemma_literals_have_characters();
    lemma_command_line_starts(crate::ls::ls_words(args));
    assert(crate::ls::ls_words(args)[0] == "ls"@);
    if tokens.len() >= 2 {
        lemma_git_steps_run(raw, tokens[1], tokens.skip(2));
    }
}

/// The commands that plans are made of are not empty.
proof fn lemma_literals_have_characters()
    ensures
        "ls"@.len() > 0,
        "git"@.len() > 0,
        "diff -u "@.len() > 0,
        "if command -v rg >/dev/null 2>&1; then "@.len() > 0,
        "ruff"@.len() > 0,
        "git add ."@.len() > 0,
        "git diff --cached --stat --shortstat"@.len() > 0,
        "git diff --stat"@.len() > 0,
        "git show --no-patch --pretty=format:%h\\ %s\\ (%ar)\\ <%an>"@.len() > 0,
        "git show --stat --pretty=format:"@.len() > 0,
        "git show --pretty=format:"@.len() > 0,
        "git stash list"@.len() > 0,
        "git stash show -p "@.len() > 0,
        "git status --porcelain -b"@.len() > 0,
        "git worktree list"@.len() > 0,
{
    reveal_strlit("ls");
    reveal_strlit("git");
    reveal_strlit("diff -u ");
    reveal_strlit("if command -v rg >/dev/null 2>&1; then ");
    reveal_strlit("ruff");
    reveal_strlit("git add .");
    reveal_strlit("git diff --cached --stat --shortstat");
    reveal_strlit("git diff --stat");
    reveal_strlit("git show --no-patch --pretty=format:%h\\ %s\\ (%ar)\\ <%an>");
    reveal_strlit("git show --stat --pretty=format:");
    reveal_strlit("git show --pretty=format:");
    reveal_strlit("git stash list");
    reveal_strlit("git stash show -p ");
    reveal_strlit("git status --porcelain -b");
    reveal_strlit("git worktree list");
}

/// No step of a `git` plan is empty.
proof fn lemma_git_steps_run(raw: Seq<char>, subcommand: Seq<char>, args: Seq<Seq<char>>)
    requires
        text::trim(raw).len() > 0,
    ensures
        git_planning::subcommand_plan(raw, subcommand, args) matches Some(plan) ==> each_step_runs(
            plan,
        ),
{
    lemma_literals_have_characters();
    lemma_branch_listing(args);
    lemma_command_line_starts(crate::git::log_words(args));
    assert(crate::git::log_words(args)[0] == "git"@);
}

/// A command line is at least as long as its first word.
proof fn lemma_command_line_starts(values: Seq<Seq<char>>)
    requires
        values.len() > 0,
    ensures
        shell_words::command_line(values).len() >= shell_words::quoted(values[0]).len(),
        values[0].len() > 0 ==> shell_words::command_line(values).len() > 0,
{
    let list = values.map_values(|v: Seq<char>| shell_words::quoted(v));
    lemma_join_starts(list, seq![' ']);
    assert(list[0] == shell_words::quoted(values[0]));
}

/// What is joined is at least as long as its first part.
proof fn lemma_join_starts(parts: Seq<Seq<char>>, sep: Seq<char>)
    requires
        parts.len() > 0,
    ensures
        text::join(parts, sep).len() >= parts[0].len(),
    decreases parts.len(),
{
    if parts.len() > 1 {
        lemma_join_starts(parts.drop_last(), sep);
        assert(parts.drop_last()[0] == parts[0]);
    }
}

/// A listing of branches is not empty.
proof fn lemma_branch_listing(args: Seq<Seq<char>>)
    ensures
        text::trim("git branch --no-color "@ + text::join(args, " "@)).len() > 0,
        text::trim("git branch -a --no-color "@ + text::join(args, " "@)).len() > 0,
{
    reveal_strlit("git branch --no-color ");
    reveal_strlit("git branch -a --no-color ");
    let a = "git branch --no-color "@ + text::join(args, " "@);
    let b = "git branch -a --no-color "@ + text::join(args, " "@);
    assert(a[0] == 'g' && b[0] == 'g');
    text::lemma_ink_survives_trim(a, 0);
    text::lemma_ink_survives_trim(b, 0);
}

} // verus!
