//! Which steps each `git` subcommand becomes, and how their output is shown.
use vstd::prelude::*;
use crate::embedded::{GitRenderer, GitStashRenderer, PlanView, Renderer};
use crate::embedded::{git_planning, planning};
use crate::embedded::planning::{PlanError, Tool};
use crate::git;
use crate::text;

verus! {

/// The words of a `git` command.
pub open spec fn git_words(subcommand: Seq<char>, args: Seq<Seq<char>>) -> Seq<Seq<char>> {
    seq!["git"@, subcommand] + args
}

/// The plan of a `git` command with these steps.
pub open spec fn git_steps(steps: Seq<Seq<char>>, renderer: GitRenderer<Seq<char>>) -> Result<
    PlanView,
    PlanError<Seq<char>>,
> {
    Ok(PlanView { steps, renderer: Renderer::Git(renderer) })
}

/// The plan of a `git` command is that of its subcommand.
proof fn lemma_git_words(raw: Seq<char>, subcommand: Seq<char>, args: Seq<Seq<char>>)
    ensures
        git_planning::git_plan(raw, git_words(subcommand, args)) == match git_planning::subcommand_plan(
            raw,
            subcommand,
            args,
        ) {
            Some(plan) => Ok::<PlanView, PlanError<Seq<char>>>(plan),
            None => Err(PlanError::UnsupportedSubcommand(Tool::Git, subcommand)),
        },
{
    let tokens = git_words(subcommand, args);
    assert(tokens[0] == "git"@ && tokens[1] == subcommand);
    assert(tokens.skip(2) =~= args);
}

/// The options that change a branch.
proof fn lemma_branch_actions(a: Seq<char>)
    ensures
        git_planning::branch_actions().contains(a) <==> a == "-d"@ || a == "-D"@ || a == "-m"@
            || a == "-M"@ || a == "-c"@ || a == "-C"@,
{
    let list = git_planning::branch_actions();
    assert(list[0] == "-d"@ && list[1] == "-D"@ && list[2] == "-m"@ && list[3] == "-M"@
        && list[4] == "-c"@ && list[5] == "-C"@);
    if list.contains(a) {
        let i = choose|i: int| 0 <= i < list.len() && list[i] == a;
        assert(i == 0 || i == 1 || i == 2 || i == 3 || i == 4 || i == 5);
    }
}

/// The options that list branches.
proof fn lemma_branch_listings(a: Seq<char>)
    ensures
        git_planning::branch_listings().contains(a) <==> a == "-a"@ || a == "--all"@ || a == "-r"@
            || a == "--remotes"@ || a == "--list"@
                || a == "--merged"@ || a == "--no-merged"@ || a == "--contains"@
                || a == "--no-contains"@,
{
    let list = git_planning::branch_listings();
    assert(list[0] == "-a"@ && list[1] == "--all"@ && list[2] == "-r"@ && list[3] == "--remotes"@
        && list[4] == "--list"@ && list[5] == "--merged"@ && list[6] == "--no-merged"@
        && list[7] == "--contains"@ && list[8] == "--no-contains"@);
    if list.contains(a) {
        let i = choose|i: int| 0 <= i < list.len() && list[i] == a;
        assert(i == 0 || i == 1 || i == 2 || i == 3 || i == 4 || i == 5 || i == 6 || i == 7
            || i == 8);
    }
}

/// The options that ask for numbers.
proof fn lemma_stat_options(a: Seq<char>)
    ensures
        git_planning::stat_options().contains(a) <==> a == "--stat"@ || a == "--numstat"@
            || a == "--shortstat"@,
{
    let list = git_planning::stat_options();
    assert(list[0] == "--stat"@ && list[1] == "--numstat"@ && list[2] == "--shortstat"@);
    if list.contains(a) {
        let i = choose|i: int| 0 <= i < list.len() && list[i] == a;
        assert(i == 0 || i == 1 || i == 2);
    }
}

/// The subcommands that change a work tree.
proof fn lemma_worktree_actions(a: Seq<char>)
    ensures
        git_planning::worktree_actions().contains(a) <==> a == "add"@ || a == "remove"@
            || a == "prune"@ || a == "lock"@ || a == "unlock"@
                || a == "move"@,
{
    let list = git_planning::worktree_actions();
    assert(list[0] == "add"@ && list[1] == "remove"@ && list[2] == "prune"@ && list[3] == "lock"@
        && list[4] == "unlock"@ && list[5] == "move"@);
    if list.contains(a) {
        let i = choose|i: int| 0 <= i < list.len() && list[i] == a;
        assert(i == 0 || i == 1 || i == 2 || i == 3 || i == 4 || i == 5);
    }
}

/// The subcommands that change the stash.
proof fn lemma_stash_actions(a: Seq<char>)
    ensures
        git_planning::stash_actions().contains(a) <==> a == "pop"@ || a == "apply"@
            || a == "drop"@ || a == "push"@,
{
    let list = git_planning::stash_actions();
    assert(list[0] == "pop"@ && list[1] == "apply"@ && list[2] == "drop"@ && list[3] == "push"@);
    if list.contains(a) {
        let i = choose|i: int| 0 <= i < list.len() && list[i] == a;
        assert(i == 0 || i == 1 || i == 2 || i == 3);
    }
}

/// What tells the subcommands apart.
proof fn lemma_subcommands_differ()
    ensures
        "branch"@ != "add"@,
        "commit"@ != "add"@,
        "commit"@ != "branch"@,
        "diff"@ != "add"@,
        "diff"@ != "branch"@,
        "diff"@ != "commit"@,
        "fetch"@ != "add"@,
        "fetch"@ != "branch"@,
        "fetch"@ != "commit"@,
        "fetch"@ != "diff"@,
        "log"@ != "add"@,
        "log"@ != "branch"@,
        "log"@ != "commit"@,
        "log"@ != "diff"@,
        "log"@ != "fetch"@,
        "pull"@ != "add"@,
        "pull"@ != "branch"@,
        "pull"@ != "commit"@,
        "pull"@ != "diff"@,
        "pull"@ != "fetch"@,
        "pull"@ != "log"@,
        "push"@ != "add"@,
        "push"@ != "branch"@,
        "push"@ != "commit"@,
        "push"@ != "diff"@,
        "push"@ != "fetch"@,
        "push"@ != "log"@,
        "push"@ != "pull"@,
        "show"@ != "add"@,
        "show"@ != "branch"@,
        "show"@ != "commit"@,
        "show"@ != "diff"@,
        "show"@ != "fetch"@,
        "show"@ != "log"@,
        "show"@ != "pull"@,
        "show"@ != "push"@,
        "stash"@ != "add"@,
        "stash"@ != "branch"@,
        "stash"@ != "commit"@,
        "stash"@ != "diff"@,
        "stash"@ != "fetch"@,
        "stash"@ != "log"@,
        "stash"@ != "pull"@,
        "stash"@ != "push"@,
        "stash"@ != "show"@,
        "status"@ != "add"@,
        "status"@ != "branch"@,
        "status"@ != "commit"@,
        "status"@ != "diff"@,
        "status"@ != "fetch"@,
        "status"@ != "log"@,
        "status"@ != "pull"@,
        "status"@ != "push"@,
        "status"@ != "show"@,
        "status"@ != "stash"@,
        "worktree"@ != "add"@,
        "worktree"@ != "branch"@,
        "worktree"@ != "commit"@,
        "worktree"@ != "diff"@,
        "worktree"@ != "fetch"@,
        "worktree"@ != "log"@,
        "worktree"@ != "pull"@,
        "worktree"@ != "push"@,
        "worktree"@ != "show"@,
        "worktree"@ != "stash"@,
        "worktree"@ != "status"@,
{
    reveal_strlit("add");
    reveal_strlit("branch");
    reveal_strlit("commit");
    reveal_strlit("diff");
    reveal_strlit("fetch");
    reveal_strlit("log");
    reveal_strlit("pull");
    reveal_strlit("push");
    reveal_strlit("show");
    reveal_strlit("stash");
    reveal_strlit("status");
    reveal_strlit("worktree");
    assert("add"@[0] == 'a');
    assert("branch"@[0] == 'b');
    assert("commit"@[0] == 'c');
    assert("diff"@[0] == 'd');
    assert("fetch"@[0] == 'f');
    assert("log"@[0] == 'l');
    assert("pull"@[0] == 'p');
    assert("push"@[0] == 'p');
    assert("show"@[0] == 's');
    assert("stash"@[0] == 's');
    assert("status"@[0] == 's');
    assert("worktree"@[0] == 'w');
    assert("pull"@[2] == 'l' && "push"@[2] == 's');
    assert("show"@[1] == 'h' && "stash"@[3] == 's' && "status"@[3] == 't');
    assert("stash"@[1] == 't' && "status"@[1] == 't');
}

/// A `git branch` command with an option that lists, and none that changes, is a listing
/// without colours of what the options ask for.
pub proof fn law_branches_are_listed_as_asked(raw: Seq<char>, args: Seq<Seq<char>>, i: int)
    requires
        0 <= i < args.len(),
        args[i] == "-a"@ || args[i] == "--all"@ || args[i] == "-r"@ || args[i] == "--remotes"@
            || args[i] == "--list"@ || args[i] == "--merged"@ || args[i] == "--no-merged"@
            || args[i] == "--contains"@ || args[i] == "--no-contains"@,
        forall|j: int|
            0 <= j < args.len() ==> (#[trigger] args[j]) != "-d"@ && args[j] != "-D"@
                && args[j] != "-m"@ && args[j] != "-M"@
                    && args[j] != "-c"@ && args[j] != "-C"@,
    ensures
        git_planning::git_plan(raw, git_words("branch"@, args)) == git_steps(
            seq![
                planning::with_env(
                    raw,
                    text::trim("git branch --no-color "@ + text::join(args, " "@)),
                ),
            ],
            GitRenderer::Branch { write: false },
        ),
{
    lemma_git_words(raw, "branch"@, args);
    lemma_subcommands_differ();
    lemma_branch_listings(args[i]);
    assert(git_planning::any_among(args, git_planning::branch_listings()));
    assert forall|j: int| 0 <= j < args.len() implies !git_planning::branch_actions().contains(
        #[trigger] args[j],
    ) by {
        lemma_branch_actions(args[j]);
    }
}

/// A `git branch` command with an option that changes a branch is a change: it runs as it was
/// written.
pub proof fn law_branch_options_change(raw: Seq<char>, args: Seq<Seq<char>>, i: int)
    requires
        0 <= i < args.len(),
        args[i] == "-d"@ || args[i] == "-D"@ || args[i] == "-m"@ || args[i] == "-M"@
            || args[i] == "-c"@ || args[i] == "-C"@,
    ensures
        git_planning::git_plan(raw, git_words("branch"@, args)) == git_steps(
            seq![text::trim(raw)],
            GitRenderer::Branch { write: true },
        ),
{
    lemma_git_words(raw, "branch"@, args);
    lemma_subcommands_differ();
    lemma_branch_actions(args[i]);
    assert(git_planning::any_among(args, git_planning::branch_actions()));
}

/// A `git branch` command that names something, and has no option that lists, is a change: it
/// runs as it was written.
pub proof fn law_named_branches_change(raw: Seq<char>, args: Seq<Seq<char>>, i: int)
    requires
        0 <= i < args.len(),
        args[i].len() == 0 || args[i][0] != '-',
        forall|j: int|
            0 <= j < args.len() ==> (#[trigger] args[j]) != "-a"@ && args[j] != "--all"@
                && args[j] != "-r"@
                    && args[j] != "--remotes"@ && args[j] != "--list"@ && args[j] != "--merged"@
                    && args[j] != "--no-merged"@ && args[j] != "--contains"@
                    && args[j] != "--no-contains"@,
    ensures
        git_planning::git_plan(raw, git_words("branch"@, args)) == git_steps(
            seq![text::trim(raw)],
            GitRenderer::Branch { write: true },
        ),
{
    lemma_git_words(raw, "branch"@, args);
    lemma_subcommands_differ();
    assert(git_planning::any_positional(args));
    assert forall|j: int| 0 <= j < args.len() implies !git_planning::branch_listings().contains(
        #[trigger] args[j],
    ) by {
        lemma_branch_listings(args[j]);
    }
}

/// A `git branch` command with nothing but other options lists all branches.
pub proof fn law_all_branches_are_listed(raw: Seq<char>, args: Seq<Seq<char>>)
    requires
        forall|j: int| 0 <= j < args.len() ==> (#[trigger] args[j]).len() > 0 && args[j][0] == '-',
        forall|j: int|
            0 <= j < args.len() ==> (#[trigger] args[j]) != "-a"@ && args[j] != "--all"@
                && args[j] != "-r"@
                    && args[j] != "--remotes"@ && args[j] != "--list"@ && args[j] != "--merged"@
                    && args[j] != "--no-merged"@ && args[j] != "--contains"@
                    && args[j] != "--no-contains"@,
        forall|j: int|
            0 <= j < args.len() ==> (#[trigger] args[j]) != "-d"@ && args[j] != "-D"@
                && args[j] != "-m"@ && args[j] != "-M"@
                    && args[j] != "-c"@ && args[j] != "-C"@,
    ensures
        git_planning::git_plan(raw, git_words("branch"@, args)) == git_steps(
            seq![
                planning::with_env(
                    raw,
                    text::trim("git branch -a --no-color "@ + text::join(args, " "@)),
                ),
            ],
            GitRenderer::Branch { write: false },
        ),
{
    lemma_git_words(raw, "branch"@, args);
    lemma_subcommands_differ();
    assert forall|j: int| 0 <= j < args.len() implies !git_planning::branch_listings().contains(
        #[trigger] args[j],
    ) && !git_planning::branch_actions().contains(args[j]) by {
        lemma_branch_listings(args[j]);
        lemma_branch_actions(args[j]);
    }
}

/// Adding is followed by counting what was added. Where nothing is named, everything is added.
pub proof fn law_adding_is_counted(raw: Seq<char>, args: Seq<Seq<char>>)
    ensures
        args.len() > 0 ==> git_planning::git_plan(raw, git_words("add"@, args)) == git_steps(
            seq![
                text::trim(raw),
                planning::with_env(raw, "git diff --cached --stat --shortstat"@),
            ],
            GitRenderer::Add,
        ),
        args.len() == 0 ==> git_planning::git_plan(raw, git_words("add"@, args)) == git_steps(
            seq![
                planning::with_env(raw, "git add ."@),
                planning::with_env(raw, "git diff --cached --stat --shortstat"@),
            ],
            GitRenderer::Add,
        ),
{
    lemma_git_words(raw, "add"@, args);
}

/// Commits, fetches, pulls and pushes run as they were written, and each is shown in its own
/// way.
pub proof fn law_exchanges_run_as_written(raw: Seq<char>, args: Seq<Seq<char>>)
    ensures
        git_planning::git_plan(raw, git_words("commit"@, args)) == git_steps(seq![text::trim(raw)], GitRenderer::Commit),
        git_planning::git_plan(raw, git_words("fetch"@, args)) == git_steps(seq![text::trim(raw)], GitRenderer::Fetch),
        git_planning::git_plan(raw, git_words("pull"@, args)) == git_steps(seq![text::trim(raw)], GitRenderer::Pull),
        git_planning::git_plan(raw, git_words("push"@, args)) == git_steps(seq![text::trim(raw)], GitRenderer::Push),
{
    lemma_subcommands_differ();
    lemma_git_words(raw, "commit"@, args);
    lemma_git_words(raw, "fetch"@, args);
    lemma_git_words(raw, "pull"@, args);
    lemma_git_words(raw, "push"@, args);
}

/// A diff that is asked for as numbers, or whole, runs as it was written and is shown whole.
pub proof fn law_diffs_are_shown_as_asked(raw: Seq<char>, args: Seq<Seq<char>>, i: int)
    requires
        0 <= i < args.len(),
        args[i] == "--stat"@ || args[i] == "--numstat"@ || args[i] == "--shortstat"@
            || args[i] == "--no-compact"@,
    ensures
        git_planning::git_plan(raw, git_words("diff"@, args)) == git_steps(
            seq![text::trim(raw)],
            GitRenderer::Show { max_lines: 500, passthrough: true },
        ),
{
    lemma_git_words(raw, "diff"@, args);
    lemma_subcommands_differ();
    lemma_stat_options(args[i]);
}

/// Any other diff runs behind a diff of the same that only counts, and at most five hundred
/// lines of it are shown.
pub proof fn law_diffs_are_counted_first(raw: Seq<char>, args: Seq<Seq<char>>)
    requires
        forall|j: int|
            0 <= j < args.len() ==> (#[trigger] args[j]) != "--stat"@ && args[j] != "--numstat"@
                && args[j] != "--shortstat"@
                    && args[j] != "--no-compact"@,
    ensures
        args.len() == 0 ==> git_planning::git_plan(raw, git_words("diff"@, args)) == git_steps(
            seq![planning::with_env(raw, "git diff --stat"@), text::trim(raw)],
            GitRenderer::Diff { max_lines: 500 },
        ),
        args.len() > 0 ==> git_planning::git_plan(raw, git_words("diff"@, args)) == git_steps(
            seq![
                planning::with_env(raw, "git diff --stat "@ + text::join(args, " "@)),
                text::trim(raw),
            ],
            GitRenderer::Diff { max_lines: 500 },
        ),
{
    lemma_git_words(raw, "diff"@, args);
    lemma_subcommands_differ();
    assert forall|j: int| 0 <= j < args.len() implies !git_planning::stat_options().contains(
        #[trigger] args[j],
    ) by {
        lemma_stat_options(args[j]);
    }
    reveal_strlit("git diff --stat");
    reveal_strlit("git diff --stat ");
    reveal_strlit(" ");
    assert("git diff --stat "@ =~= "git diff --stat"@ + " "@);
    lemma_behind_a_space("git diff --stat"@, "git diff --stat "@, args);
}

/// Arguments stand behind a space, where there are any.
proof fn lemma_behind_a_space(command: Seq<char>, spaced: Seq<char>, args: Seq<Seq<char>>)
    requires
        spaced == command + " "@,
    ensures
        args.len() == 0 ==> command + git_planning::suffix(args) == command,
        args.len() > 0 ==> command + git_planning::suffix(args) == spaced + text::join(args, " "@),
{
    assert(command + Seq::<char>::empty() =~= command);
    assert(command + (" "@ + text::join(args, " "@)) =~= command + " "@ + text::join(args, " "@));
}

/// A `git show` command that says what is shown runs as it was written and is shown whole: one
/// that asks for numbers, one that says how commits are written, and one that names a file in
/// a commit.
pub proof fn law_commits_are_shown_as_asked(raw: Seq<char>, args: Seq<Seq<char>>, i: int, k: int)
    requires
        0 <= i < args.len(),
        args[i] == "--stat"@ || args[i] == "--numstat"@ || args[i] == "--shortstat"@
            || "--pretty"@.is_prefix_of(args[i]) || "--format"@.is_prefix_of(args[i])
            || (0 <= k < args[i].len() && args[i][0] != '-' && args[i][k] == ':'),
    ensures
        git_planning::git_plan(raw, git_words("show"@, args)) == git_steps(
            seq![text::trim(raw)],
            GitRenderer::Show { max_lines: 500, passthrough: true },
        ),
{
    lemma_git_words(raw, "show"@, args);
    lemma_subcommands_differ();
    lemma_stat_options(args[i]);
    if 0 <= k < args[i].len() && args[i][0] != '-' && args[i][k] == ':' {
        assert(args[i].contains(':'));
        assert(git_planning::any_blob(args));
    }
}

/// Any other `git show` command becomes three: the summary, the numbers and the diff, of which
/// at most five hundred lines are shown.
pub proof fn law_commits_are_shown_in_three_parts(raw: Seq<char>, args: Seq<Seq<char>>)
    requires
        forall|j: int|
            0 <= j < args.len() ==> (#[trigger] args[j]) != "--stat"@ && args[j] != "--numstat"@
                && args[j] != "--shortstat"@,
        forall|j: int|
            0 <= j < args.len() ==> !"--pretty"@.is_prefix_of(#[trigger] args[j])
                && !"--format"@.is_prefix_of(args[j]),
        forall|j: int, k: int|
            0 <= j < args.len() && 0 <= k < args[j].len() && args[j][0] != '-' ==> (
            #[trigger] args[j][k]) != ':',
    ensures
        args.len() == 0 ==> git_planning::git_plan(raw, git_words("show"@, args)) == git_steps(
            seq![
                planning::with_env(
                    raw,
                    "git show --no-patch --pretty=format:%h\\ %s\\ (%ar)\\ <%an>"@,
                ),
                planning::with_env(raw, "git show --stat --pretty=format:"@),
                planning::with_env(raw, "git show --pretty=format:"@),
            ],
            GitRenderer::Show { max_lines: 500, passthrough: false },
        ),
        args.len() > 0 ==> git_planning::git_plan(raw, git_words("show"@, args)) == git_steps(
            seq![
                planning::with_env(
                    raw,
                    "git show --no-patch --pretty=format:%h\\ %s\\ (%ar)\\ <%an> "@ + text::join(
                        args,
                        " "@,
                    ),
                ),
                planning::with_env(
                    raw,
                    "git show --stat --pretty=format: "@ + text::join(args, " "@),
                ),
                planning::with_env(raw, "git show --pretty=format: "@ + text::join(args, " "@)),
            ],
            GitRenderer::Show { max_lines: 500, passthrough: false },
        ),
{
    lemma_git_words(raw, "show"@, args);
    lemma_subcommands_differ();
    assert forall|j: int| 0 <= j < args.len() implies !git_planning::stat_options().contains(
        #[trigger] args[j],
    ) by {
        lemma_stat_options(args[j]);
    }
    assert(!git_planning::any_starts(args, "--pretty"@));
    assert(!git_planning::any_starts(args, "--format"@));
    assert forall|j: int| 0 <= j < args.len() && args[j].len() > 0 && args[j][0] != '-' implies !(
    #[trigger] args[j]).contains(':') by {
        if args[j].contains(':') {
            let k = choose|k: int| 0 <= k < args[j].len() && args[j][k] == ':';
            assert(args[j][k] == ':');
        }
    }
    assert forall|j: int| 0 <= j < args.len() && args[j].len() == 0 implies !(
    #[trigger] args[j]).contains(':') by {}
    assert(!git_planning::any_blob(args));
    reveal_strlit(" ");
    reveal_strlit("git show --no-patch --pretty=format:%h\\ %s\\ (%ar)\\ <%an>");
    reveal_strlit("git show --no-patch --pretty=format:%h\\ %s\\ (%ar)\\ <%an> ");
    reveal_strlit("git show --stat --pretty=format:");
    reveal_strlit("git show --stat --pretty=format: ");
    reveal_strlit("git show --pretty=format:");
    reveal_strlit("git show --pretty=format: ");
    let a = "git show --no-patch --pretty=format:%h\\ %s\\ (%ar)\\ <%an> "@;
    let b = "git show --stat --pretty=format: "@;
    let c = "git show --pretty=format: "@;
    assert(a =~= "git show --no-patch --pretty=format:%h\\ %s\\ (%ar)\\ <%an>"@ + " "@);
    assert(b =~= "git show --stat --pretty=format:"@ + " "@);
    assert(c =~= "git show --pretty=format:"@ + " "@);
    lemma_behind_a_space(
        "git show --no-patch --pretty=format:%h\\ %s\\ (%ar)\\ <%an>"@,
        a,
        args,
    );
    lemma_behind_a_space("git show --stat --pretty=format:"@, b, args);
    lemma_behind_a_space("git show --pretty=format:"@, c, args);
}

/// The stash is listed, or shown as a diff.
pub proof fn law_stash_is_shown(raw: Seq<char>, args: Seq<Seq<char>>)
    requires
        args.len() > 0,
    ensures
        args[0] == "list"@ ==> git_planning::git_plan(raw, git_words("stash"@, args)) == git_steps(
            seq![planning::with_env(raw, "git stash list"@)],
            GitRenderer::Stash(GitStashRenderer::List),
        ),
        args[0] == "show"@ ==> git_planning::git_plan(raw, git_words("stash"@, args)) == git_steps(
            seq![planning::with_env(raw, "git stash show -p "@ + text::join(args, " "@))],
            GitRenderer::Stash(GitStashRenderer::Show),
        ),
{
    lemma_git_words(raw, "stash"@, args);
    lemma_subcommands_differ();
    reveal_strlit("list");
    reveal_strlit("show");
    assert("list"@[0] == 'l' && "show"@[0] == 's');
}

/// A change of the stash runs as it was written. Where it is taken up again, dropped or pushed,
/// what is shown names the change.
pub proof fn law_stash_is_changed(raw: Seq<char>, args: Seq<Seq<char>>)
    requires
        args.len() > 0 ==> args[0] != "list"@ && args[0] != "show"@,
    ensures
        args.len() > 0 && (args[0] == "pop"@ || args[0] == "apply"@ || args[0] == "drop"@
            || args[0] == "push"@)
            ==> git_planning::git_plan(raw, git_words("stash"@, args)) == git_steps(
            seq![text::trim(raw)],
            GitRenderer::Stash(GitStashRenderer::Action { subcommand: args[0] }),
        ),
        args.len() == 0 || (args[0] != "pop"@ && args[0] != "apply"@ && args[0] != "drop"@
            && args[0] != "push"@)
            ==> git_planning::git_plan(raw, git_words("stash"@, args)) == git_steps(
            seq![text::trim(raw)],
            GitRenderer::Stash(GitStashRenderer::Default),
        ),
{
    lemma_git_words(raw, "stash"@, args);
    lemma_subcommands_differ();
    lemma_stash_actions(args[0]);
}

/// A status without arguments is the short one; any other runs as it was written.
pub proof fn law_status_is_short_unless_asked(raw: Seq<char>, args: Seq<Seq<char>>)
    ensures
        args.len() == 0 ==> git_planning::git_plan(raw, git_words("status"@, args)) == git_steps(
            seq![planning::with_env(raw, "git status --porcelain -b"@)],
            GitRenderer::Status { compact: true },
        ),
        args.len() > 0 ==> git_planning::git_plan(raw, git_words("status"@, args)) == git_steps(
            seq![text::trim(raw)],
            GitRenderer::Status { compact: false },
        ),
{
    lemma_git_words(raw, "status"@, args);
    lemma_subcommands_differ();
}

/// A change of work trees runs as it was written.
pub proof fn law_work_trees_are_changed(raw: Seq<char>, args: Seq<Seq<char>>, i: int)
    requires
        0 <= i < args.len(),
        args[i] == "add"@ || args[i] == "remove"@ || args[i] == "prune"@ || args[i] == "lock"@
            || args[i] == "unlock"@ || args[i] == "move"@,
    ensures
        git_planning::git_plan(raw, git_words("worktree"@, args)) == git_steps(
            seq![text::trim(raw)],
            GitRenderer::Worktree { write: true },
        ),
{
    lemma_git_words(raw, "worktree"@, args);
    lemma_subcommands_differ();
    lemma_worktree_actions(args[i]);
}

/// Without a word that changes them, work trees are listed.
pub proof fn law_work_trees_are_listed(raw: Seq<char>, args: Seq<Seq<char>>)
    requires
        forall|j: int|
            0 <= j < args.len() ==> (#[trigger] args[j]) != "add"@ && args[j] != "remove"@
                && args[j] != "prune"@
                    && args[j] != "lock"@ && args[j] != "unlock"@ && args[j] != "move"@,
    ensures
        git_planning::git_plan(raw, git_words("worktree"@, args)) == git_steps(
            seq![planning::with_env(raw, "git worktree list"@)],
            GitRenderer::Worktree { write: false },
        ),
{
    lemma_git_words(raw, "worktree"@, args);
    lemma_subcommands_differ();
    assert forall|j: int| 0 <= j < args.len() implies !git_planning::worktree_actions().contains(
        #[trigger] args[j],
    ) by {
        lemma_worktree_actions(args[j]);
    }
}

/// A log becomes one command, that of its arguments, and is shown with the limit that the
/// command was written with.
pub proof fn law_logs_keep_their_limit(raw: Seq<char>, args: Seq<Seq<char>>)
    ensures
        git_planning::git_plan(raw, git_words("log"@, args)) == git_steps(
            seq![git::log_command(args).0],
            GitRenderer::Log {
                limit: git::log_command(args).1 as usize,
                user_set_limit: git::log_command(args).2,
            },
        ),
{
    lemma_git_words(raw, "log"@, args);
    lemma_subcommands_differ();
}

/// What is no `git` command with one of twelve subcommands has no plan, and the error says why.
pub proof fn law_other_git_commands_are_refused(raw: Seq<char>, tokens: Seq<Seq<char>>)
    ensures
        tokens.len() == 0 ==> git_planning::git_plan(raw, tokens) == Err::<
            PlanView,
            PlanError<Seq<char>>,
        >(PlanError::MissingCommand(Tool::Git)),
        tokens.len() > 0 && tokens[0] != "git"@ ==> git_planning::git_plan(raw, tokens) == Err::<
            PlanView,
            PlanError<Seq<char>>,
        >(PlanError::OtherCommand(Tool::Git)),
        tokens.len() == 1 && tokens[0] == "git"@ ==> git_planning::git_plan(raw, tokens) == Err::<
            PlanView,
            PlanError<Seq<char>>,
        >(PlanError::MissingSubcommand(Tool::Git)),
        tokens.len() > 1 && tokens[0] == "git"@ && tokens[1] != "add"@ && tokens[1] != "branch"@
            && tokens[1] != "commit"@
                && tokens[1] != "diff"@ && tokens[1] != "fetch"@ && tokens[1] != "log"@
                && tokens[1] != "pull"@ && tokens[1] != "push"@ && tokens[1] != "show"@
                && tokens[1] != "stash"@ && tokens[1] != "status"@ && tokens[1] != "worktree"@
            ==> git_planning::git_plan(raw, tokens) == Err::<PlanView, PlanError<Seq<char>>>(
            PlanError::UnsupportedSubcommand(Tool::Git, tokens[1]),
        ),
{
}

} // verus!
