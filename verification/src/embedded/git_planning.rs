//! Which steps a `git` command becomes.
use vstd::prelude::*;
use crate::embedded::{GitRenderer, GitStashRenderer, PlannedStep, Renderer, ShellPlan};
use crate::embedded::planning::{
    dashed, plan_passthrough, single, with_env_prefix, PlanError, Tool,
};
use crate::embedded::planning;
use crate::embedded::PlanView;
use crate::git;
use crate::text;

verus! {

/// How many lines of a diff are shown.
pub const DIFF_LINES: usize = 500;

/// Whether one of `args` is among `names`.
pub open spec fn any_among(args: Seq<Seq<char>>, names: Seq<Seq<char>>) -> bool {
    exists|i: int| 0 <= i < args.len() && names.contains(#[trigger] args[i])
}

/// Whether one of `args` starts with `prefix`.
pub open spec fn any_starts(args: Seq<Seq<char>>, prefix: Seq<char>) -> bool {
    exists|i: int| 0 <= i < args.len() && prefix.is_prefix_of(#[trigger] args[i])
}

/// Whether one of `args` is no option.
pub open spec fn any_positional(args: Seq<Seq<char>>) -> bool {
    exists|i: int| 0 <= i < args.len() && !planning::is_dashed(#[trigger] args[i])
}

/// Whether one of `args` names a file in a commit.
pub open spec fn any_blob(args: Seq<Seq<char>>) -> bool {
    exists|i: int|
        0 <= i < args.len() && !planning::is_dashed(#[trigger] args[i]) && args[i].contains(':')
}

/// The options that change a branch.
pub open spec fn branch_actions() -> Seq<Seq<char>> {
    seq!["-d"@, "-D"@, "-m"@, "-M"@, "-c"@, "-C"@]
}

/// The options that list branches.
pub open spec fn branch_listings() -> Seq<Seq<char>> {
    seq![
        "-a"@,
        "--all"@,
        "-r"@,
        "--remotes"@,
        "--list"@,
        "--merged"@,
        "--no-merged"@,
        "--contains"@,
        "--no-contains"@,
    ]
}

/// The options that ask for numbers instead of a diff.
pub open spec fn stat_options() -> Seq<Seq<char>> {
    seq!["--stat"@, "--numstat"@, "--shortstat"@]
}

/// The subcommands that change a work tree.
pub open spec fn worktree_actions() -> Seq<Seq<char>> {
    seq!["add"@, "remove"@, "prune"@, "lock"@, "unlock"@, "move"@]
}

/// The subcommands that change the stash.
pub open spec fn stash_actions() -> Seq<Seq<char>> {
    seq!["pop"@, "apply"@, "drop"@, "push"@]
}

/// The subcommands that have a plan.
pub open spec fn supported() -> Seq<Seq<char>> {
    seq![
        "add"@,
        "branch"@,
        "commit"@,
        "diff"@,
        "fetch"@,
        "log"@,
        "pull"@,
        "push"@,
        "show"@,
        "stash"@,
        "status"@,
        "worktree"@,
    ]
}

/// The arguments behind a space, or nothing.
pub open spec fn suffix(args: Seq<Seq<char>>) -> Seq<char> {
    if args.len() == 0 {
        seq![]
    } else {
        " "@ + text::join(args, " "@)
    }
}

/// The plan of one step.
pub open spec fn one(step: Seq<char>, renderer: GitRenderer<Seq<char>>) -> PlanView {
    PlanView { steps: seq![step], renderer: Renderer::Git(renderer) }
}

/// Everything is added where nothing is named; then what was added is counted.
pub open spec fn add_plan(raw: Seq<char>, args: Seq<Seq<char>>) -> PlanView {
    PlanView {
        steps: seq![
            if args.len() == 0 {
                planning::with_env(raw, "git add ."@)
            } else {
                text::trim(raw)
            },
            planning::with_env(raw, "git diff --cached --stat --shortstat"@),
        ],
        renderer: Renderer::Git(GitRenderer::Add),
    }
}

/// Whether a `git branch` command changes a branch: by an option, or by naming one
/// without listing.
pub open spec fn writes_branch(args: Seq<Seq<char>>) -> bool {
    any_among(args, branch_actions()) || (any_positional(args) && !any_among(
        args,
        branch_listings(),
    ))
}

/// A change runs as it is. A listing is without colours, and of all branches where the
/// options do not say which.
pub open spec fn branch_plan(raw: Seq<char>, args: Seq<Seq<char>>) -> PlanView {
    one(
        if writes_branch(args) {
            text::trim(raw)
        } else {
            planning::with_env(
                raw,
                text::trim(
                    (if any_among(args, branch_listings()) {
                        "git branch --no-color "@
                    } else {
                        "git branch -a --no-color "@
                    }) + text::join(args, " "@),
                ),
            )
        },
        GitRenderer::Branch { write: writes_branch(args) },
    )
}

/// Numbers, and a diff that is not to be shortened, are shown as they are. Of another
/// diff the numbers come first.
pub open spec fn diff_plan(raw: Seq<char>, args: Seq<Seq<char>>) -> PlanView {
    if any_among(args, stat_options()) || args.contains("--no-compact"@) {
        planning::passthrough(
            raw,
            Renderer::Git(GitRenderer::Show { max_lines: DIFF_LINES, passthrough: true }),
        )
    } else {
        PlanView {
            steps: seq![
                planning::with_env(raw, "git diff --stat"@ + suffix(args)),
                text::trim(raw),
            ],
            renderer: Renderer::Git(GitRenderer::Diff { max_lines: DIFF_LINES }),
        }
    }
}

/// A log runs as a command of its own.
pub open spec fn log_plan(args: Seq<Seq<char>>) -> PlanView {
    let (command, limit, user_set_limit) = git::log_command(args);
    one(command, GitRenderer::Log { limit: limit as usize, user_set_limit })
}

/// Whether the arguments of `git show` say what is shown.
pub open spec fn shows_as_asked(args: Seq<Seq<char>>) -> bool {
    any_among(args, stat_options()) || any_starts(args, "--pretty"@) || any_starts(
        args,
        "--format"@,
    ) || any_blob(args)
}

/// Where the arguments do not say what is shown, it is the summary, the numbers and the
/// diff, each with a step of its own.
pub open spec fn show_plan(raw: Seq<char>, args: Seq<Seq<char>>) -> PlanView {
    if shows_as_asked(args) {
        planning::passthrough(
            raw,
            Renderer::Git(GitRenderer::Show { max_lines: DIFF_LINES, passthrough: true }),
        )
    } else {
        PlanView {
            steps: seq![
                planning::with_env(
                    raw,
                    "git show --no-patch --pretty=format:%h\\ %s\\ (%ar)\\ <%an>"@ + suffix(args),
                ),
                planning::with_env(raw, "git show --stat --pretty=format:"@ + suffix(args)),
                planning::with_env(raw, "git show --pretty=format:"@ + suffix(args)),
            ],
            renderer: Renderer::Git(
                GitRenderer::Show { max_lines: DIFF_LINES, passthrough: false },
            ),
        }
    }
}

/// The stash is listed, shown as a diff, or changed.
pub open spec fn stash_plan(raw: Seq<char>, args: Seq<Seq<char>>) -> PlanView {
    if args.len() > 0 && args[0] == "list"@ {
        one(
            planning::with_env(raw, "git stash list"@),
            GitRenderer::Stash(GitStashRenderer::List),
        )
    } else if args.len() > 0 && args[0] == "show"@ {
        one(
            planning::with_env(raw, "git stash show -p "@ + text::join(args, " "@)),
            GitRenderer::Stash(GitStashRenderer::Show),
        )
    } else if args.len() > 0 && stash_actions().contains(args[0]) {
        one(
            text::trim(raw),
            GitRenderer::Stash(GitStashRenderer::Action { subcommand: args[0] }),
        )
    } else {
        one(text::trim(raw), GitRenderer::Stash(GitStashRenderer::Default))
    }
}

/// The status is the short one, unless arguments ask for another.
pub open spec fn status_plan(raw: Seq<char>, args: Seq<Seq<char>>) -> PlanView {
    one(
        if args.len() == 0 {
            planning::with_env(raw, "git status --porcelain -b"@)
        } else {
            text::trim(raw)
        },
        GitRenderer::Status { compact: args.len() == 0 },
    )
}

/// Work trees are changed, or else listed.
pub open spec fn worktree_plan(raw: Seq<char>, args: Seq<Seq<char>>) -> PlanView {
    one(
        if any_among(args, worktree_actions()) {
            text::trim(raw)
        } else {
            planning::with_env(raw, "git worktree list"@)
        },
        GitRenderer::Worktree { write: any_among(args, worktree_actions()) },
    )
}

/// The plan of a subcommand.
pub open spec fn subcommand_plan(
    raw: Seq<char>,
    subcommand: Seq<char>,
    args: Seq<Seq<char>>,
) -> Option<PlanView> {
    if subcommand == "add"@ {
        Some(add_plan(raw, args))
    } else if subcommand == "branch"@ {
        Some(branch_plan(raw, args))
    } else if subcommand == "commit"@ {
        Some(one(text::trim(raw), GitRenderer::Commit))
    } else if subcommand == "diff"@ {
        Some(diff_plan(raw, args))
    } else if subcommand == "fetch"@ {
        Some(one(text::trim(raw), GitRenderer::Fetch))
    } else if subcommand == "log"@ {
        Some(log_plan(args))
    } else if subcommand == "pull"@ {
        Some(one(text::trim(raw), GitRenderer::Pull))
    } else if subcommand == "push"@ {
        Some(one(text::trim(raw), GitRenderer::Push))
    } else if subcommand == "show"@ {
        Some(show_plan(raw, args))
    } else if subcommand == "stash"@ {
        Some(stash_plan(raw, args))
    } else if subcommand == "status"@ {
        Some(status_plan(raw, args))
    } else if subcommand == "worktree"@ {
        Some(worktree_plan(raw, args))
    } else {
        None
    }
}

/// The plan of a `git` command.
pub open spec fn git_plan(raw: Seq<char>, tokens: Seq<Seq<char>>) -> planning::Outcome {
    if tokens.len() == 0 {
        Err(PlanError::MissingCommand(Tool::Git))
    } else if tokens[0] != "git"@ {
        Err(PlanError::OtherCommand(Tool::Git))
    } else if tokens.len() == 1 {
        Err(PlanError::MissingSubcommand(Tool::Git))
    } else {
        match subcommand_plan(raw, tokens[1], tokens.skip(2)) {
            Some(plan) => Ok(plan),
            None => Err(PlanError::UnsupportedSubcommand(Tool::Git, tokens[1])),
        }
    }
}

/// Whether one of `args` is among `names`.
fn among(args: &[String], names: &[&str]) -> (r: bool)
    ensures
        r == any_among(text::views(args@), text::str_views(names@)),
{
    let ghost all = text::views(args@);
    let ghost known = text::str_views(names@);
    let mut i: usize = 0;
    while i < args.len()
        invariant
            i <= args@.len(),
            all == text::views(args@),
            known == text::str_views(names@),
            forall|j: int| 0 <= j < i ==> !known.contains(#[trigger] all[j]),
        decreases args@.len() - i,
    {
        let mut k: usize = 0;
        assert(all[i as int] == args@[i as int]@);
        while k < names.len()
            invariant
                i < args@.len(),
                k <= names@.len(),
                all == text::views(args@),
                known == text::str_views(names@),
                all[i as int] == args@[i as int]@,
                forall|j: int| 0 <= j < k ==> #[trigger] known[j] != all[i as int],
            decreases names@.len() - k,
        {
            assert(known[k as int] == names@[k as int]@);
            if text::same(args[i].as_str(), names[k]) {
                assert(known.contains(all[i as int]));
                return true;
            }
            k += 1;
        }
        assert(!known.contains(all[i as int]));
        i += 1;
    }
    false
}

/// Whether one of `args` starts with `prefix`.
fn one_starts(args: &[String], prefix: &str) -> (r: bool)
    ensures
        r == any_starts(text::views(args@), prefix@),
{
    let ghost all = text::views(args@);
    let mut i: usize = 0;
    while i < args.len()
        invariant
            i <= args@.len(),
            all == text::views(args@),
            forall|j: int| 0 <= j < i ==> !prefix@.is_prefix_of(#[trigger] all[j]),
        decreases args@.len() - i,
    {
        assert(all[i as int] == args@[i as int]@);
        if text::starts_with(args[i].as_str(), prefix) {
            return true;
        }
        i += 1;
    }
    false
}

/// Whether one of `args` is no option.
fn one_positional(args: &[String]) -> (r: bool)
    ensures
        r == any_positional(text::views(args@)),
{
    let ghost all = text::views(args@);
    let mut i: usize = 0;
    while i < args.len()
        invariant
            i <= args@.len(),
            all == text::views(args@),
            forall|j: int| 0 <= j < i ==> planning::is_dashed(#[trigger] all[j]),
        decreases args@.len() - i,
    {
        assert(all[i as int] == args@[i as int]@);
        if !dashed(args[i].as_str()) {
            return true;
        }
        i += 1;
    }
    false
}

/// Whether one of `args` names a file in a commit.
fn one_blob(args: &[String]) -> (r: bool)
    ensures
        r == any_blob(text::views(args@)),
{
    let ghost all = text::views(args@);
    let mut i: usize = 0;
    while i < args.len()
        invariant
            i <= args@.len(),
            all == text::views(args@),
            forall|j: int|
                0 <= j < i ==> planning::is_dashed(#[trigger] all[j]) || !all[j].contains(':'),
        decreases args@.len() - i,
    {
        assert(all[i as int] == args@[i as int]@);
        if !dashed(args[i].as_str()) && text::has_char(args[i].as_str(), ':') {
            return true;
        }
        i += 1;
    }
    false
}

/// Whether one of `args` asks for numbers instead of a diff.
fn wants_stat(args: &[String]) -> (r: bool)
    ensures
        r == any_among(text::views(args@), stat_options()),
{
    let names: Vec<&str> = vec!["--stat", "--numstat", "--shortstat"];
    assert(text::str_views(names@) =~= stat_options());
    among(args, names.as_slice())
}

/// The arguments behind a space, or nothing.
fn suffix_of(args: &[String]) -> (r: String)
    ensures
        r@ == suffix(text::views(args@)),
{
    if args.len() == 0 {
        String::new()
    } else {
        let list = text::joined(args, " ");
        text::cat(" ", list.as_str())
    }
}

/// `command` and the arguments, behind whatever stands before the command in
/// `raw_command`.
fn step_with(raw_command: &str, command: &str, args: &str) -> (r: PlannedStep)
    ensures
        r@ == planning::with_env(raw_command@, command@ + args@),
{
    let whole = text::cat(command, args);
    PlannedStep::new(with_env_prefix(raw_command, whole.as_str()))
}

/// Plan to add.
fn plan_add(raw_command: &str, args: &[String]) -> (r: ShellPlan)
    ensures
        r@ == add_plan(raw_command@, text::views(args@)),
{
    let add_command = if args.len() == 0 {
        with_env_prefix(raw_command, "git add .")
    } else {
        text::trimmed(raw_command)
    };
    let count = with_env_prefix(raw_command, "git diff --cached --stat --shortstat");
    let mut steps: Vec<PlannedStep> = Vec::new();
    steps.push(PlannedStep::new(add_command));
    steps.push(PlannedStep::new(count));
    let plan = ShellPlan::new(steps, Renderer::Git(GitRenderer::Add));
    assert(plan@ =~= add_plan(raw_command@, text::views(args@)));
    plan
}

/// Plan to change or to list branches.
fn plan_branch(raw_command: &str, args: &[String]) -> (r: ShellPlan)
    ensures
        r@ == branch_plan(raw_command@, text::views(args@)),
{
    let actions: Vec<&str> = vec!["-d", "-D", "-m", "-M", "-c", "-C"];
    let listings: Vec<&str> = vec![
        "-a",
        "--all",
        "-r",
        "--remotes",
        "--list",
        "--merged",
        "--no-merged",
        "--contains",
        "--no-contains",
    ];
    proof {
        assert(text::str_views(actions@) =~= branch_actions());
        assert(text::str_views(listings@) =~= branch_listings());
    }
    let has_action_flag = among(args, actions.as_slice());
    let has_list_flag = among(args, listings.as_slice());
    let has_positional_arg = one_positional(args);
    let write = has_action_flag || (has_positional_arg && !has_list_flag);
    let command = if write {
        text::trimmed(raw_command)
    } else {
        let list = text::joined(args, " ");
        let listing = if has_list_flag {
            text::cat("git branch --no-color ", list.as_str())
        } else {
            text::cat("git branch -a --no-color ", list.as_str())
        };
        with_env_prefix(raw_command, text::trimmed(listing.as_str()).as_str())
    };
    single(command, Renderer::Git(GitRenderer::Branch { write }))
}

/// Plan a diff.
fn plan_diff(raw_command: &str, args: &[String]) -> (r: ShellPlan)
    ensures
        r@ == diff_plan(raw_command@, text::views(args@)),
{
    if wants_stat(args) || text::listed(args, "--no-compact") {
        return plan_passthrough(
            raw_command,
            Renderer::Git(GitRenderer::Show { max_lines: DIFF_LINES, passthrough: true }),
        );
    }
    let suffix = suffix_of(args);
    let mut steps: Vec<PlannedStep> = Vec::new();
    steps.push(step_with(raw_command, "git diff --stat", suffix.as_str()));
    steps.push(PlannedStep::new(text::trimmed(raw_command)));
    let plan = ShellPlan::new(
        steps,
        Renderer::Git(GitRenderer::Diff { max_lines: DIFF_LINES }),
    );
    assert(plan@ =~= diff_plan(raw_command@, text::views(args@)));
    plan
}

/// Plan a log.
fn plan_log(args: &[String]) -> (r: ShellPlan)
    ensures
        r@ == log_plan(text::views(args@)),
{
    let (command, limit, user_set_limit) = git::build_git_log_command(args);
    single(command, Renderer::Git(GitRenderer::Log { limit, user_set_limit }))
}

/// Plan to show a commit.
fn plan_show(raw_command: &str, args: &[String]) -> (r: ShellPlan)
    ensures
        r@ == show_plan(raw_command@, text::views(args@)),
{
    if wants_stat(args) || one_starts(args, "--pretty") || one_starts(args, "--format")
        || one_blob(args) {
        return plan_passthrough(
            raw_command,
            Renderer::Git(GitRenderer::Show { max_lines: DIFF_LINES, passthrough: true }),
        );
    }
    let suffix = suffix_of(args);
    let mut steps: Vec<PlannedStep> = Vec::new();
    steps.push(
        step_with(
            raw_command,
            "git show --no-patch --pretty=format:%h\\ %s\\ (%ar)\\ <%an>",
            suffix.as_str(),
        ),
    );
    steps.push(step_with(raw_command, "git show --stat --pretty=format:", suffix.as_str()));
    steps.push(step_with(raw_command, "git show --pretty=format:", suffix.as_str()));
    let plan = ShellPlan::new(
        steps,
        Renderer::Git(GitRenderer::Show { max_lines: DIFF_LINES, passthrough: false }),
    );
    assert(plan@ =~= show_plan(raw_command@, text::views(args@)));
    plan
}

/// Plan to list, show or change the stash.
fn plan_stash(raw_command: &str, args: &[String]) -> (r: ShellPlan)
    ensures
        r@ == stash_plan(raw_command@, text::views(args@)),
{
    if args.len() == 0 {
        return plan_passthrough(
            raw_command,
            Renderer::Git(GitRenderer::Stash(GitStashRenderer::Default)),
        );
    }
    let first = vstd::slice::slice_subrange(args, 0, 1);
    let actions: Vec<&str> = vec!["pop", "apply", "drop", "push"];
    let ghost all = text::views(args@);
    let ghost head = text::views(first@);
    proof {
        assert(text::str_views(actions@) =~= stash_actions());
        assert(head =~= seq![all[0]]);
    }
    let subcommand = args[0].as_str();
    if text::same(subcommand, "list") {
        single(
            with_env_prefix(raw_command, "git stash list"),
            Renderer::Git(GitRenderer::Stash(GitStashRenderer::List)),
        )
    } else if text::same(subcommand, "show") {
        let list = text::joined(args, " ");
        let show = text::cat("git stash show -p ", list.as_str());
        single(
            with_env_prefix(raw_command, show.as_str()),
            Renderer::Git(GitRenderer::Stash(GitStashRenderer::Show)),
        )
    } else if among(first, actions.as_slice()) {
        plan_passthrough(
            raw_command,
            Renderer::Git(
                GitRenderer::Stash(GitStashRenderer::Action { subcommand: args[0].clone() }),
            ),
        )
    } else {
        assert(!any_among(head, stash_actions()));
        assert(!stash_actions().contains(head[0]));
        plan_passthrough(
            raw_command,
            Renderer::Git(GitRenderer::Stash(GitStashRenderer::Default)),
        )
    }
}

/// Plan a status.
fn plan_status(raw_command: &str, args: &[String]) -> (r: ShellPlan)
    ensures
        r@ == status_plan(raw_command@, text::views(args@)),
{
    let compact = args.len() == 0;
    let command = if compact {
        with_env_prefix(raw_command, "git status --porcelain -b")
    } else {
        text::trimmed(raw_command)
    };
    single(command, Renderer::Git(GitRenderer::Status { compact }))
}

/// Plan to change or to list work trees.
fn plan_worktree(raw_command: &str, args: &[String]) -> (r: ShellPlan)
    ensures
        r@ == worktree_plan(raw_command@, text::views(args@)),
{
    let actions: Vec<&str> = vec!["add", "remove", "prune", "lock", "unlock", "move"];
    assert(text::str_views(actions@) =~= worktree_actions());
    let has_action = among(args, actions.as_slice());
    let command = if has_action {
        text::trimmed(raw_command)
    } else {
        with_env_prefix(raw_command, "git worktree list")
    };
    single(command, Renderer::Git(GitRenderer::Worktree { write: has_action }))
}

/// Plan a `git` command.
pub fn plan_git_from_raw(raw_command: &str, raw_tokens: &[String]) -> (r: Result<
    ShellPlan,
    PlanError<String>,
>)
    ensures
        planning::outcome(r) == git_plan(raw_command@, text::views(raw_tokens@)),
{
    if raw_tokens.len() == 0 {
        return Err(PlanError::MissingCommand(Tool::Git));
    }
    if !text::same(raw_tokens[0].as_str(), "git") {
        return Err(PlanError::OtherCommand(Tool::Git));
    }
    if raw_tokens.len() == 1 {
        return Err(PlanError::MissingSubcommand(Tool::Git));
    }
    let subcommand = raw_tokens[1].as_str();
    let remaining = vstd::slice::slice_subrange(raw_tokens, 2, raw_tokens.len());
    assert(text::views(remaining@) =~= text::views(raw_tokens@).skip(2));
    if text::same(subcommand, "add") {
        Ok(plan_add(raw_command, remaining))
    } else if text::same(subcommand, "branch") {
        Ok(plan_branch(raw_command, remaining))
    } else if text::same(subcommand, "commit") {
        Ok(plan_passthrough(raw_command, Renderer::Git(GitRenderer::Commit)))
    } else if text::same(subcommand, "diff") {
        Ok(plan_diff(raw_command, remaining))
    } else if text::same(subcommand, "fetch") {
        Ok(plan_passthrough(raw_command, Renderer::Git(GitRenderer::Fetch)))
    } else if text::same(subcommand, "log") {
        Ok(plan_log(remaining))
    } else if text::same(subcommand, "pull") {
        Ok(plan_passthrough(raw_command, Renderer::Git(GitRenderer::Pull)))
    } else if text::same(subcommand, "push") {
        Ok(plan_passthrough(raw_command, Renderer::Git(GitRenderer::Push)))
    } else if text::same(subcommand, "show") {
        Ok(plan_show(raw_command, remaining))
    } else if text::same(subcommand, "stash") {
        Ok(plan_stash(raw_command, remaining))
    } else if text::same(subcommand, "status") {
        Ok(plan_status(raw_command, remaining))
    } else if text::same(subcommand, "worktree") {
        Ok(plan_worktree(raw_command, remaining))
    } else {
        Err(PlanError::UnsupportedSubcommand(Tool::Git, raw_tokens[1].clone()))
    }
}

} // verus!
