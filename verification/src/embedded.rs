//! Planning a shell command as steps whose output is shown shortened.
//!
//! `plan` turns a command line into a `ShellPlan`: the shell commands to run, one
//! after the other, and a way to show what they print. Whoever runs the steps hands
//! their results to `ShellPlan::render`.
pub mod git_planning;
pub mod git_rendering;
pub mod laws;
pub mod planning;

use vstd::prelude::*;
use crate::cargo_cmd;
use crate::diff_cmd;
use crate::discover::registry;
use crate::filter::FilterLevel;
use crate::grep_cmd;
use crate::ls;
use crate::number;
use crate::prettier_cmd;
use crate::pytest_cmd;
use crate::read;
use crate::ruff_cmd;
use crate::shell_words;
use crate::text;
use crate::toml_filter;
use crate::tree;
use crate::tsc_cmd;

verus! {

/// One shell command of a plan.
#[derive(Debug, PartialEq, Eq)]
pub struct PlannedStep {
    shell: String,
}

impl View for PlannedStep {
    type V = Seq<char>;

    closed spec fn view(&self) -> Seq<char> {
        self.shell@
    }
}

impl PlannedStep {
    /// The step that runs `shell`.
    pub(crate) fn new(shell: String) -> (r: PlannedStep)
        ensures
            r@ == shell@,
    {
        PlannedStep { shell }
    }

    /// The command that the step runs.
    #[must_use]
    pub fn shell_command(&self) -> (r: &str)
        ensures
            r@ == self@,
    {
        self.shell.as_str()
    }
}

impl Clone for PlannedStep {
    fn clone(&self) -> (r: PlannedStep)
        ensures
            r@ == self@,
    {
        PlannedStep { shell: self.shell.clone() }
    }
}

/// What a step printed, and whether it succeeded.
#[derive(Debug, Clone, Copy)]
pub struct StepResult<'a> {
    pub output: &'a str,
    pub succeeded: bool,
}

/// What the result of a step holds.
pub struct ResultView {
    pub output: Seq<char>,
    pub succeeded: bool,
}

impl<'a> View for StepResult<'a> {
    type V = ResultView;

    open spec fn view(&self) -> ResultView {
        ResultView { output: self.output@, succeeded: self.succeeded }
    }
}

/// What the results of the steps hold.
pub open spec fn result_views(results: Seq<StepResult<'_>>) -> Seq<ResultView> {
    results.map_values(|r: StepResult<'_>| r@)
}

/// How the output of `cargo` is shown.
#[derive(Debug, Clone, Copy, PartialEq, Eq, Structural)]
pub enum CargoRenderer {
    Build,
    Test,
    Clippy,
    Install,
    Passthrough,
}

/// How the output of `ruff` is shown.
#[derive(Debug, Clone, Copy, PartialEq, Eq, Structural)]
pub enum RuffRenderer {
    Check,
    Format,
    Passthrough,
}

/// How the output of `git stash` is shown.
#[derive(Debug)]
pub enum GitStashRenderer<T> {
    Default,
    Action { subcommand: T },
    List,
    Show,
}

/// How the output of `git` is shown.
#[derive(Debug)]
pub enum GitRenderer<T> {
    Add,
    Branch { write: bool },
    Commit,
    Diff { max_lines: usize },
    Fetch,
    Log { limit: usize, user_set_limit: bool },
    Pull,
    Push,
    Show { max_lines: usize, passthrough: bool },
    Stash(GitStashRenderer<T>),
    Status { compact: bool },
    Worktree { write: bool },
}

/// How the output of a plan is shown. `T` is the type of the texts that it holds.
#[derive(Debug)]
pub enum Renderer<T> {
    Cargo(CargoRenderer),
    Diff,
    Git(GitRenderer<T>),
    Grep { pattern: T, path: T, max_line_len: usize, max_results: usize, context_only: bool },
    Ls { show_all: bool },
    Prettier,
    Pytest,
    Read {
        file_name_hint: Option<T>,
        level: FilterLevel,
        max_lines: Option<usize>,
        tail_lines: Option<usize>,
        line_numbers: bool,
    },
    Ruff(RuffRenderer),
    TomlFilter { command: T },
    Tree,
    Tsc,
}

impl View for GitStashRenderer<String> {
    type V = GitStashRenderer<Seq<char>>;

    open spec fn view(&self) -> GitStashRenderer<Seq<char>> {
        match *self {
            GitStashRenderer::Default => GitStashRenderer::Default,
            GitStashRenderer::Action { subcommand } => GitStashRenderer::Action {
                subcommand: subcommand@,
            },
            GitStashRenderer::List => GitStashRenderer::List,
            GitStashRenderer::Show => GitStashRenderer::Show,
        }
    }
}

impl View for GitRenderer<String> {
    type V = GitRenderer<Seq<char>>;

    open spec fn view(&self) -> GitRenderer<Seq<char>> {
        match *self {
            GitRenderer::Add => GitRenderer::Add,
            GitRenderer::Branch { write } => GitRenderer::Branch { write },
            GitRenderer::Commit => GitRenderer::Commit,
            GitRenderer::Diff { max_lines } => GitRenderer::Diff { max_lines },
            GitRenderer::Fetch => GitRenderer::Fetch,
            GitRenderer::Log { limit, user_set_limit } => GitRenderer::Log {
                limit,
                user_set_limit,
            },
            GitRenderer::Pull => GitRenderer::Pull,
            GitRenderer::Push => GitRenderer::Push,
            GitRenderer::Show { max_lines, passthrough } => GitRenderer::Show {
                max_lines,
                passthrough,
            },
            GitRenderer::Stash(stash) => GitRenderer::Stash(stash@),
            GitRenderer::Status { compact } => GitRenderer::Status { compact },
            GitRenderer::Worktree { write } => GitRenderer::Worktree { write },
        }
    }
}

impl View for Renderer<String> {
    type V = Renderer<Seq<char>>;

    open spec fn view(&self) -> Renderer<Seq<char>> {
        match *self {
            Renderer::Cargo(cargo) => Renderer::Cargo(cargo),
            Renderer::Diff => Renderer::Diff,
            Renderer::Git(git) => Renderer::Git(git@),
            Renderer::Grep { pattern, path, max_line_len, max_results, context_only } =>
                Renderer::Grep {
                    pattern: pattern@,
                    path: path@,
                    max_line_len,
                    max_results,
                    context_only,
                },
            Renderer::Ls { show_all } => Renderer::Ls { show_all },
            Renderer::Prettier => Renderer::Prettier,
            Renderer::Pytest => Renderer::Pytest,
            Renderer::Read { file_name_hint, level, max_lines, tail_lines, line_numbers } =>
                Renderer::Read {
                    file_name_hint: text::opt_view(file_name_hint),
                    level,
                    max_lines,
                    tail_lines,
                    line_numbers,
                },
            Renderer::Ruff(ruff) => Renderer::Ruff(ruff),
            Renderer::TomlFilter { command } => Renderer::TomlFilter { command: command@ },
            Renderer::Tree => Renderer::Tree,
            Renderer::Tsc => Renderer::Tsc,
        }
    }
}

impl Clone for GitStashRenderer<String> {
    fn clone(&self) -> (r: GitStashRenderer<String>)
        ensures
            r@ == self@,
    {
        match self {
            GitStashRenderer::Default => GitStashRenderer::Default,
            GitStashRenderer::Action { subcommand } => GitStashRenderer::Action {
                subcommand: subcommand.clone(),
            },
            GitStashRenderer::List => GitStashRenderer::List,
            GitStashRenderer::Show => GitStashRenderer::Show,
        }
    }
}

impl Clone for GitRenderer<String> {
    fn clone(&self) -> (r: GitRenderer<String>)
        ensures
            r@ == self@,
    {
        match self {
            GitRenderer::Add => GitRenderer::Add,
            GitRenderer::Branch { write } => GitRenderer::Branch { write: *write },
            GitRenderer::Commit => GitRenderer::Commit,
            GitRenderer::Diff { max_lines } => GitRenderer::Diff { max_lines: *max_lines },
            GitRenderer::Fetch => GitRenderer::Fetch,
            GitRenderer::Log { limit, user_set_limit } => GitRenderer::Log {
                limit: *limit,
                user_set_limit: *user_set_limit,
            },
            GitRenderer::Pull => GitRenderer::Pull,
            GitRenderer::Push => GitRenderer::Push,
            GitRenderer::Show { max_lines, passthrough } => GitRenderer::Show {
                max_lines: *max_lines,
                passthrough: *passthrough,
            },
            GitRenderer::Stash(stash) => GitRenderer::Stash(stash.clone()),
            GitRenderer::Status { compact } => GitRenderer::Status { compact: *compact },
            GitRenderer::Worktree { write } => GitRenderer::Worktree { write: *write },
        }
    }
}

impl Clone for Renderer<String> {
    fn clone(&self) -> (r: Renderer<String>)
        ensures
            r@ == self@,
    {
        match self {
            Renderer::Cargo(cargo) => Renderer::Cargo(*cargo),
            Renderer::Diff => Renderer::Diff,
            Renderer::Git(git) => Renderer::Git(git.clone()),
            Renderer::Grep { pattern, path, max_line_len, max_results, context_only } =>
                Renderer::Grep {
                    pattern: pattern.clone(),
                    path: path.clone(),
                    max_line_len: *max_line_len,
                    max_results: *max_results,
                    context_only: *context_only,
                },
            Renderer::Ls { show_all } => Renderer::Ls { show_all: *show_all },
            Renderer::Prettier => Renderer::Prettier,
            Renderer::Pytest => Renderer::Pytest,
            Renderer::Read { file_name_hint, level, max_lines, tail_lines, line_numbers } =>
                Renderer::Read {
                    file_name_hint: match file_name_hint {
                        Some(name) => Some(name.clone()),
                        None => None,
                    },
                    level: *level,
                    max_lines: *max_lines,
                    tail_lines: *tail_lines,
                    line_numbers: *line_numbers,
                },
            Renderer::Ruff(ruff) => Renderer::Ruff(*ruff),
            Renderer::TomlFilter { command } => Renderer::TomlFilter { command: command.clone() },
            Renderer::Tree => Renderer::Tree,
            Renderer::Tsc => Renderer::Tsc,
        }
    }
}

/// How many results a renderer reads.
pub open spec fn results_read<T>(renderer: Renderer<T>) -> nat {
    match renderer {
        Renderer::Git(GitRenderer::Add) => 2,
        Renderer::Git(GitRenderer::Diff { .. }) => 2,
        Renderer::Git(GitRenderer::Show { passthrough: false, .. }) => 3,
        _ => 1,
    }
}

/// What a plan holds.
#[verifier::ext_equal]
pub struct PlanView {
    pub steps: Seq<Seq<char>>,
    pub renderer: Renderer<Seq<char>>,
}

/// The shell commands to run, and how to show what they print.
#[derive(Debug)]
pub struct ShellPlan {
    steps: Vec<PlannedStep>,
    renderer: Renderer<String>,
}

impl View for ShellPlan {
    type V = PlanView;

    closed spec fn view(&self) -> PlanView {
        PlanView {
            steps: self.steps@.map_values(|s: PlannedStep| s@),
            renderer: self.renderer@,
        }
    }
}

impl ShellPlan {
    /// There is a step for each result that the renderer reads.
    #[verifier::type_invariant]
    spec fn well_formed(self) -> bool {
        results_read(self.renderer) <= self.steps@.len()
    }

    /// The plan of these steps.
    pub(crate) fn new(steps: Vec<PlannedStep>, renderer: Renderer<String>) -> (r: ShellPlan)
        requires
            results_read(renderer) <= steps@.len(),
        ensures
            r@.steps == steps@.map_values(|s: PlannedStep| s@),
            r@.renderer == renderer@,
    {
        ShellPlan { steps, renderer }
    }

    /// The steps, in the order in which they are run.
    #[must_use]
    pub fn steps(&self) -> (r: &[PlannedStep])
        ensures
            r@.map_values(|s: PlannedStep| s@) == self@.steps,
    {
        self.steps.as_slice()
    }
}

impl Clone for ShellPlan {
    fn clone(&self) -> (r: ShellPlan)
        ensures
            r@ == self@,
    {
        let ghost views = self.steps@.map_values(|s: PlannedStep| s@);
        let mut steps: Vec<PlannedStep> = Vec::new();
        let mut i: usize = 0;
        while i < self.steps.len()
            invariant
                i <= self.steps@.len(),
                views == self.steps@.map_values(|s: PlannedStep| s@),
                steps@.map_values(|s: PlannedStep| s@) == views.take(i as int),
            decreases self.steps@.len() - i,
        {
            let step = self.steps[i].clone();
            proof {
                assert(steps@.push(step).map_values(|s: PlannedStep| s@) =~= steps@.map_values(
                    |s: PlannedStep| s@,
                ).push(step@));
                assert(views.take(i + 1) =~= views.take(i as int).push(step@));
            }
            steps.push(step);
            i += 1;
        }
        let renderer = self.renderer.clone();
        proof {
            use_type_invariant(self);
            assert(views.take(i as int) =~= views);
            assert(steps@.map_values(|s: PlannedStep| s@).len() == views.len());
        }
        ShellPlan { steps, renderer }
    }
}

/// Why results cannot be shown. `T` is the type of the texts that it holds.
#[derive(Debug)]
pub enum RenderError<T> {
    /// There are not as many results as steps.
    ResultCount { expected: usize, got: usize },
    /// The filter that the plan was made for is not known.
    MissingFilter { command: T },
}

impl View for RenderError<String> {
    type V = RenderError<Seq<char>>;

    open spec fn view(&self) -> RenderError<Seq<char>> {
        match *self {
            RenderError::ResultCount { expected, got } => RenderError::ResultCount {
                expected,
                got,
            },
            RenderError::MissingFilter { command } => RenderError::MissingFilter {
                command: command@,
            },
        }
    }
}

/// What the error says.
pub open spec fn error_message(e: RenderError<Seq<char>>) -> Seq<char> {
    match e {
        RenderError::ResultCount { expected, got } => "expected "@ + number::decimal(
            expected as nat,
        ) + " RTK step results, got "@ + number::decimal(got as nat),
        RenderError::MissingFilter { command } => "missing builtin TOML filter for command: "@
            + command,
    }
}

impl RenderError<String> {
    /// What the error says.
    pub fn message(&self) -> (r: String)
        ensures
            r@ == error_message(self@),
    {
        match self {
            RenderError::ResultCount { expected, got } => {
                let mut r = "expected ".to_owned();
                r.append(number::decimal_string(*expected as u64).as_str());
                r.append(" RTK step results, got ");
                r.append(number::decimal_string(*got as u64).as_str());
                r
            },
            RenderError::MissingFilter { command } => text::cat(
                "missing builtin TOML filter for command: ",
                command.as_str(),
            ),
        }
    }
}

/// What rendering gave.
pub open spec fn rendering(r: Result<String, RenderError<String>>) -> Result<
    Seq<char>,
    RenderError<Seq<char>>,
> {
    match r {
        Ok(s) => Ok(s@),
        Err(e) => Err(e@),
    }
}

/// How a comparison is shown: files without differences are identical.
pub open spec fn diff_shown(output: Seq<char>) -> Seq<char> {
    if text::trim(output).len() == 0 {
        "✅ Files are identical"@
    } else {
        diff_cmd::condensed(output)
    }
}

/// How the output of `cargo` is shown.
pub open spec fn cargo_shown(renderer: CargoRenderer, output: Seq<char>) -> Seq<char> {
    match renderer {
        CargoRenderer::Build => cargo_cmd::build_report(output),
        CargoRenderer::Test => cargo_cmd::test_report(output),
        CargoRenderer::Clippy => cargo_cmd::clippy_report(output),
        CargoRenderer::Install => cargo_cmd::install_report(output),
        CargoRenderer::Passthrough => text::trim(output),
    }
}

/// How the output of `ruff` is shown.
pub open spec fn ruff_shown(renderer: RuffRenderer, output: Seq<char>) -> Seq<char> {
    match renderer {
        RuffRenderer::Check => ruff_cmd::check_report(output),
        RuffRenderer::Format => ruff_cmd::format_report(output),
        RuffRenderer::Passthrough => text::trim(output),
    }
}

/// How the output of a command with a filter of its own is shown.
pub open spec fn toml_shown(command: Seq<char>, output: Seq<char>) -> Result<
    Seq<char>,
    RenderError<Seq<char>>,
> {
    match toml_filter::filter_for(command, toml_filter::builtin_filters()) {
        Some(f) => Ok(toml_filter::filtered(f, output)),
        None => Err(RenderError::MissingFilter { command }),
    }
}

/// What is shown of the results of a plan, one result for each step.
pub open spec fn shown(renderer: Renderer<Seq<char>>, results: Seq<ResultView>) -> Result<
    Seq<char>,
    RenderError<Seq<char>>,
> {
    let output = results[0].output;
    match renderer {
        Renderer::Cargo(cargo) => Ok(cargo_shown(cargo, output)),
        Renderer::Diff => Ok(diff_shown(output)),
        Renderer::Git(git) => Ok(git_rendering::git_shown(git, results)),
        Renderer::Grep { pattern, path, max_line_len, max_results, context_only } => Ok(
            grep_cmd::search_report(
                output,
                pattern,
                path,
                max_line_len as nat,
                max_results as nat,
                context_only,
                results[0].succeeded,
            ),
        ),
        Renderer::Ls { show_all } => Ok(ls::listing(output, show_all)),
        Renderer::Prettier => Ok(prettier_cmd::prettier_report(output)),
        Renderer::Pytest => Ok(pytest_cmd::pytest_report(output)),
        Renderer::Read { file_name_hint, level, max_lines, tail_lines, line_numbers } => Ok(
            read::file_report(output, file_name_hint, level, max_lines, tail_lines, line_numbers),
        ),
        Renderer::Ruff(ruff) => Ok(ruff_shown(ruff, output)),
        Renderer::TomlFilter { command } => toml_shown(command, output),
        Renderer::Tree => Ok(tree::tree_report(output)),
        Renderer::Tsc => Ok(tsc_cmd::tsc_report(output)),
    }
}

/// What is shown of the results of a plan. Results that are not as many as the steps
/// are not shown.
pub open spec fn rendered(plan: PlanView, results: Seq<ResultView>) -> Result<
    Seq<char>,
    RenderError<Seq<char>>,
> {
    if results.len() != plan.steps.len() {
        Err(
            RenderError::ResultCount {
                expected: plan.steps.len() as usize,
                got: results.len() as usize,
            },
        )
    } else {
        shown(plan.renderer, results)
    }
}

/// Whether the results can be shown at all: the output of a commit that succeeded is cut
/// where its hash is looked for, so that it must be possible to cut it there.
pub open spec fn can_render(plan: PlanView, results: Seq<ResultView>) -> bool {
    results.len() == plan.steps.len() && plan.renderer == Renderer::<Seq<char>>::Git(
        GitRenderer::Commit,
    ) && results[0].succeeded ==> git_rendering::commit_can_be_cut(results[0].output)
}

/// Show a comparison.
pub fn render_diff_output(output: &str) -> (r: String)
    ensures
        r@ == diff_shown(output@),
{
    if text::trimmed(output).as_str().is_empty() {
        "✅ Files are identical".to_owned()
    } else {
        diff_cmd::condense_unified_diff(output)
    }
}

impl ShellPlan {
    /// Whether the results can be shown at all.
    pub fn can_render(&self, results: &[StepResult<'_>]) -> (r: bool)
        ensures
            r == can_render(self@, result_views(results@)),
    {
        if results.len() != self.steps.len() {
            return true;
        }
        match &self.renderer {
            Renderer::Git(GitRenderer::Commit) => {
                proof {
                    use_type_invariant(self);
                    assert(result_views(results@)[0] == results@[0]@);
                }
                !results[0].succeeded || git_rendering::can_cut_commit(results[0].output)
            },
            _ => true,
        }
    }

    /// Show the results of the steps.
    pub fn render(&self, results: &[StepResult<'_>]) -> (r: Result<String, RenderError<String>>)
        requires
            can_render(self@, result_views(results@)),
        ensures
            rendering(r) == rendered(self@, result_views(results@)),
    {
        proof {
            use_type_invariant(self);
        }
        let ghost views = result_views(results@);
        if results.len() != self.steps.len() {
            return Err(
                RenderError::ResultCount { expected: self.steps.len(), got: results.len() },
            );
        }
        let first = results[0];
        assert(views[0] == first@);
        match &self.renderer {
            Renderer::Cargo(renderer) => Ok(
                match renderer {
                    CargoRenderer::Build => cargo_cmd::filter_cargo_build(first.output),
                    CargoRenderer::Test => cargo_cmd::filter_cargo_test(first.output),
                    CargoRenderer::Clippy => cargo_cmd::filter_cargo_clippy(first.output),
                    CargoRenderer::Install => cargo_cmd::filter_cargo_install(first.output),
                    CargoRenderer::Passthrough => text::trimmed(first.output),
                },
            ),
            Renderer::Diff => Ok(render_diff_output(first.output)),
            Renderer::Git(renderer) => Ok(git_rendering::render_git_output(renderer, results)),
            Renderer::Grep { pattern, path, max_line_len, max_results, context_only } => Ok(
                grep_cmd::render_grep_output(
                    first.output,
                    pattern.as_str(),
                    path.as_str(),
                    *max_line_len,
                    *max_results,
                    *context_only,
                    first.succeeded,
                ),
            ),
            Renderer::Ls { show_all } => Ok(ls::render_ls_output(first.output, *show_all)),
            Renderer::Prettier => Ok(prettier_cmd::filter_prettier_output(first.output)),
            Renderer::Pytest => Ok(pytest_cmd::filter_pytest_output(first.output)),
            Renderer::Read { file_name_hint, level, max_lines, tail_lines, line_numbers } => {
                let hint = match file_name_hint {
                    Some(name) => Some(name.as_str()),
                    None => None,
                };
                Ok(
                    read::render_read_output(
                        first.output,
                        hint,
                        *level,
                        *max_lines,
                        *tail_lines,
                        *line_numbers,
                    ),
                )
            },
            Renderer::Ruff(renderer) => Ok(
                match renderer {
                    RuffRenderer::Check => ruff_cmd::filter_ruff_check_json(first.output),
                    RuffRenderer::Format => ruff_cmd::filter_ruff_format(first.output),
                    RuffRenderer::Passthrough => text::trimmed(first.output),
                },
            ),
            Renderer::TomlFilter { command } => {
                let known = planning::builtin_toml_registry();
                match toml_filter::find_filter_in(command.as_str(), known.filters.as_slice()) {
                    Some(filter) => Ok(toml_filter::apply_filter(filter, first.output)),
                    None => Err(RenderError::MissingFilter { command: command.clone() }),
                }
            },
            Renderer::Tree => Ok(tree::filter_tree_output(first.output)),
            Renderer::Tsc => Ok(tsc_cmd::filter_tsc_output(first.output)),
        }
    }
}

/// The plan that planning gave, if it gave one.
pub open spec fn ok_plan(r: planning::Outcome) -> Option<PlanView> {
    match r {
        Ok(plan) => Some(plan),
        Err(_) => None,
    }
}

/// The plan of a command that was rewritten into an `rtk` command: the second word of
/// that command decides who reads the command that was there.
pub open spec fn plan_of(
    raw: Seq<char>,
    actual: Seq<char>,
    rewritten: Seq<Seq<char>>,
) -> Option<PlanView> {
    let tokens = shell_words::tokens(actual);
    if rewritten.len() == 0 || rewritten[0] != "rtk"@ {
        None
    } else if rewritten.len() == 1 {
        planning::toml_plan(raw, actual)
    } else if rewritten[1] == "cargo"@ {
        ok_plan(planning::cargo_plan(raw, tokens))
    } else if rewritten[1] == "diff"@ {
        ok_plan(planning::diff_plan(raw, tokens))
    } else if rewritten[1] == "git"@ {
        ok_plan(git_planning::git_plan(raw, tokens))
    } else if rewritten[1] == "grep"@ {
        ok_plan(planning::grep_plan(tokens))
    } else if rewritten[1] == "ls"@ {
        Some(
            planning::ls_plan(
                raw,
                if tokens.len() > 0 {
                    tokens.skip(1)
                } else {
                    seq![]
                },
            ),
        )
    } else if rewritten[1] == "prettier"@ {
        Some(planning::passthrough(raw, Renderer::Prettier))
    } else if rewritten[1] == "pytest"@ {
        Some(planning::passthrough(raw, Renderer::Pytest))
    } else if rewritten[1] == "read"@ {
        ok_plan(planning::read_plan(raw, rewritten))
    } else if rewritten[1] == "ruff"@ {
        ok_plan(planning::ruff_plan(raw, tokens))
    } else if rewritten[1] == "tree"@ {
        Some(planning::passthrough(raw, Renderer::Tree))
    } else if rewritten[1] == "tsc"@ {
        Some(planning::passthrough(raw, Renderer::Tsc))
    } else {
        planning::toml_plan(raw, actual)
    }
}

/// The plan of a command: none where the command is not rewritten, or where the tool
/// does not read it.
pub open spec fn planned(raw: Seq<char>, excluded: Seq<Seq<char>>) -> Option<PlanView> {
    match registry::rewritten(raw, excluded) {
        Some(r) => plan_of(raw, registry::actual_command(raw), shell_words::tokens(r)),
        None => None,
    }
}

/// What an optional plan holds.
pub open spec fn opt_plan_view(r: Option<ShellPlan>) -> Option<PlanView> {
    match r {
        Some(plan) => Some(plan@),
        None => None,
    }
}

/// The plan, if there is one.
fn keep_plan(r: Result<ShellPlan, planning::PlanError<String>>) -> (p: Option<ShellPlan>)
    ensures
        opt_plan_view(p) == ok_plan(planning::outcome(r)),
{
    match r {
        Ok(plan) => Some(plan),
        Err(_) => None,
    }
}

/// Plan a command that was rewritten into an `rtk` command with these words.
pub fn plan_rewritten(raw_command: &str, actual_command: &str, rewritten_tokens: &[String]) -> (r:
    Option<ShellPlan>)
    ensures
        opt_plan_view(r) == plan_of(
            raw_command@,
            actual_command@,
            text::views(rewritten_tokens@),
        ),
{
    let raw_tokens = shell_words::split(actual_command);
    if rewritten_tokens.len() == 0 || !text::same(rewritten_tokens[0].as_str(), "rtk") {
        return None;
    }
    if rewritten_tokens.len() == 1 {
        return planning::plan_toml_filter(raw_command, actual_command);
    }
    let tool = rewritten_tokens[1].as_str();
    if text::same(tool, "cargo") {
        keep_plan(planning::plan_cargo_from_raw(raw_command, raw_tokens.as_slice()))
    } else if text::same(tool, "diff") {
        keep_plan(planning::plan_diff_from_raw(raw_command, raw_tokens.as_slice()))
    } else if text::same(tool, "git") {
        keep_plan(git_planning::plan_git_from_raw(raw_command, raw_tokens.as_slice()))
    } else if text::same(tool, "grep") {
        keep_plan(planning::plan_grep_from_raw(raw_tokens.as_slice()))
    } else if text::same(tool, "ls") {
        let from: usize = if raw_tokens.len() > 0 {
            1
        } else {
            0
        };
        let args = vstd::slice::slice_subrange(raw_tokens.as_slice(), from, raw_tokens.len());
        assert(text::views(args@) =~= text::views(raw_tokens@).skip(from as int));
        assert(from == 0 ==> text::views(args@) =~= Seq::<Seq<char>>::empty());
        keep_plan(planning::plan_ls(raw_command, args))
    } else if text::same(tool, "prettier") {
        Some(planning::plan_passthrough(raw_command, Renderer::Prettier))
    } else if text::same(tool, "pytest") {
        Some(planning::plan_passthrough(raw_command, Renderer::Pytest))
    } else if text::same(tool, "read") {
        keep_plan(planning::plan_read_from_rewritten(raw_command, rewritten_tokens))
    } else if text::same(tool, "ruff") {
        keep_plan(planning::plan_ruff_from_raw(raw_command, raw_tokens.as_slice()))
    } else if text::same(tool, "tree") {
        Some(planning::plan_passthrough(raw_command, Renderer::Tree))
    } else if text::same(tool, "tsc") {
        Some(planning::plan_passthrough(raw_command, Renderer::Tsc))
    } else {
        planning::plan_toml_filter(raw_command, actual_command)
    }
}

/// Plan a command, unless its first word is excluded.
#[must_use]
pub fn plan(raw_command: &str, excluded_commands: &[String]) -> (r: Option<ShellPlan>)
    ensures
        opt_plan_view(r) == planned(raw_command@, text::views(excluded_commands@)),
{
    match registry::rewrite_command(raw_command, excluded_commands) {
        Some(rewritten) => {
            let rewritten_tokens = shell_words::split(rewritten.as_str());
            let actual_command = registry::strip_disabled_prefix(raw_command);
            plan_rewritten(raw_command, actual_command.as_str(), rewritten_tokens.as_slice())
        },
        None => None,
    }
}

} // verus!
