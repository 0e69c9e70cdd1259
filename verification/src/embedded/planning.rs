//! Which steps a command becomes, for every tool but `git`.
use vstd::prelude::*;
use crate::discover::registry;
use crate::embedded::{CargoRenderer, PlannedStep, Renderer, RuffRenderer, ShellPlan};
use crate::embedded::PlanView;
use crate::filter;
use crate::filter::FilterLevel;
use crate::grep_cmd;
use crate::ls;
use crate::number;
use crate::text;
use crate::toml_filter;
use crate::toml_filter::TomlFilterRegistry;

verus! {

/// The tools whose own command line is read again.
#[derive(Debug, Clone, Copy, PartialEq, Eq, Structural)]
pub enum Tool {
    Cargo,
    Git,
    Grep,
    Ruff,
}

/// Why a command has no plan. `T` is the type of the texts that it holds.
#[derive(Debug)]
pub enum PlanError<T> {
    /// The command line has no words.
    MissingCommand(Tool),
    /// The first word is not the tool.
    OtherCommand(Tool),
    /// Nothing follows the tool.
    MissingSubcommand(Tool),
    /// What follows the tool has no renderer.
    UnsupportedSubcommand(Tool, T),
    /// The comparison is not one of two files.
    UnsupportedDiff,
    /// The search has no pattern.
    MissingPattern,
    /// There is no file to show.
    MissingFile,
    /// An option has no value.
    MissingLevel,
    MissingMaxLines,
    MissingTailLines,
    /// An option has a value that it cannot have.
    UnknownLevel(T),
    InvalidMaxLines(T),
    InvalidTailLines(T),
}

impl View for PlanError<String> {
    type V = PlanError<Seq<char>>;

    open spec fn view(&self) -> PlanError<Seq<char>> {
        match *self {
            PlanError::MissingCommand(tool) => PlanError::MissingCommand(tool),
            PlanError::OtherCommand(tool) => PlanError::OtherCommand(tool),
            PlanError::MissingSubcommand(tool) => PlanError::MissingSubcommand(tool),
            PlanError::UnsupportedSubcommand(tool, s) => PlanError::UnsupportedSubcommand(
                tool,
                s@,
            ),
            PlanError::UnsupportedDiff => PlanError::UnsupportedDiff,
            PlanError::MissingPattern => PlanError::MissingPattern,
            PlanError::MissingFile => PlanError::MissingFile,
            PlanError::MissingLevel => PlanError::MissingLevel,
            PlanError::MissingMaxLines => PlanError::MissingMaxLines,
            PlanError::MissingTailLines => PlanError::MissingTailLines,
            PlanError::UnknownLevel(s) => PlanError::UnknownLevel(s@),
            PlanError::InvalidMaxLines(s) => PlanError::InvalidMaxLines(s@),
            PlanError::InvalidTailLines(s) => PlanError::InvalidTailLines(s@),
        }
    }
}

/// A plan, or why there is none.
pub type Outcome = Result<PlanView, PlanError<Seq<char>>>;

/// What planning gave.
pub open spec fn outcome(r: Result<ShellPlan, PlanError<String>>) -> Outcome {
    match r {
        Ok(plan) => Ok(plan@),
        Err(e) => Err(e@),
    }
}

/// `command` behind whatever stands before the command in `raw`.
pub open spec fn with_env(raw: Seq<char>, command: Seq<char>) -> Seq<char> {
    let prefix = registry::env_prefix(raw);
    if prefix.len() == 0 {
        command
    } else {
        prefix + " "@ + command
    }
}

/// The plan that runs `raw` as it is.
pub open spec fn passthrough(raw: Seq<char>, renderer: Renderer<Seq<char>>) -> PlanView {
    PlanView { steps: seq![text::trim(raw)], renderer }
}

/// Whether `w` looks like an option.
pub open spec fn is_dashed(w: Seq<char>) -> bool {
    w.len() > 0 && w[0] == '-'
}

/// Whether an argument of `ls` asks for everything.
pub open spec fn asks_for_all(arg: Seq<char>) -> bool {
    (is_dashed(arg) && !"--"@.is_prefix_of(arg) && arg.contains('a')) || arg == "--all"@
}

/// The plan of a listing.
pub open spec fn ls_plan(raw: Seq<char>, args: Seq<Seq<char>>) -> PlanView {
    PlanView {
        steps: seq![with_env(raw, crate::shell_words::command_line(ls::ls_words(args)))],
        renderer: Renderer::Ls {
            show_all: exists|i: int| 0 <= i < args.len() && asks_for_all(#[trigger] args[i]),
        },
    }
}

/// The renderer for a subcommand of `cargo`.
pub open spec fn cargo_renderer(subcommand: Seq<char>) -> Option<CargoRenderer> {
    if subcommand == "build"@ || subcommand == "check"@ {
        Some(CargoRenderer::Build)
    } else if subcommand == "test"@ {
        Some(CargoRenderer::Test)
    } else if subcommand == "clippy"@ {
        Some(CargoRenderer::Clippy)
    } else if subcommand == "install"@ {
        Some(CargoRenderer::Install)
    } else if subcommand == "fmt"@ {
        Some(CargoRenderer::Passthrough)
    } else {
        None
    }
}

/// The plan of a `cargo` command.
pub open spec fn cargo_plan(raw: Seq<char>, tokens: Seq<Seq<char>>) -> Outcome {
    if tokens.len() == 0 {
        Err(PlanError::MissingCommand(Tool::Cargo))
    } else if tokens[0] != "cargo"@ {
        Err(PlanError::OtherCommand(Tool::Cargo))
    } else if tokens.len() == 1 {
        Err(PlanError::MissingSubcommand(Tool::Cargo))
    } else {
        match cargo_renderer(tokens[1]) {
            Some(r) => Ok(passthrough(raw, Renderer::Cargo(r))),
            None => Err(PlanError::UnsupportedSubcommand(Tool::Cargo, tokens[1])),
        }
    }
}

/// How a file is to be shown.
pub struct ReadOptions {
    pub level: FilterLevel,
    pub max_lines: Option<usize>,
    pub tail_lines: Option<usize>,
    pub line_numbers: bool,
}

/// How a file is shown unless told otherwise.
pub open spec fn default_options() -> ReadOptions {
    ReadOptions {
        level: FilterLevel::Minimal,
        max_lines: None,
        tail_lines: None,
        line_numbers: false,
    }
}

/// The number of lines that a value stands for.
pub open spec fn line_number(value: Seq<char>) -> Option<usize> {
    match number::parse_unsigned(value, usize::MAX as nat) {
        Some(n) => Some(n as usize),
        None => None,
    }
}

/// What the options in `tokens` make of `options`. The last of two equal options
/// counts; what is no option is passed over.
pub open spec fn read_options(tokens: Seq<Seq<char>>, options: ReadOptions) -> Result<
    ReadOptions,
    PlanError<Seq<char>>,
>
    decreases tokens.len(),
{
    if tokens.len() == 0 {
        Ok(options)
    } else if tokens[0] == "--level"@ || tokens[0] == "-l"@ {
        if tokens.len() == 1 {
            Err(PlanError::MissingLevel)
        } else {
            match filter::level_named(tokens[1]) {
                Some(level) => read_options(tokens.skip(2), ReadOptions { level, ..options }),
                None => Err(PlanError::UnknownLevel(tokens[1])),
            }
        }
    } else if tokens[0] == "--max-lines"@ || tokens[0] == "-m"@ {
        if tokens.len() == 1 {
            Err(PlanError::MissingMaxLines)
        } else {
            match line_number(tokens[1]) {
                Some(n) => read_options(
                    tokens.skip(2),
                    ReadOptions { max_lines: Some(n), ..options },
                ),
                None => Err(PlanError::InvalidMaxLines(tokens[1])),
            }
        }
    } else if tokens[0] == "--tail-lines"@ {
        if tokens.len() == 1 {
            Err(PlanError::MissingTailLines)
        } else {
            match line_number(tokens[1]) {
                Some(n) => read_options(
                    tokens.skip(2),
                    ReadOptions { tail_lines: Some(n), ..options },
                ),
                None => Err(PlanError::InvalidTailLines(tokens[1])),
            }
        }
    } else if tokens[0] == "--line-numbers"@ || tokens[0] == "-n"@ {
        read_options(tokens.skip(1), ReadOptions { line_numbers: true, ..options })
    } else {
        read_options(tokens.skip(1), options)
    }
}

/// The plan of a command that was rewritten to show a file: `rtk read FILE OPTIONS`.
pub open spec fn read_plan(raw: Seq<char>, rewritten: Seq<Seq<char>>) -> Outcome {
    if rewritten.len() < 3 {
        Err(PlanError::MissingFile)
    } else {
        match read_options(rewritten.skip(3), default_options()) {
            Ok(o) => Ok(
                passthrough(
                    raw,
                    Renderer::Read {
                        file_name_hint: Some(rewritten[2]),
                        level: o.level,
                        max_lines: o.max_lines,
                        tail_lines: o.tail_lines,
                        line_numbers: o.line_numbers,
                    },
                ),
            ),
            Err(e) => Err(e),
        }
    }
}

/// The plan of a comparison of two files.
pub open spec fn diff_plan(raw: Seq<char>, tokens: Seq<Seq<char>>) -> Outcome {
    if tokens.len() != 3 || tokens[0] != "diff"@ {
        Err(PlanError::UnsupportedDiff)
    } else {
        Ok(
            PlanView {
                steps: seq![with_env(raw, "diff -u "@ + tokens[1] + " "@ + tokens[2])],
                renderer: Renderer::Diff,
            },
        )
    }
}

/// The words that are no options.
pub open spec fn undashed() -> spec_fn(Seq<char>) -> bool {
    |w: Seq<char>| !is_dashed(w)
}

/// The plan of a search. The first word that is no option is the pattern, the word
/// behind it the path; all others are handed on.
pub open spec fn grep_plan(tokens: Seq<Seq<char>>) -> Outcome {
    let tail = tokens.skip(1);
    let k = text::index_where(tail, undashed());
    if tokens.len() == 0 {
        Err(PlanError::MissingCommand(Tool::Grep))
    } else if tokens[0] != "grep"@ && tokens[0] != "rg"@ {
        Err(PlanError::OtherCommand(Tool::Grep))
    } else if k >= tail.len() {
        Err(PlanError::MissingPattern)
    } else {
        let pattern = tail[k];
        let path = if k + 1 < tail.len() {
            tail[k + 1]
        } else {
            "."@
        };
        let behind = if k + 2 < tail.len() {
            tail.skip(k + 2)
        } else {
            seq![]
        };
        Ok(
            PlanView {
                steps: seq![
                    grep_cmd::search_command(pattern, path, None, tail.take(k) + behind),
                ],
                renderer: Renderer::Grep {
                    pattern,
                    path,
                    max_line_len: 80,
                    max_results: 50,
                    context_only: false,
                },
            },
        )
    }
}

/// Whether the arguments of `ruff` run the linter: without a subcommand it is the
/// linter that runs.
pub open spec fn runs_check(args: Seq<Seq<char>>) -> bool {
    args.len() == 0 || args[0] == "check"@ || (!is_dashed(args[0]) && args[0] != "format"@
        && args[0] != "version"@)
}

/// Whether an argument sets the format of the linter's output.
pub open spec fn sets_output_format(arg: Seq<char>) -> bool {
    arg == "--output-format"@ || "--output-format="@.is_prefix_of(arg)
}

/// Each of the words behind a space.
pub open spec fn spaced(list: Seq<Seq<char>>) -> Seq<char>
    decreases list.len(),
{
    if list.len() == 0 {
        seq![]
    } else {
        spaced(list.drop_last()).push(' ') + list.last()
    }
}

/// Whether an argument of the linter names no path.
pub open spec fn names_no_path(arg: Seq<char>) -> bool {
    is_dashed(arg) || arg.contains('=')
}

/// Whether one of the arguments sets the format of the linter's output.
pub open spec fn has_output_format(args: Seq<Seq<char>>) -> bool {
    exists|i: int| 0 <= i < args.len() && sets_output_format(#[trigger] args[i])
}

/// Whether none of the arguments of the linter names a path.
pub open spec fn name_no_path(args: Seq<Seq<char>>) -> bool {
    forall|i: int| 0 <= i < args.len() ==> names_no_path(#[trigger] args[i])
}

/// The arguments of the linter, without the subcommand that runs it.
pub open spec fn check_args(args: Seq<Seq<char>>) -> Seq<Seq<char>> {
    if args.len() > 0 && args[0] == "check"@ {
        args.skip(1)
    } else {
        args
    }
}

/// The linter's command: JSON unless another format is asked for, and the current
/// directory unless a path is named.
pub open spec fn check_command(args: Seq<Seq<char>>) -> Seq<char> {
    "ruff"@ + (if has_output_format(args) {
        " check"@
    } else {
        " check --output-format=json"@
    }) + spaced(check_args(args)) + (if name_no_path(check_args(args)) {
        " ."@
    } else {
        seq![]
    })
}

/// The plan of a `ruff` command.
pub open spec fn ruff_plan(raw: Seq<char>, tokens: Seq<Seq<char>>) -> Outcome {
    let args = tokens.skip(1);
    if tokens.len() == 0 {
        Err(PlanError::MissingCommand(Tool::Ruff))
    } else if tokens[0] != "ruff"@ {
        Err(PlanError::OtherCommand(Tool::Ruff))
    } else if runs_check(args) {
        Ok(
            PlanView {
                steps: seq![with_env(raw, check_command(args))],
                renderer: Renderer::Ruff(RuffRenderer::Check),
            },
        )
    } else if args.contains("format"@) {
        Ok(passthrough(raw, Renderer::Ruff(RuffRenderer::Format)))
    } else {
        Ok(passthrough(raw, Renderer::Ruff(RuffRenderer::Passthrough)))
    }
}

/// The plan of a command that has a filter of its own.
pub open spec fn toml_plan(raw: Seq<char>, actual: Seq<char>) -> Option<PlanView> {
    if toml_filter::filter_for(actual, toml_filter::builtin_filters()) is Some {
        Some(passthrough(raw, Renderer::TomlFilter { command: actual }))
    } else {
        None
    }
}

/// The plan of one step.
pub fn single(command: String, renderer: Renderer<String>) -> (r: ShellPlan)
    requires
        crate::embedded::results_read(renderer) <= 1,
    ensures
        r@ == (PlanView { steps: seq![command@], renderer: renderer@ }),
{
    let mut steps: Vec<PlannedStep> = Vec::new();
    steps.push(PlannedStep::new(command));
    assert(steps@.map_values(|s: PlannedStep| s@) =~= seq![command@]);
    ShellPlan::new(steps, renderer)
}

/// Put `command` behind whatever stands before the command in `raw_command`.
pub fn with_env_prefix(raw_command: &str, command: &str) -> (r: String)
    ensures
        r@ == with_env(raw_command@, command@),
{
    let prefix = registry::leading_env(raw_command);
    if prefix.as_str().is_empty() {
        command.to_owned()
    } else {
        let front = text::cat(prefix.as_str(), " ");
        text::cat(front.as_str(), command)
    }
}

/// Plan to run `raw_command` as it is.
pub fn plan_passthrough(raw_command: &str, renderer: Renderer<String>) -> (r: ShellPlan)
    requires
        crate::embedded::results_read(renderer) <= 1,
    ensures
        r@ == passthrough(raw_command@, renderer@),
{
    single(text::trimmed(raw_command), renderer)
}

/// Whether `w` looks like an option.
pub fn dashed(w: &str) -> (r: bool)
    ensures
        r == is_dashed(w@),
{
    let cs = text::chars_of(w);
    cs.len() > 0 && cs[0] == '-'
}

/// Plan a listing.
pub fn plan_ls(raw_command: &str, args: &[String]) -> (r: Result<ShellPlan, PlanError<String>>)
    ensures
        outcome(r) == Ok::<PlanView, PlanError<Seq<char>>>(
            ls_plan(raw_command@, text::views(args@)),
        ),
{
    let ghost all = text::views(args@);
    let mut show_all = false;
    let mut i: usize = 0;
    while i < args.len()
        invariant
            i <= args@.len(),
            all == text::views(args@),
            show_all == exists|j: int| 0 <= j < i && asks_for_all(#[trigger] all[j]),
        decreases args@.len() - i,
    {
        let arg = args[i].as_str();
        assert(all[i as int] == arg@);
        if (dashed(arg) && !text::starts_with(arg, "--") && text::has_char(arg, 'a'))
            || text::same(arg, "--all") {
            show_all = true;
        }
        i += 1;
    }
    let listing = ls::build_ls_command(args);
    let command = with_env_prefix(raw_command, listing.as_str());
    Ok(single(command, Renderer::Ls { show_all }))
}

/// Plan a `cargo` command.
pub fn plan_cargo_from_raw(raw_command: &str, raw_tokens: &[String]) -> (r: Result<
    ShellPlan,
    PlanError<String>,
>)
    ensures
        outcome(r) == cargo_plan(raw_command@, text::views(raw_tokens@)),
{
    if raw_tokens.len() == 0 {
        return Err(PlanError::MissingCommand(Tool::Cargo));
    }
    if !text::same(raw_tokens[0].as_str(), "cargo") {
        return Err(PlanError::OtherCommand(Tool::Cargo));
    }
    if raw_tokens.len() == 1 {
        return Err(PlanError::MissingSubcommand(Tool::Cargo));
    }
    let subcommand = raw_tokens[1].as_str();
    let renderer = if text::same(subcommand, "build") || text::same(subcommand, "check") {
        CargoRenderer::Build
    } else if text::same(subcommand, "test") {
        CargoRenderer::Test
    } else if text::same(subcommand, "clippy") {
        CargoRenderer::Clippy
    } else if text::same(subcommand, "install") {
        CargoRenderer::Install
    } else if text::same(subcommand, "fmt") {
        CargoRenderer::Passthrough
    } else {
        return Err(PlanError::UnsupportedSubcommand(Tool::Cargo, raw_tokens[1].clone()));
    };
    Ok(plan_passthrough(raw_command, Renderer::Cargo(renderer)))
}

/// The number of lines that a value stands for.
fn read_line_number(value: &str) -> (r: Option<usize>)
    ensures
        r == line_number(value@),
{
    number::parse_usize(value)
}

/// Plan a command that was rewritten to show a file.
pub fn plan_read_from_rewritten(raw_command: &str, rewritten_tokens: &[String]) -> (r: Result<
    ShellPlan,
    PlanError<String>,
>)
    ensures
        outcome(r) == read_plan(raw_command@, text::views(rewritten_tokens@)),
{
    let ghost all = text::views(rewritten_tokens@);
    if rewritten_tokens.len() < 3 {
        return Err(PlanError::MissingFile);
    }
    let mut level = FilterLevel::Minimal;
    let mut max_lines: Option<usize> = None;
    let mut tail_lines: Option<usize> = None;
    let mut line_numbers = false;
    let mut index: usize = 3;
    while index < rewritten_tokens.len()
        invariant
            3 <= index <= rewritten_tokens@.len(),
            all == text::views(rewritten_tokens@),
            read_options(all.skip(3), default_options()) == read_options(
                all.skip(index as int),
                ReadOptions { level, max_lines, tail_lines, line_numbers },
            ),
        decreases rewritten_tokens@.len() - index,
    {
        let token = rewritten_tokens[index].as_str();
        let ghost rest = all.skip(index as int);
        proof {
            assert(rest[0] == token@);
            assert(rest.skip(1) =~= all.skip(index + 1));
            if rest.len() > 1 {
                assert(rest[1] == rewritten_tokens@[index + 1]@);
                assert(rest.skip(2) =~= all.skip(index + 2));
            }
        }
        if text::same(token, "--level") || text::same(token, "-l") {
            if rewritten_tokens.len() - index == 1 {
                return Err(PlanError::MissingLevel);
            }
            match FilterLevel::named(rewritten_tokens[index + 1].as_str()) {
                Some(named) => {
                    level = named;
                },
                None => {
                    return Err(PlanError::UnknownLevel(rewritten_tokens[index + 1].clone()));
                },
            }
            index += 2;
        } else if text::same(token, "--max-lines") || text::same(token, "-m") {
            if rewritten_tokens.len() - index == 1 {
                return Err(PlanError::MissingMaxLines);
            }
            match read_line_number(rewritten_tokens[index + 1].as_str()) {
                Some(n) => {
                    max_lines = Some(n);
                },
                None => {
                    return Err(PlanError::InvalidMaxLines(rewritten_tokens[index + 1].clone()));
                },
            }
            index += 2;
        } else if text::same(token, "--tail-lines") {
            if rewritten_tokens.len() - index == 1 {
                return Err(PlanError::MissingTailLines);
            }
            match read_line_number(rewritten_tokens[index + 1].as_str()) {
                Some(n) => {
                    tail_lines = Some(n);
                },
                None => {
                    return Err(PlanError::InvalidTailLines(rewritten_tokens[index + 1].clone()));
                },
            }
            index += 2;
        } else if text::same(token, "--line-numbers") || text::same(token, "-n") {
            line_numbers = true;
            index += 1;
        } else {
            index += 1;
        }
    }
    let file_name_hint = Some(rewritten_tokens[2].clone());
    Ok(
        plan_passthrough(
            raw_command,
            Renderer::Read { file_name_hint, level, max_lines, tail_lines, line_numbers },
        ),
    )
}

/// Plan a comparison of two files.
pub fn plan_diff_from_raw(raw_command: &str, raw_tokens: &[String]) -> (r: Result<
    ShellPlan,
    PlanError<String>,
>)
    ensures
        outcome(r) == diff_plan(raw_command@, text::views(raw_tokens@)),
{
    if raw_tokens.len() != 3 || !text::same(raw_tokens[0].as_str(), "diff") {
        return Err(PlanError::UnsupportedDiff);
    }
    let mut comparison = "diff -u ".to_owned();
    comparison.append(raw_tokens[1].as_str());
    comparison.append(" ");
    comparison.append(raw_tokens[2].as_str());
    let command = with_env_prefix(raw_command, comparison.as_str());
    Ok(single(command, Renderer::Diff))
}

/// Plan a search.
pub fn plan_grep_from_raw(raw_tokens: &[String]) -> (r: Result<ShellPlan, PlanError<String>>)
    ensures
        outcome(r) == grep_plan(text::views(raw_tokens@)),
{
    let ghost all = text::views(raw_tokens@);
    let ghost tail = all.skip(1);
    if raw_tokens.len() == 0 {
        return Err(PlanError::MissingCommand(Tool::Grep));
    }
    if !text::same(raw_tokens[0].as_str(), "grep") && !text::same(raw_tokens[0].as_str(), "rg") {
        return Err(PlanError::OtherCommand(Tool::Grep));
    }
    let mut index: usize = 1;
    while index < raw_tokens.len() && dashed(raw_tokens[index].as_str())
        invariant
            1 <= index <= raw_tokens@.len(),
            all == text::views(raw_tokens@),
            tail == all.skip(1),
            forall|j: int| 0 <= j < index - 1 ==> !undashed()(#[trigger] tail[j]),
        decreases raw_tokens@.len() - index,
    {
        assert(tail[index - 1] == raw_tokens@[index as int]@);
        index += 1;
    }
    proof {
        if index < raw_tokens@.len() {
            assert(tail[index - 1] == raw_tokens@[index as int]@);
        }
        text::lemma_index_where(tail, undashed(), index - 1);
    }
    if index == raw_tokens.len() {
        return Err(PlanError::MissingPattern);
    }
    let pattern = raw_tokens[index].clone();
    let mut extra_args = crate::compact::copied(raw_tokens, 1, index);
    let path = if raw_tokens.len() - index > 1 {
        raw_tokens[index + 1].clone()
    } else {
        ".".to_owned()
    };
    let ghost front = text::views(extra_args@);
    assert(front =~= tail.take(index - 1));
    if raw_tokens.len() - index > 2 {
        let mut behind = crate::compact::copied(raw_tokens, index + 2, raw_tokens.len());
        let ghost back = text::views(behind@);
        assert(back =~= tail.skip(index + 1));
        extra_args.append(&mut behind);
        assert(text::views(extra_args@) =~= front + back);
    } else {
        assert(text::views(extra_args@) =~= tail.take(index - 1) + Seq::<Seq<char>>::empty());
    }
    let command = grep_cmd::build_grep_command(
        pattern.as_str(),
        path.as_str(),
        None,
        extra_args.as_slice(),
    );
    Ok(
        single(
            command,
            Renderer::Grep {
                pattern,
                path,
                max_line_len: 80,
                max_results: 50,
                context_only: false,
            },
        ),
    )
}

/// Whether an argument sets the format of the linter's output.
fn output_format_set(args: &[String]) -> (r: bool)
    ensures
        r == has_output_format(text::views(args@)),
{
    let ghost all = text::views(args@);
    let mut i: usize = 0;
    while i < args.len()
        invariant
            i <= args@.len(),
            all == text::views(args@),
            forall|j: int| 0 <= j < i ==> !sets_output_format(#[trigger] all[j]),
        decreases args@.len() - i,
    {
        assert(all[i as int] == args@[i as int]@);
        if text::same(args[i].as_str(), "--output-format") || text::starts_with(
            args[i].as_str(),
            "--output-format=",
        ) {
            return true;
        }
        i += 1;
    }
    false
}

/// Write the linter's command.
pub fn build_check_command(args: &[String]) -> (r: String)
    ensures
        r@ == check_command(text::views(args@)),
{
    let ghost all = text::views(args@);
    let mut command = "ruff".to_owned();
    if output_format_set(args) {
        command.append(" check");
    } else {
        command.append(" check --output-format=json");
    }
    let start: usize = if args.len() > 0 && text::same(args[0].as_str(), "check") {
        1
    } else {
        0
    };
    let ghost rest = check_args(all);
    let ghost head = command@;
    let mut no_path = true;
    let mut i: usize = start;
    proof {
        assert(all.skip(0) =~= all);
        assert(rest.take(0) =~= Seq::<Seq<char>>::empty());
        assert(head + spaced(rest.take(0)) =~= head);
    }
    while i < args.len()
        invariant
            start <= i <= args@.len(),
            all == text::views(args@),
            rest == all.skip(start as int),
            command@ == head + spaced(rest.take(i - start)),
            no_path == forall|j: int| 0 <= j < i - start ==> names_no_path(#[trigger] rest[j]),
        decreases args@.len() - i,
    {
        let arg = args[i].as_str();
        proof {
            assert(rest[i - start] == arg@);
            assert(rest.take(i - start + 1).drop_last() =~= rest.take(i - start));
            assert((head + spaced(rest.take(i - start))).push(' ') + arg@ =~= head + (spaced(
                rest.take(i - start),
            ).push(' ') + arg@));
        }
        command.push(' ');
        command.append(arg);
        if !(dashed(arg) || text::has_char(arg, '=')) {
            no_path = false;
        }
        i += 1;
    }
    assert(rest.take(i - start) =~= rest);
    if no_path {
        command.append(" .");
    } else {
        assert(command@ + Seq::<char>::empty() =~= command@);
    }
    command
}

/// Plan a `ruff` command.
pub fn plan_ruff_from_raw(raw_command: &str, raw_tokens: &[String]) -> (r: Result<
    ShellPlan,
    PlanError<String>,
>)
    ensures
        outcome(r) == ruff_plan(raw_command@, text::views(raw_tokens@)),
{
    if raw_tokens.len() == 0 {
        return Err(PlanError::MissingCommand(Tool::Ruff));
    }
    if !text::same(raw_tokens[0].as_str(), "ruff") {
        return Err(PlanError::OtherCommand(Tool::Ruff));
    }
    let args = vstd::slice::slice_subrange(raw_tokens, 1, raw_tokens.len());
    assert(text::views(args@) =~= text::views(raw_tokens@).skip(1));
    let is_check = args.len() == 0 || text::same(args[0].as_str(), "check") || (!dashed(
        args[0].as_str(),
    ) && !text::same(args[0].as_str(), "format") && !text::same(args[0].as_str(), "version"));
    if is_check {
        let check = build_check_command(args);
        let command = with_env_prefix(raw_command, check.as_str());
        return Ok(single(command, Renderer::Ruff(RuffRenderer::Check)));
    }
    if text::listed(args, "format") {
        return Ok(plan_passthrough(raw_command, Renderer::Ruff(RuffRenderer::Format)));
    }
    Ok(plan_passthrough(raw_command, Renderer::Ruff(RuffRenderer::Passthrough)))
}

/// The filters that come with the library.
pub fn builtin_toml_registry() -> (r: TomlFilterRegistry)
    ensures
        toml_filter::filter_views(r.filters@) == toml_filter::builtin_filters(),
{
    TomlFilterRegistry::builtin()
}

/// Plan a command that has a filter of its own.
pub fn plan_toml_filter(raw_command: &str, actual_command: &str) -> (r: Option<ShellPlan>)
    ensures
        crate::embedded::opt_plan_view(r) == toml_plan(raw_command@, actual_command@),
{
    let known = builtin_toml_registry();
    match toml_filter::find_filter_in(actual_command, known.filters.as_slice()) {
        Some(_) => Some(
            plan_passthrough(
                raw_command,
                Renderer::TomlFilter { command: actual_command.to_owned() },
            ),
        ),
        None => None,
    }
}

} // verus!
