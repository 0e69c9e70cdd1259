//! Which tool a command belongs to, and which way of showing belongs to a tool.
use vstd::prelude::*;
use crate::cargo_cmd;
use crate::diff_cmd;
use crate::discover::registry;
use crate::embedded::{CargoRenderer, PlanView, Renderer, RenderError, ResultView, RuffRenderer};
use crate::embedded::{git_planning, git_rendering, planning};
use crate::embedded;
use crate::grep_cmd;
use crate::ls;
use crate::number;
use crate::prettier_cmd;
use crate::pytest_cmd;
use crate::read;
use crate::ruff_cmd;
use crate::shell_words;
use crate::text;
use crate::toml_filter;
use crate::tree;
use crate::tsc_cmd;

verus! {

/// What tells the tools apart.
proof fn lemma_tools_differ()
    ensures
        "diff"@ != "cargo"@,
        "git"@ != "cargo"@ && "git"@ != "diff"@,
        "grep"@ != "cargo"@ && "grep"@ != "diff"@ && "grep"@ != "git"@,
        "ls"@ != "cargo"@ && "ls"@ != "diff"@ && "ls"@ != "git"@ && "ls"@ != "grep"@,
        "prettier"@ != "cargo"@ && "prettier"@ != "diff"@ && "prettier"@ != "git"@ && "prettier"@
            != "grep"@ && "prettier"@ != "ls"@,
        "pytest"@ != "cargo"@ && "pytest"@ != "diff"@ && "pytest"@ != "git"@ && "pytest"@ != "grep"@
            && "pytest"@ != "ls"@ && "pytest"@ != "prettier"@,
        "read"@ != "cargo"@ && "read"@ != "diff"@ && "read"@ != "git"@ && "read"@ != "grep"@
            && "read"@ != "ls"@ && "read"@ != "prettier"@ && "read"@ != "pytest"@,
        "ruff"@ != "cargo"@ && "ruff"@ != "diff"@ && "ruff"@ != "git"@ && "ruff"@ != "grep"@
            && "ruff"@ != "ls"@ && "ruff"@ != "prettier"@ && "ruff"@ != "pytest"@ && "ruff"@
            != "read"@,
        "tree"@ != "cargo"@ && "tree"@ != "diff"@ && "tree"@ != "git"@ && "tree"@ != "grep"@
            && "tree"@ != "ls"@ && "tree"@ != "prettier"@ && "tree"@ != "pytest"@ && "tree"@
            != "read"@ && "tree"@ != "ruff"@,
        "tsc"@ != "cargo"@ && "tsc"@ != "diff"@ && "tsc"@ != "git"@ && "tsc"@ != "grep"@ && "tsc"@
            != "ls"@ && "tsc"@ != "prettier"@ && "tsc"@ != "pytest"@ && "tsc"@ != "read"@ && "tsc"@
            != "ruff"@ && "tsc"@ != "tree"@,
{
    reveal_strlit("cargo");
    reveal_strlit("diff");
    reveal_strlit("git");
    reveal_strlit("grep");
    reveal_strlit("ls");
    reveal_strlit("prettier");
    reveal_strlit("pytest");
    reveal_strlit("read");
    reveal_strlit("ruff");
    reveal_strlit("tree");
    reveal_strlit("tsc");
    assert("cargo"@[0] == 'c' && "diff"@[0] == 'd' && "git"@[0] == 'g' && "grep"@[0] == 'g');
    assert("ls"@[0] == 'l' && "prettier"@[0] == 'p' && "pytest"@[0] == 'p' && "read"@[0] == 'r');
    assert("ruff"@[0] == 'r' && "tree"@[0] == 't' && "tsc"@[0] == 't');
    assert("git"@[1] == 'i' && "grep"@[1] == 'r' && "prettier"@[1] == 'r' && "pytest"@[1] == 'y');
    assert("read"@[1] == 'e' && "ruff"@[1] == 'u' && "tree"@[1] == 'r' && "tsc"@[1] == 's');
}

/// The plan of a rewritten command is that of the tool which its second word names: from the
/// words of the command that was there, but for a file that is shown, which is planned from
/// the rewritten words.
pub proof fn law_second_word_names_the_tool(
    raw: Seq<char>,
    actual: Seq<char>,
    tool: Seq<char>,
    rest: Seq<Seq<char>>,
)
    ensures
        ({
            let words = shell_words::tokens(actual);
            let rewritten = seq!["rtk"@, tool] + rest;
            let plan = embedded::plan_of(raw, actual, rewritten);
            let whole = |r: Renderer<Seq<char>>|
                Some(PlanView { steps: seq![text::trim(raw)], renderer: r });
            &&& tool == "cargo"@ ==> plan == planning::cargo_plan(raw, words).ok()
            &&& tool == "diff"@ ==> plan == planning::diff_plan(raw, words).ok()
            &&& tool == "git"@ ==> plan == git_planning::git_plan(raw, words).ok()
            &&& tool == "grep"@ ==> plan == planning::grep_plan(words).ok()
            &&& tool == "ls"@ && words.len() > 0 ==> plan == Some(
                planning::ls_plan(raw, words.drop_first()),
            )
            &&& tool == "ls"@ && words.len() == 0 ==> plan == Some(
                planning::ls_plan(raw, Seq::<Seq<char>>::empty()),
            )
            &&& tool == "prettier"@ ==> plan == whole(Renderer::Prettier)
            &&& tool == "pytest"@ ==> plan == whole(Renderer::Pytest)
            &&& tool == "read"@ ==> plan == planning::read_plan(raw, rewritten).ok()
            &&& tool == "ruff"@ ==> plan == planning::ruff_plan(raw, words).ok()
            &&& tool == "tree"@ ==> plan == whole(Renderer::Tree)
            &&& tool == "tsc"@ ==> plan == whole(Renderer::Tsc)
            &&& tool != "cargo"@ && tool != "diff"@ && tool != "git"@ && tool != "grep"@ && tool
                != "ls"@ && tool != "prettier"@ && tool != "pytest"@ && tool != "read"@ && tool
                != "ruff"@ && tool != "tree"@ && tool != "tsc"@ ==> plan == planning::toml_plan(
                raw,
                actual,
            )
        }),
{
    let rewritten = seq!["rtk"@, tool] + rest;
    let words = shell_words::tokens(actual);
    assert(rewritten[0] == "rtk"@ && rewritten[1] == tool);
    lemma_tools_differ();
    assert(words.len() > 0 ==> words.skip(1) =~= words.drop_first());
}

/// A command that was not rewritten into one of `rtk` has no plan, and one of `rtk` alone has
/// that of its filter.
pub proof fn law_only_rtk_commands_are_planned(
    raw: Seq<char>,
    actual: Seq<char>,
    rewritten: Seq<Seq<char>>,
)
    ensures
        rewritten.len() == 0 || rewritten[0] != "rtk"@ ==> embedded::plan_of(raw, actual, rewritten)
            is None,
        rewritten == seq!["rtk"@] ==> embedded::plan_of(raw, actual, rewritten)
            == planning::toml_plan(raw, actual),
{
    if rewritten == seq!["rtk"@] {
        assert(rewritten[0] == "rtk"@);
    }
}

/// A command is planned from what it was rewritten into and from what it is without what is
/// set before it; and not at all where it is not rewritten.
pub proof fn law_commands_are_planned_as_rewritten(raw: Seq<char>, excluded: Seq<Seq<char>>)
    ensures
        match registry::rewritten(raw, excluded) {
            Some(r) => embedded::planned(raw, excluded) == embedded::plan_of(
                raw,
                registry::actual_command(raw),
                shell_words::tokens(r),
            ),
            None => embedded::planned(raw, excluded) is None,
        },
{
}

/// What stands before a command is put before the one that runs in its place, behind which
/// there is one space; where nothing stands before it, nothing is put there.
pub proof fn law_what_stands_before_is_kept(raw: Seq<char>, command: Seq<char>)
    ensures
        ({
            let t = text::trim(raw);
            let actual = registry::actual_command(raw);
            let before = t.take(t.len() - actual.len());
            &&& actual.len() <= t.len()
            &&& t == before + actual
            &&& text::trim_end(before).len() == 0 ==> planning::with_env(raw, command) == command
            &&& text::trim_end(before).len() > 0 ==> planning::with_env(raw, command)
                == text::trim_end(before) + seq![' '] + command
        }),
{
    let t = text::trim(raw);
    registry::lemma_bare_command_is_suffix(t);
    let actual = registry::actual_command(raw);
    assert(t =~= t.take(t.len() - actual.len()) + actual);
    reveal_strlit(" ");
    assert(" "@ =~= seq![' ']);
}

/// A command whose first word is `make` runs as it was written and is shown by its filter;
/// commands with another first word have no filter.
pub proof fn law_make_has_a_filter(raw: Seq<char>, actual: Seq<char>)
    ensures
        registry::first_word(text::trim(actual)) == "make"@ ==> planning::toml_plan(raw, actual)
            == Some(
            PlanView {
                steps: seq![text::trim(raw)],
                renderer: Renderer::TomlFilter { command: actual },
            },
        ),
        registry::first_word(text::trim(actual)) != "make"@ ==> planning::toml_plan(raw, actual)
            is None,
{
    let list = toml_filter::builtin_filters();
    let p = toml_filter::is_for(actual);
    if registry::first_word(text::trim(actual)) == "make"@ {
        assert(p(list[0]));
        text::lemma_index_where(list, p, 0);
    } else {
        assert(!p(list[0]));
        text::lemma_index_where(list, p, 1);
    }
}

/// What is shown of one result.
pub open spec fn shows(renderer: Renderer<Seq<char>>, result: ResultView) -> Result<
    Seq<char>,
    RenderError<Seq<char>>,
> {
    embedded::rendered(
        PlanView { steps: seq![Seq::<char>::empty()], renderer },
        seq![result],
    )
}

/// Each way of showing shows what is known of its tool; and what has no way of its own is shown
/// as it is, trimmed.
pub proof fn law_renderers_belong_to_tools(result: ResultView)
    ensures
        ({
            let out = result.output;
            &&& shows(Renderer::Cargo(CargoRenderer::Build), result) == ok(
                cargo_cmd::build_report(out),
            )
            &&& shows(Renderer::Cargo(CargoRenderer::Test), result) == ok(
                cargo_cmd::test_report(out),
            )
            &&& shows(Renderer::Cargo(CargoRenderer::Clippy), result) == ok(
                cargo_cmd::clippy_report(out),
            )
            &&& shows(Renderer::Cargo(CargoRenderer::Install), result) == ok(
                cargo_cmd::install_report(out),
            )
            &&& shows(Renderer::Cargo(CargoRenderer::Passthrough), result) == ok(text::trim(out))
            &&& shows(Renderer::Prettier, result) == ok(prettier_cmd::prettier_report(out))
            &&& shows(Renderer::Pytest, result) == ok(pytest_cmd::pytest_report(out))
            &&& shows(Renderer::Ruff(RuffRenderer::Check), result) == ok(
                ruff_cmd::check_report(out),
            )
            &&& shows(Renderer::Ruff(RuffRenderer::Format), result) == ok(
                ruff_cmd::format_report(out),
            )
            &&& shows(Renderer::Ruff(RuffRenderer::Passthrough), result) == ok(text::trim(out))
            &&& shows(Renderer::Tree, result) == ok(tree::tree_report(out))
            &&& shows(Renderer::Tsc, result) == ok(tsc_cmd::tsc_report(out))
            &&& shows(Renderer::Ls { show_all: true }, result) == ok(ls::listing(out, true))
            &&& shows(Renderer::Ls { show_all: false }, result) == ok(ls::listing(out, false))
            &&& text::trim(out).len() == 0 ==> shows(Renderer::Diff, result) == ok(
                "✅ Files are identical"@,
            )
            &&& text::trim(out).len() > 0 ==> shows(Renderer::Diff, result) == ok(
                diff_cmd::condensed(out),
            )
        }),
{
}

/// A text that is shown.
pub open spec fn ok(s: Seq<char>) -> Result<Seq<char>, RenderError<Seq<char>>> {
    Ok(s)
}

/// A search and a file are shown with what they were planned with.
pub proof fn law_plans_are_shown_as_planned(
    result: ResultView,
    pattern: Seq<char>,
    path: Seq<char>,
    name: Option<Seq<char>>,
    level: crate::filter::FilterLevel,
    first: Option<usize>,
    last: Option<usize>,
    flag: bool,
    width: usize,
    count: usize,
)
    ensures
        shows(
            Renderer::Grep {
                pattern,
                path,
                max_line_len: width,
                max_results: count,
                context_only: flag,
            },
            result,
        ) == ok(
            grep_cmd::search_report(
                result.output,
                pattern,
                path,
                width as nat,
                count as nat,
                flag,
                result.succeeded,
            ),
        ),
        shows(
            Renderer::Read {
                file_name_hint: name,
                level,
                max_lines: first,
                tail_lines: last,
                line_numbers: flag,
            },
            result,
        ) == ok(read::file_report(result.output, name, level, first, last, flag)),
{
}

/// A `git` plan is shown from all of its results.
pub proof fn law_git_plans_are_shown(
    plan: PlanView,
    renderer: embedded::GitRenderer<Seq<char>>,
    results: Seq<ResultView>,
)
    requires
        plan.renderer == Renderer::<Seq<char>>::Git(renderer),
        results.len() == plan.steps.len(),
    ensures
        embedded::rendered(plan, results) == ok(git_rendering::git_shown(renderer, results)),
{
}

/// The output of `make` is shown by its filter; a filter that is not known is named in the
/// error.
pub proof fn law_filters_are_found(result: ResultView, command: Seq<char>)
    ensures
        registry::first_word(text::trim(command)) == "make"@ ==> shows(
            Renderer::TomlFilter { command },
            result,
        ) == ok(toml_filter::filtered(toml_filter::builtin_filters()[0], result.output)),
        registry::first_word(text::trim(command)) != "make"@ ==> shows(
            Renderer::TomlFilter { command },
            result,
        ) == Err::<Seq<char>, RenderError<Seq<char>>>(RenderError::MissingFilter { command }),
{
    let list = toml_filter::builtin_filters();
    let p = toml_filter::is_for(command);
    if registry::first_word(text::trim(command)) == "make"@ {
        assert(p(list[0]));
        text::lemma_index_where(list, p, 0);
    } else {
        assert(!p(list[0]));
        text::lemma_index_where(list, p, 1);
    }
}

/// What the errors say.
pub proof fn law_error_messages(expected: usize, got: usize, command: Seq<char>)
    ensures
        embedded::error_message(RenderError::ResultCount { expected, got }) == "expected "@
            + number::decimal(expected as nat) + " RTK step results, got "@ + number::decimal(
            got as nat,
        ),
        embedded::error_message(RenderError::MissingFilter { command })
            == "missing builtin TOML filter for command: "@ + command,
{
}

/// What planning and rendering give is what the values that they return hold.
pub proof fn law_results_hold_what_is_stated(
    plan: embedded::ShellPlan,
    failed: planning::PlanError<String>,
    text: String,
    error: RenderError<String>,
)
    ensures
        planning::outcome(Ok(plan)) == Ok::<PlanView, planning::PlanError<Seq<char>>>(plan@),
        planning::outcome(Err(failed)) == Err::<PlanView, planning::PlanError<Seq<char>>>(failed@),
        embedded::opt_plan_view(Some(plan)) == Some(plan@),
        embedded::opt_plan_view(None) == None::<PlanView>,
        embedded::rendering(Ok(text)) == Ok::<Seq<char>, RenderError<Seq<char>>>(text@),
        embedded::rendering(Err(error)) == Err::<Seq<char>, RenderError<Seq<char>>>(error@),
        forall|r: embedded::StepResult<'_>|
            (#[trigger] r@).output == r.output@ && r@.succeeded == r.succeeded,
        forall|r: Seq<embedded::StepResult<'_>>|
            (#[trigger] embedded::result_views(r)).len() == r.len(),
        forall|r: Seq<embedded::StepResult<'_>>, i: int|
            0 <= i < r.len() ==> (#[trigger] embedded::result_views(r)[i]) == r[i]@,
{
}

} // verus!
