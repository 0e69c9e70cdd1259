//! Which steps the commands of the other tools become, and how their output is shown.
use vstd::prelude::*;
use crate::embedded::{CargoRenderer, PlanView, Renderer, RuffRenderer};
use crate::embedded::planning;
use crate::embedded::planning::{PlanError, Tool};
use crate::grep_cmd;
use crate::ls;
use crate::shell_words;
use crate::text;

verus! {

/// The plan of one step.
pub open spec fn step(command: Seq<char>, renderer: Renderer<Seq<char>>) -> Result<
    PlanView,
    PlanError<Seq<char>>,
> {
    Ok(PlanView { steps: seq![command], renderer })
}

/// No plan, and why.
pub open spec fn refused(e: PlanError<Seq<char>>) -> Result<PlanView, PlanError<Seq<char>>> {
    Err(e)
}

/// A listing shows everything where an option of single letters has an `a` among them,
/// wherever it stands, or an argument is `--all`; and in no other case.
pub proof fn law_listings_show_all_as_asked(raw: Seq<char>, args: Seq<Seq<char>>)
    ensures
        (exists|i: int, k: int|
            0 <= i < args.len() && 0 <= k < args[i].len() && args[i][0] == '-' && !(args[i].len()
                >= 2 && args[i][1] == '-') && (#[trigger] args[i][k]) == 'a') ==> planning::ls_plan(
            raw,
            args,
        ).renderer == (Renderer::<Seq<char>>::Ls { show_all: true }),
        (exists|i: int| 0 <= i < args.len() && (#[trigger] args[i]) == "--all"@)
            ==> planning::ls_plan(raw, args).renderer == (Renderer::<Seq<char>>::Ls {
            show_all: true,
        }),
        (forall|i: int, k: int|
            0 <= i < args.len() && 0 <= k < args[i].len() && args[i][0] == '-' && !(args[i].len()
                >= 2 && args[i][1] == '-') ==> (#[trigger] args[i][k]) != 'a') && (forall|i: int|
            0 <= i < args.len() ==> (#[trigger] args[i]) != "--all"@) ==> planning::ls_plan(
            raw,
            args,
        ).renderer == (Renderer::<Seq<char>>::Ls { show_all: false }),
{
    assert forall|a: Seq<char>|
        "--"@.is_prefix_of(a) <==> a.len() >= 2 && a[0] == '-' && a[1] == '-' by {
        lemma_two_dashes(a);
    }
    if exists|i: int, k: int|
        0 <= i < args.len() && 0 <= k < args[i].len() && args[i][0] == '-' && !(args[i].len() >= 2
            && args[i][1] == '-') && (#[trigger] args[i][k]) == 'a' {
        let (i, k) = choose|i: int, k: int|
            0 <= i < args.len() && 0 <= k < args[i].len() && args[i][0] == '-' && !(args[i].len()
                >= 2 && args[i][1] == '-') && (#[trigger] args[i][k]) == 'a';
        assert(args[i].contains('a'));
        assert(planning::asks_for_all(args[i]));
    }
    if exists|i: int| 0 <= i < args.len() && (#[trigger] args[i]) == "--all"@ {
        let i = choose|i: int| 0 <= i < args.len() && (#[trigger] args[i]) == "--all"@;
        assert(planning::asks_for_all(args[i]));
    }
    if exists|i: int| 0 <= i < args.len() && planning::asks_for_all(#[trigger] args[i]) {
        let i = choose|i: int| 0 <= i < args.len() && planning::asks_for_all(#[trigger] args[i]);
        if args[i] != "--all"@ {
            let k = choose|k: int| 0 <= k < args[i].len() && args[i][k] == 'a';
            assert(args[i][k] == 'a');
        }
    }
}

/// What starts with two dashes.
proof fn lemma_two_dashes(a: Seq<char>)
    ensures
        "--"@.is_prefix_of(a) <==> a.len() >= 2 && a[0] == '-' && a[1] == '-',
{
    reveal_strlit("--");
    if a.len() >= 2 {
        assert(a.subrange(0, 2)[0] == a[0] && a.subrange(0, 2)[1] == a[1]);
        if a[0] == '-' && a[1] == '-' {
            assert(a.subrange(0, 2) =~= "--"@);
        }
    }
}

/// A listing runs one command, behind whatever stood before the command that was asked for:
/// a long listing of everything, of the paths that were named or else of the current
/// directory.
pub proof fn law_listings_are_long(raw: Seq<char>, args: Seq<Seq<char>>)
    ensures
        planning::ls_plan(raw, args).steps == seq![
            planning::with_env(raw, shell_words::command_line(ls::ls_words(args))),
        ],
        ls::ls_words(args).len() >= 3,
        ls::ls_words(args)[0] == "ls"@,
        ls::ls_words(args)[1] == "-la"@,
        (forall|i: int| 0 <= i < args.len() ==> (#[trigger] args[i]).len() > 0 && args[i][0] != '-')
            ==> ls::ls_words(args) == seq!["ls"@, "-la"@] + (if args.len() == 0 {
            seq!["."@]
        } else {
            args
        }),
{
    if forall|i: int| 0 <= i < args.len() ==> (#[trigger] args[i]).len() > 0 && args[i][0] != '-' {
        lemma_only_paths(args);
        assert(ls::ls_words(args) =~= seq!["ls"@, "-la"@] + (if args.len() == 0 {
            seq!["."@]
        } else {
            args
        }));
    }
}

/// Arguments that are no options are all paths.
proof fn lemma_only_paths(args: Seq<Seq<char>>)
    requires
        forall|i: int| 0 <= i < args.len() ==> (#[trigger] args[i]).len() > 0 && args[i][0] != '-',
    ensures
        args.filter_map(|a: Seq<char>| ls::path_arg(a)) == args,
        args.filter_map(|a: Seq<char>| ls::extra_flag(a)) == Seq::<Seq<char>>::empty(),
    decreases args.len(),
{
    if args.len() > 0 {
        let front = args.drop_last();
        assert forall|i: int| 0 <= i < front.len() implies (#[trigger] front[i]).len() > 0
            && front[i][0] != '-' by {
            assert(front[i] == args[i]);
        }
        lemma_only_paths(front);
        assert(args.last() == args[args.len() - 1]);
        assert(front + seq![args.last()] =~= args);
    }
}

/// A `cargo` command with one of six subcommands runs as it was written, and is shown as its
/// subcommand asks; other `cargo` commands have no plan.
pub proof fn law_cargo_subcommands(raw: Seq<char>, subcommand: Seq<char>, args: Seq<Seq<char>>)
    ensures
        ({
            let plan = planning::cargo_plan(raw, seq!["cargo"@, subcommand] + args);
            let run = text::trim(raw);
            &&& subcommand == "build"@ || subcommand == "check"@ ==> plan == step(
                run,
                Renderer::Cargo(CargoRenderer::Build),
            )
            &&& subcommand == "test"@ ==> plan == step(run, Renderer::Cargo(CargoRenderer::Test))
            &&& subcommand == "clippy"@ ==> plan == step(
                run,
                Renderer::Cargo(CargoRenderer::Clippy),
            )
            &&& subcommand == "install"@ ==> plan == step(
                run,
                Renderer::Cargo(CargoRenderer::Install),
            )
            &&& subcommand == "fmt"@ ==> plan == step(
                run,
                Renderer::Cargo(CargoRenderer::Passthrough),
            )
            &&& subcommand != "build"@ && subcommand != "check"@ && subcommand != "test"@
                && subcommand != "clippy"@ && subcommand != "install"@ && subcommand != "fmt"@
                ==> plan == refused(PlanError::UnsupportedSubcommand(Tool::Cargo, subcommand))
        }),
{
    let tokens = seq!["cargo"@, subcommand] + args;
    assert(tokens[0] == "cargo"@ && tokens[1] == subcommand);
    reveal_strlit("build");
    reveal_strlit("check");
    reveal_strlit("test");
    reveal_strlit("clippy");
    reveal_strlit("install");
    reveal_strlit("fmt");
    assert("build"@[0] == 'b' && "check"@[0] == 'c' && "test"@[0] == 't' && "clippy"@[0] == 'c');
    assert("install"@[0] == 'i' && "fmt"@[0] == 'f' && "check"@[1] == 'h' && "clippy"@[1] == 'l');
}

/// What is no `cargo` command with a subcommand has no plan.
pub proof fn law_other_cargo_commands_are_refused(raw: Seq<char>, tokens: Seq<Seq<char>>)
    ensures
        tokens.len() == 0 ==> planning::cargo_plan(raw, tokens) == refused(
            PlanError::MissingCommand(Tool::Cargo),
        ),
        tokens.len() > 0 && tokens[0] != "cargo"@ ==> planning::cargo_plan(raw, tokens) == refused(
            PlanError::OtherCommand(Tool::Cargo),
        ),
        tokens.len() == 1 && tokens[0] == "cargo"@ ==> planning::cargo_plan(raw, tokens) == refused(
            PlanError::MissingSubcommand(Tool::Cargo),
        ),
{
}

/// A comparison is one of two files, which it shows with their context; there is no other.
pub proof fn law_comparisons_are_of_two_files(raw: Seq<char>, tokens: Seq<Seq<char>>)
    ensures
        tokens.len() == 3 && tokens[0] == "diff"@ ==> planning::diff_plan(raw, tokens) == step(
            planning::with_env(raw, "diff -u "@ + tokens[1] + " "@ + tokens[2]),
            Renderer::Diff,
        ),
        tokens.len() != 3 || tokens[0] != "diff"@ ==> planning::diff_plan(raw, tokens) == refused(
            PlanError::UnsupportedDiff,
        ),
{
}

/// The first word of a search that is no option is the pattern, and the word behind it is the
/// path, whatever it looks like. Everything else is handed on in its order.
pub proof fn law_searches_have_pattern_and_path(
    command: Seq<char>,
    options: Seq<Seq<char>>,
    pattern: Seq<char>,
    path: Seq<char>,
    others: Seq<Seq<char>>,
)
    requires
        command == "grep"@ || command == "rg"@,
        forall|i: int|
            0 <= i < options.len() ==> (#[trigger] options[i]).len() > 0 && options[i][0] == '-',
        pattern.len() == 0 || pattern[0] != '-',
    ensures
        planning::grep_plan(seq![command] + options + seq![pattern, path] + others) == step(
            grep_cmd::search_command(pattern, path, None, options + others),
            Renderer::Grep {
                pattern,
                path,
                max_line_len: 80,
                max_results: 50,
                context_only: false,
            },
        ),
        planning::grep_plan(seq![command] + options + seq![pattern]) == step(
            grep_cmd::search_command(pattern, "."@, None, options),
            Renderer::Grep {
                pattern,
                path: "."@,
                max_line_len: 80,
                max_results: 50,
                context_only: false,
            },
        ),
        planning::grep_plan(seq![command] + options) == refused(PlanError::MissingPattern),
{
    let k = options.len() as int;
    let a = seq![command] + options + seq![pattern, path] + others;
    let b = seq![command] + options + seq![pattern];
    let c = seq![command] + options;
    let x = options + seq![pattern, path] + others;
    let y = options + seq![pattern];
    assert(a.skip(1) =~= x);
    assert(b.skip(1) =~= y);
    assert(c.skip(1) =~= options);
    assert(a[0] == command && b[0] == command && c[0] == command);
    assert forall|j: int| 0 <= j < k implies !planning::undashed()(#[trigger] x[j]) by {
        assert(x[j] == options[j]);
    }
    assert forall|j: int| 0 <= j < k implies !planning::undashed()(#[trigger] y[j]) by {
        assert(y[j] == options[j]);
    }
    assert(x[k] == pattern && y[k] == pattern && x[k + 1] == path);
    text::lemma_index_where(x, planning::undashed(), k);
    text::lemma_index_where(y, planning::undashed(), k);
    text::lemma_index_where(options, planning::undashed(), k);
    assert(x.take(k) =~= options && y.take(k) =~= options);
    if others.len() > 0 {
        assert(x.skip(k + 2) =~= others);
    } else {
        assert(others =~= Seq::<Seq<char>>::empty());
    }
    assert(options + Seq::<Seq<char>>::empty() =~= options);
}

/// What is no search has no plan.
pub proof fn law_other_searches_are_refused(tokens: Seq<Seq<char>>)
    ensures
        tokens.len() == 0 ==> planning::grep_plan(tokens) == refused(
            PlanError::MissingCommand(Tool::Grep),
        ),
        tokens.len() > 0 && tokens[0] != "grep"@ && tokens[0] != "rg"@ ==> planning::grep_plan(
            tokens,
        ) == refused(PlanError::OtherCommand(Tool::Grep)),
{
}

/// Whether the linter is run by these words behind `ruff`: not by an option, and not by the
/// other subcommands.
pub open spec fn asks_for_linter(args: Seq<Seq<char>>) -> bool {
    args.len() == 0 || ((args[0].len() == 0 || args[0][0] != '-') && args[0] != "format"@ && args[0]
        != "version"@)
}

/// The linter prints JSON unless an argument sets another format; it gets its arguments in
/// their order; and it gets the current directory exactly where each argument starts with a
/// dash or has an equals sign. The word `check` may stand before the arguments or not.
pub proof fn law_linter_command(raw: Seq<char>, args: Seq<Seq<char>>)
    ensures
        ({
            let json = forall|i: int|
                0 <= i < args.len() ==> (#[trigger] args[i]) != "--output-format"@
                    && !"--output-format="@.is_prefix_of(args[i]);
            let no_path = forall|i: int|
                0 <= i < args.len() ==> ((#[trigger] args[i]).len() > 0 && args[i][0] == '-')
                    || exists|k: int| 0 <= k < args[i].len() && args[i][k] == '=';
            let front = (if json {
                "ruff check --output-format=json"@
            } else {
                "ruff check"@
            }) + (if args.len() == 0 {
                Seq::<char>::empty()
            } else {
                " "@ + text::join(args, " "@)
            });
            let plan = step(
                planning::with_env(
                    raw,
                    if no_path {
                        front + " ."@
                    } else {
                        front
                    },
                ),
                Renderer::Ruff(RuffRenderer::Check),
            );
            &&& planning::ruff_plan(raw, seq!["ruff"@, "check"@] + args) == plan
            &&& asks_for_linter(args) && (args.len() > 0 ==> args[0] != "check"@)
                ==> planning::ruff_plan(raw, seq!["ruff"@] + args) == plan
        }),
{
    let a = seq!["ruff"@, "check"@] + args;
    let b = seq!["ruff"@] + args;
    let led = seq!["check"@] + args;
    assert(a[0] == "ruff"@ && b[0] == "ruff"@);
    assert(a.skip(1) =~= led);
    assert(b.skip(1) =~= args);
    assert(led[0] == "check"@ && led.skip(1) =~= args);
    if args.len() == 0 || args[0] != "check"@ {
        lemma_linter_text(args, args);
    }
    lemma_linter_text(led, args);
    lemma_led_format(args);
}

/// The word `check` sets no format.
proof fn lemma_led_format(args: Seq<Seq<char>>)
    ensures
        planning::has_output_format(seq!["check"@] + args) == planning::has_output_format(args),
{
    let led = seq!["check"@] + args;
    assert(!planning::sets_output_format("check"@)) by {
        reveal_strlit("check");
        reveal_strlit("--output-format");
        reveal_strlit("--output-format=");
        assert("check"@.len() == 5 && "--output-format"@.len() == 15);
        assert("--output-format="@.len() == 16);
    }
    if planning::has_output_format(args) {
        let i = choose|i: int|
            0 <= i < args.len() && planning::sets_output_format(#[trigger] args[i]);
        assert(led[i + 1] == args[i]);
    }
    if planning::has_output_format(led) {
        let i = choose|i: int| 0 <= i < led.len() && planning::sets_output_format(#[trigger] led[i]);
        assert(i > 0 && led[i] == args[i - 1]);
    }
}

/// The text of the linter's command.
proof fn lemma_linter_text(words: Seq<Seq<char>>, args: Seq<Seq<char>>)
    requires
        planning::check_args(words) == args,
    ensures
        ({
            let no_path = forall|i: int|
                0 <= i < args.len() ==> ((#[trigger] args[i]).len() > 0 && args[i][0] == '-')
                    || exists|k: int| 0 <= k < args[i].len() && args[i][k] == '=';
            let front = (if planning::has_output_format(words) {
                "ruff check"@
            } else {
                "ruff check --output-format=json"@
            }) + (if args.len() == 0 {
                Seq::<char>::empty()
            } else {
                " "@ + text::join(args, " "@)
            });
            planning::check_command(words) == if no_path {
                front + " ."@
            } else {
                front
            }
        }),
{
    let no_path = forall|i: int|
        0 <= i < args.len() ==> ((#[trigger] args[i]).len() > 0 && args[i][0] == '-') || exists|
            k: int,
        | 0 <= k < args[i].len() && args[i][k] == '=';
    assert(planning::name_no_path(args) == no_path) by {
        assert forall|i: int| 0 <= i < args.len() implies planning::names_no_path(
            #[trigger] args[i],
        ) == ((args[i].len() > 0 && args[i][0] == '-') || exists|k: int|
            0 <= k < args[i].len() && args[i][k] == '=') by {
            if args[i].contains('=') {
                let k = choose|k: int| 0 <= k < args[i].len() && args[i][k] == '=';
                assert(args[i][k] == '=');
            }
        }
    }
    reveal_strlit("ruff");
    reveal_strlit(" check");
    reveal_strlit("ruff check");
    reveal_strlit(" check --output-format=json");
    reveal_strlit("ruff check --output-format=json");
    assert("ruff"@ + " check"@ =~= "ruff check"@);
    assert("ruff"@ + " check --output-format=json"@ =~= "ruff check --output-format=json"@);
    lemma_spaced(args);
    let front = (if planning::has_output_format(words) {
        "ruff check"@
    } else {
        "ruff check --output-format=json"@
    }) + planning::spaced(args);
    assert(front + Seq::<char>::empty() =~= front);
}

/// Words behind a space each are the words joined with spaces, behind a space.
proof fn lemma_spaced(list: Seq<Seq<char>>)
    ensures
        planning::spaced(list) == if list.len() == 0 {
            Seq::<char>::empty()
        } else {
            " "@ + text::join(list, " "@)
        },
    decreases list.len(),
{
    reveal_strlit(" ");
    assert(" "@ =~= seq![' ']);
    if list.len() > 0 {
        lemma_spaced(list.drop_last());
        if list.len() == 1 {
            assert(planning::spaced(list.drop_last()) =~= Seq::<char>::empty());
            assert(list.last() == list[0]);
        }
        assert(planning::spaced(list) =~= " "@ + text::join(list, " "@));
    }
}

/// A `ruff` command that does not run the linter runs as it was written: the formatter where
/// one of its words is `format`, and else whatever it is.
pub proof fn law_other_ruff_commands(raw: Seq<char>, args: Seq<Seq<char>>)
    requires
        !asks_for_linter(args),
    ensures
        (exists|i: int| 0 <= i < args.len() && (#[trigger] args[i]) == "format"@)
            ==> planning::ruff_plan(raw, seq!["ruff"@] + args) == step(
            text::trim(raw),
            Renderer::Ruff(RuffRenderer::Format),
        ),
        (forall|i: int| 0 <= i < args.len() ==> (#[trigger] args[i]) != "format"@)
            ==> planning::ruff_plan(raw, seq!["ruff"@] + args) == step(
            text::trim(raw),
            Renderer::Ruff(RuffRenderer::Passthrough),
        ),
{
    let tokens = seq!["ruff"@] + args;
    assert(tokens[0] == "ruff"@ && tokens.skip(1) =~= args);
    reveal_strlit("check");
    reveal_strlit("format");
    reveal_strlit("version");
    assert("check"@[0] == 'c' && "format"@[0] == 'f' && "version"@[0] == 'v');
}

/// What is no `ruff` command has no plan.
pub proof fn law_refused_ruff_commands(raw: Seq<char>, tokens: Seq<Seq<char>>)
    ensures
        tokens.len() == 0 ==> planning::ruff_plan(raw, tokens) == refused(
            PlanError::MissingCommand(Tool::Ruff),
        ),
        tokens.len() > 0 && tokens[0] != "ruff"@ ==> planning::ruff_plan(raw, tokens) == refused(
            PlanError::OtherCommand(Tool::Ruff),
        ),
{
}

} // verus!
