//! How the options of a file that is shown are read.
use vstd::prelude::*;
use crate::embedded::{PlanView, Renderer};
use crate::embedded::planning;
use crate::embedded::planning::{PlanError, ReadOptions};
use crate::filter;
use crate::filter::FilterLevel;
use crate::number;
use crate::text;

verus! {

/// The plan of a command that was rewritten to show a file with these options.
pub open spec fn reads(raw: Seq<char>, file: Seq<char>, options: Seq<Seq<char>>) -> Result<
    PlanView,
    PlanError<Seq<char>>,
> {
    planning::read_plan(raw, seq!["rtk"@, "read"@, file] + options)
}

/// The plan that runs `raw` as it is and shows a file in this way.
pub open spec fn file_shown(
    raw: Seq<char>,
    file: Seq<char>,
    level: FilterLevel,
    max_lines: Option<usize>,
    tail_lines: Option<usize>,
    line_numbers: bool,
) -> Result<PlanView, PlanError<Seq<char>>> {
    Ok(
        PlanView {
            steps: seq![text::trim(raw)],
            renderer: Renderer::Read {
                file_name_hint: Some(file),
                level,
                max_lines,
                tail_lines,
                line_numbers,
            },
        },
    )
}

/// The plan is that of its options.
proof fn lemma_reads(raw: Seq<char>, file: Seq<char>, options: Seq<Seq<char>>)
    ensures
        reads(raw, file, options) == match planning::read_options(
            options,
            planning::default_options(),
        ) {
            Ok(o) => file_shown(raw, file, o.level, o.max_lines, o.tail_lines, o.line_numbers),
            Err(e) => Err(e),
        },
{
    let all = seq!["rtk"@, "read"@, file] + options;
    assert(all.skip(3) =~= options);
    assert(all[2] == file);
}

/// What tells the options apart.
proof fn lemma_options_differ()
    ensures
        "--max-lines"@ != "--level"@,
        "--max-lines"@ != "-l"@,
        "-m"@ != "--level"@,
        "-m"@ != "-l"@,
        "--tail-lines"@ != "--level"@,
        "--tail-lines"@ != "-l"@,
        "--tail-lines"@ != "--max-lines"@,
        "--tail-lines"@ != "-m"@,
        "--line-numbers"@ != "--level"@,
        "--line-numbers"@ != "-l"@,
        "--line-numbers"@ != "--max-lines"@,
        "--line-numbers"@ != "-m"@,
        "--line-numbers"@ != "--tail-lines"@,
        "-n"@ != "--level"@,
        "-n"@ != "-l"@,
        "-n"@ != "--max-lines"@,
        "-n"@ != "-m"@,
        "-n"@ != "--tail-lines"@,
{
    reveal_strlit("--level");
    reveal_strlit("-l");
    reveal_strlit("--max-lines");
    reveal_strlit("-m");
    reveal_strlit("--tail-lines");
    reveal_strlit("--line-numbers");
    reveal_strlit("-n");
    assert("-l"@[1] == 'l' && "-m"@[1] == 'm' && "-n"@[1] == 'n');
    assert("--level"@.len() == 7 && "--max-lines"@.len() == 11 && "--tail-lines"@.len() == 12
        && "--line-numbers"@.len() == 14 && "-l"@.len() == 2 && "-m"@.len() == 2 && "-n"@.len()
        == 2);
}

/// Whether the options set the level.
spec fn sets_level(tokens: Seq<Seq<char>>) -> bool
    decreases tokens.len(),
{
    if tokens.len() == 0 {
        false
    } else if tokens[0] == "--level"@ || tokens[0] == "-l"@ {
        true
    } else if tokens[0] == "--max-lines"@ || tokens[0] == "-m"@ || tokens[0] == "--tail-lines"@ {
        tokens.len() > 1 && sets_level(tokens.skip(2))
    } else {
        sets_level(tokens.skip(1))
    }
}

/// Options where neither name of the level stands do not set it.
proof fn lemma_sets_no_level(tokens: Seq<Seq<char>>)
    requires
        forall|i: int|
            0 <= i < tokens.len() ==> (#[trigger] tokens[i]) != "--level"@ && tokens[i] != "-l"@,
    ensures
        !sets_level(tokens),
    decreases tokens.len(),
{
    if tokens.len() > 0 {
        let one = tokens.skip(1);
        assert forall|i: int| 0 <= i < one.len() implies (#[trigger] one[i]) != "--level"@ && one[i]
            != "-l"@ by {
            assert(one[i] == tokens[i + 1]);
        }
        lemma_sets_no_level(one);
        if tokens.len() > 1 {
            let two = tokens.skip(2);
            assert forall|i: int| 0 <= i < two.len() implies (#[trigger] two[i]) != "--level"@
                && two[i] != "-l"@ by {
                assert(two[i] == tokens[i + 2]);
            }
            lemma_sets_no_level(two);
        }
    }
}

/// What options make of `before` is what they say, and what `before` said of the rest.
spec fn merged(tokens: Seq<Seq<char>>, said: ReadOptions, before: ReadOptions) -> ReadOptions {
    ReadOptions {
        level: if sets_level(tokens) {
            said.level
        } else {
            before.level
        },
        max_lines: if said.max_lines is Some {
            said.max_lines
        } else {
            before.max_lines
        },
        tail_lines: if said.tail_lines is Some {
            said.tail_lines
        } else {
            before.tail_lines
        },
        line_numbers: said.line_numbers || before.line_numbers,
    }
}

/// Options are read the same, whatever was said before them.
proof fn lemma_merged(tokens: Seq<Seq<char>>, before: ReadOptions)
    ensures
        planning::read_options(tokens, before) == match planning::read_options(
            tokens,
            planning::default_options(),
        ) {
            Ok(said) => Ok::<ReadOptions, PlanError<Seq<char>>>(merged(tokens, said, before)),
            Err(e) => Err(e),
        },
    decreases tokens.len(),
{
    let o = planning::default_options();
    lemma_options_differ();
    if tokens.len() == 0 {
    } else if tokens[0] == "--level"@ || tokens[0] == "-l"@ {
        if tokens.len() > 1 && filter::level_named(tokens[1]) is Some {
            let level = filter::level_named(tokens[1])->0;
            lemma_merged(tokens.skip(2), ReadOptions { level, ..before });
            lemma_merged(tokens.skip(2), ReadOptions { level, ..o });
        }
    } else if tokens[0] == "--max-lines"@ || tokens[0] == "-m"@ {
        if tokens.len() > 1 && planning::line_number(tokens[1]) is Some {
            let n = planning::line_number(tokens[1]);
            lemma_merged(tokens.skip(2), ReadOptions { max_lines: n, ..before });
            lemma_merged(tokens.skip(2), ReadOptions { max_lines: n, ..o });
        }
    } else if tokens[0] == "--tail-lines"@ {
        if tokens.len() > 1 && planning::line_number(tokens[1]) is Some {
            let n = planning::line_number(tokens[1]);
            lemma_merged(tokens.skip(2), ReadOptions { tail_lines: n, ..before });
            lemma_merged(tokens.skip(2), ReadOptions { tail_lines: n, ..o });
        }
    } else if tokens[0] == "--line-numbers"@ || tokens[0] == "-n"@ {
        lemma_merged(tokens.skip(1), ReadOptions { line_numbers: true, ..before });
        lemma_merged(tokens.skip(1), ReadOptions { line_numbers: true, ..o });
    } else {
        lemma_merged(tokens.skip(1), before);
    }
}

/// A command without a file has no plan. A file without options is shown whole but for its
/// comments, without numbers.
pub proof fn law_files_are_shown(raw: Seq<char>, file: Seq<char>, rewritten: Seq<Seq<char>>)
    ensures
        reads(raw, file, seq![]) == file_shown(
            raw,
            file,
            FilterLevel::Minimal,
            None,
            None,
            false,
        ),
        rewritten.len() < 3 ==> planning::read_plan(raw, rewritten) == Err::<
            PlanView,
            PlanError<Seq<char>>,
        >(PlanError::MissingFile),
{
    lemma_reads(raw, file, seq![]);
}

/// A word that is no option is passed over.
pub proof fn law_other_words_are_passed_over(
    raw: Seq<char>,
    file: Seq<char>,
    word: Seq<char>,
    rest: Seq<Seq<char>>,
)
    requires
        word != "--level"@ && word != "-l"@ && word != "--max-lines"@ && word != "-m"@ && word
            != "--tail-lines"@ && word != "--line-numbers"@ && word != "-n"@,
    ensures
        reads(raw, file, seq![word] + rest) == reads(raw, file, rest),
{
    let all = seq![word] + rest;
    assert(all[0] == word && all.skip(1) =~= rest);
    lemma_reads(raw, file, all);
    lemma_reads(raw, file, rest);
}

/// What asks for numbers changes nothing but that there are numbers.
pub proof fn law_line_numbers(raw: Seq<char>, file: Seq<char>, word: Seq<char>, rest: Seq<Seq<char>>)
    requires
        word == "--line-numbers"@ || word == "-n"@,
    ensures
        match planning::read_options(rest, planning::default_options()) {
            Ok(o) => reads(raw, file, rest) == file_shown(
                raw,
                file,
                o.level,
                o.max_lines,
                o.tail_lines,
                o.line_numbers,
            ) && reads(raw, file, seq![word] + rest) == file_shown(
                raw,
                file,
                o.level,
                o.max_lines,
                o.tail_lines,
                true,
            ),
            Err(e) => reads(raw, file, rest) == Err::<PlanView, PlanError<Seq<char>>>(e) && reads(
                raw,
                file,
                seq![word] + rest,
            ) == Err::<PlanView, PlanError<Seq<char>>>(e),
        },
{
    let all = seq![word] + rest;
    assert(all[0] == word && all.skip(1) =~= rest);
    lemma_options_differ();
    lemma_reads(raw, file, all);
    lemma_reads(raw, file, rest);
    let o = planning::default_options();
    lemma_merged(rest, o);
    lemma_merged(rest, ReadOptions { line_numbers: true, ..o });
}

/// The number behind an option for the first lines is how many are shown, unless a later one
/// says otherwise; without a number, or with something else, there is no plan.
pub proof fn law_max_lines(
    raw: Seq<char>,
    file: Seq<char>,
    word: Seq<char>,
    value: Seq<char>,
    rest: Seq<Seq<char>>,
)
    requires
        word == "--max-lines"@ || word == "-m"@,
    ensures
        reads(raw, file, seq![word]) == Err::<PlanView, PlanError<Seq<char>>>(
            PlanError::MissingMaxLines,
        ),
        match number::parse_unsigned(value, usize::MAX as nat) {
            None => reads(raw, file, seq![word, value] + rest) == Err::<
                PlanView,
                PlanError<Seq<char>>,
            >(PlanError::InvalidMaxLines(value)),
            Some(n) => match planning::read_options(rest, planning::default_options()) {
                Ok(o) => reads(raw, file, rest) == file_shown(
                    raw,
                    file,
                    o.level,
                    o.max_lines,
                    o.tail_lines,
                    o.line_numbers,
                ) && reads(raw, file, seq![word, value] + rest) == file_shown(
                    raw,
                    file,
                    o.level,
                    if o.max_lines is Some {
                        o.max_lines
                    } else {
                        Some(n as usize)
                    },
                    o.tail_lines,
                    o.line_numbers,
                ),
                Err(e) => reads(raw, file, rest) == Err::<PlanView, PlanError<Seq<char>>>(e)
                    && reads(raw, file, seq![word, value] + rest) == Err::<
                    PlanView,
                    PlanError<Seq<char>>,
                >(e),
            },
        },
{
    let all = seq![word, value] + rest;
    assert(all[0] == word && all[1] == value && all.skip(2) =~= rest);
    lemma_options_differ();
    lemma_reads(raw, file, seq![word]);
    assert(seq![word][0] == word);
    lemma_reads(raw, file, all);
    lemma_reads(raw, file, rest);
    let o = planning::default_options();
    lemma_merged(rest, o);
    if planning::line_number(value) is Some {
        lemma_merged(rest, ReadOptions { max_lines: planning::line_number(value), ..o });
    }
}

/// The number behind the option for the last lines is how many are shown, unless a later one
/// says otherwise; without a number, or with something else, there is no plan.
pub proof fn law_tail_lines(
    raw: Seq<char>,
    file: Seq<char>,
    value: Seq<char>,
    rest: Seq<Seq<char>>,
)
    ensures
        reads(raw, file, seq!["--tail-lines"@]) == Err::<PlanView, PlanError<Seq<char>>>(
            PlanError::MissingTailLines,
        ),
        match number::parse_unsigned(value, usize::MAX as nat) {
            None => reads(raw, file, seq!["--tail-lines"@, value] + rest) == Err::<
                PlanView,
                PlanError<Seq<char>>,
            >(PlanError::InvalidTailLines(value)),
            Some(n) => match planning::read_options(rest, planning::default_options()) {
                Ok(o) => reads(raw, file, rest) == file_shown(
                    raw,
                    file,
                    o.level,
                    o.max_lines,
                    o.tail_lines,
                    o.line_numbers,
                ) && reads(raw, file, seq!["--tail-lines"@, value] + rest) == file_shown(
                    raw,
                    file,
                    o.level,
                    o.max_lines,
                    if o.tail_lines is Some {
                        o.tail_lines
                    } else {
                        Some(n as usize)
                    },
                    o.line_numbers,
                ),
                Err(e) => reads(raw, file, rest) == Err::<PlanView, PlanError<Seq<char>>>(e)
                    && reads(raw, file, seq!["--tail-lines"@, value] + rest) == Err::<
                    PlanView,
                    PlanError<Seq<char>>,
                >(e),
            },
        },
{
    let word = "--tail-lines"@;
    let all = seq![word, value] + rest;
    assert(all[0] == word && all[1] == value && all.skip(2) =~= rest);
    lemma_options_differ();
    lemma_reads(raw, file, seq![word]);
    assert(seq![word][0] == word);
    lemma_reads(raw, file, all);
    lemma_reads(raw, file, rest);
    let o = planning::default_options();
    lemma_merged(rest, o);
    if planning::line_number(value) is Some {
        lemma_merged(rest, ReadOptions { tail_lines: planning::line_number(value), ..o });
    }
}

/// The levels by name.
pub proof fn law_level_names(name: Seq<char>)
    ensures
        filter::level_named("none"@) == Some(FilterLevel::Whole),
        filter::level_named("minimal"@) == Some(FilterLevel::Minimal),
        filter::level_named("aggressive"@) == Some(FilterLevel::Aggressive),
        name != "none"@ && name != "minimal"@ && name != "aggressive"@ ==> filter::level_named(name)
            is None,
{
    reveal_strlit("none");
    reveal_strlit("minimal");
    reveal_strlit("aggressive");
    assert("none"@[0] == 'n' && "minimal"@[0] == 'm' && "aggressive"@[0] == 'a');
}

/// The level behind its option is how much is shown, unless a later one says otherwise; without
/// a level, or with a name that is none, there is no plan.
pub proof fn law_levels(
    raw: Seq<char>,
    file: Seq<char>,
    word: Seq<char>,
    value: Seq<char>,
    rest: Seq<Seq<char>>,
)
    requires
        word == "--level"@ || word == "-l"@,
    ensures
        reads(raw, file, seq![word]) == Err::<PlanView, PlanError<Seq<char>>>(
            PlanError::MissingLevel,
        ),
        match filter::level_named(value) {
            None => reads(raw, file, seq![word, value] + rest) == Err::<
                PlanView,
                PlanError<Seq<char>>,
            >(PlanError::UnknownLevel(value)),
            Some(level) => match planning::read_options(rest, planning::default_options()) {
                Ok(o) => (forall|i: int|
                    0 <= i < rest.len() ==> (#[trigger] rest[i]) != "--level"@ && rest[i] != "-l"@)
                    ==> reads(raw, file, seq![word, value] + rest) == file_shown(
                    raw,
                    file,
                    level,
                    o.max_lines,
                    o.tail_lines,
                    o.line_numbers,
                ),
                Err(e) => reads(raw, file, rest) == Err::<PlanView, PlanError<Seq<char>>>(e)
                    && reads(raw, file, seq![word, value] + rest) == Err::<
                    PlanView,
                    PlanError<Seq<char>>,
                >(e),
            },
        },
        filter::level_named(value) is Some && rest.len() >= 2 && (rest[0] == "--level"@ || rest[0]
            == "-l"@) ==> reads(raw, file, seq![word, value] + rest) == reads(raw, file, rest),
{
    let all = seq![word, value] + rest;
    assert(all[0] == word && all[1] == value && all.skip(2) =~= rest);
    lemma_reads(raw, file, seq![word]);
    assert(seq![word][0] == word);
    lemma_reads(raw, file, all);
    lemma_reads(raw, file, rest);
    let o = planning::default_options();
    if filter::level_named(value) is Some {
        lemma_merged(rest, ReadOptions { level: filter::level_named(value)->0, ..o });
        if forall|i: int|
            0 <= i < rest.len() ==> (#[trigger] rest[i]) != "--level"@ && rest[i] != "-l"@ {
            lemma_sets_no_level(rest);
        }
    }
}

} // verus!
