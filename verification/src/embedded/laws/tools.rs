//! What is left of what the tools print.
use vstd::prelude::*;
use crate::cargo_cmd;
use crate::compact;
use crate::diff_cmd;
use crate::filter::FilterLevel;
use crate::git;
use crate::grep_cmd;
use crate::ls;
use crate::number;
use crate::prettier_cmd;
use crate::pytest_cmd;
use crate::read;
use crate::ruff_cmd;
use crate::shell_words;
use crate::text;
use crate::toml_filter;
use crate::tree;
use crate::tsc_cmd;

verus! {

/// Picking from two lists is picking from each.
pub proof fn lemma_picking_meets(
    a: Seq<Seq<char>>,
    b: Seq<Seq<char>>,
    f: spec_fn(Seq<char>) -> Option<Seq<char>>,
)
    ensures
        (a + b).filter_map(f) == a.filter_map(f) + b.filter_map(f),
    decreases b.len(),
{
    if b.len() == 0 {
        assert(a + b =~= a);
        assert(a.filter_map(f) + b.filter_map(f) =~= a.filter_map(f));
    } else {
        lemma_picking_meets(a, b.drop_last(), f);
        assert((a + b).drop_last() =~= a + b.drop_last());
        assert((a + b).filter_map(f) =~= a.filter_map(f) + b.filter_map(f));
    }
}

/// Joining a part and others.
proof fn lemma_join_first(part: Seq<char>, others: Seq<Seq<char>>, sep: Seq<char>)
    requires
        others.len() > 0,
    ensures
        text::join(seq![part] + others, sep) == part + sep + text::join(others, sep),
    decreases others.len(),
{
    let all = seq![part] + others;
    assert(all.drop_last() =~= seq![part] + others.drop_last());
    if others.len() == 1 {
        text::laws::law_join(seq![part], others[0], sep);
        assert(all =~= seq![part].push(others[0]));
    } else {
        lemma_join_first(part, others.drop_last(), sep);
        assert(text::join(all, sep) =~= part + sep + text::join(others, sep));
    }
}

/// Output is shortened line by line: a line that is left out makes no difference, and a line
/// that is shown stands above what is shown of the lines behind it.
pub proof fn law_output_is_shortened_by_lines(
    line: Seq<char>,
    rest: Seq<char>,
    f: spec_fn(Seq<char>) -> Option<Seq<char>>,
    otherwise: Seq<char>,
)
    requires
        forall|i: int| 0 <= i < line.len() ==> (#[trigger] line[i]) != '\n',
        line.len() == 0 || line.last() != '\r',
    ensures
        ({
            let report = |output: Seq<char>|
                compact::lines_or(text::lines(output).filter_map(f), otherwise);
            let others = text::lines(rest).filter_map(f);
            match f(line) {
                None => report(line + seq!['\n'] + rest) == report(rest),
                Some(s) => report(line + seq!['\n'] + rest) == if others.len() == 0 {
                    s
                } else {
                    s + "\n"@ + report(rest)
                },
            }
        }),
        compact::lines_or(text::lines(Seq::<char>::empty()).filter_map(f), otherwise) == otherwise,
{
    let others = text::lines(rest).filter_map(f);
    text::laws::law_lines(line, rest);
    text::laws::law_lines(Seq::empty(), rest);
    lemma_picking_meets(seq![line], text::lines(rest), f);
    Seq::lemma_filter_map_singleton(line, f);
    match f(line) {
        None => {
            assert(Seq::<Seq<char>>::empty() + others =~= others);
        },
        Some(s) => {
            if others.len() == 0 {
                assert(seq![s] + others =~= seq![s]);
            } else {
                lemma_join_first(s, others, "\n"@);
            }
        },
    }
}

/// A text that is too long is cut to the width, and ends in three dots where they fit.
pub proof fn law_lines_are_cut(s: Seq<char>, n: nat)
    ensures
        s.len() <= n ==> compact::clip(s, n) == s,
        s.len() > n ==> compact::clip(s, n).len() == n,
        s.len() > n && n >= 3 ==> compact::clip(s, n) == s.take(n - 3) + seq!['.', '.', '.'],
        s.len() > n && n < 3 ==> compact::clip(s, n) == s.take(n as int),
{
    reveal_strlit("...");
    assert("..."@ =~= seq!['.', '.', '.']);
}

/// A list that is too long keeps its first parts, behind which it is said that there are more.
pub proof fn law_lists_are_cut(parts: Seq<Seq<char>>, n: nat, more: Seq<char>)
    ensures
        parts.len() <= n ==> compact::cap(parts, n, more) == parts,
        parts.len() > n ==> compact::cap(parts, n, more) == parts.take(n as int) + seq![more],
{
    if parts.len() > n {
        assert(parts.take(n as int).push(more) =~= parts.take(n as int) + seq![more]);
    }
}

/// A line is left out as noise if it is blank, if it starts with one of the starts behind its
/// indentation, or if it ends with one of the ends; any other is shown as it is.
pub proof fn law_noise_is_left_out(
    indentation: Seq<char>,
    body: Seq<char>,
    starts: Seq<Seq<char>>,
    ends: Seq<Seq<char>>,
)
    requires
        forall|i: int| 0 <= i < indentation.len() ==> text::is_white(#[trigger] indentation[i]),
        body.len() > 0 ==> !text::is_white(body[0]),
    ensures
        ({
            let line = indentation + body;
            let shown = compact::without_noise(starts, ends)(line);
            &&& body.len() == 0 ==> shown is None
            &&& (exists|i: int|
                0 <= i < starts.len() && (#[trigger] starts[i]).is_prefix_of(body)) ==> shown
                is None
            &&& (exists|i: int| 0 <= i < ends.len() && (#[trigger] ends[i]).is_suffix_of(line))
                ==> shown is None
            &&& body.len() > 0 && (forall|i: int|
                0 <= i < starts.len() ==> !(#[trigger] starts[i]).is_prefix_of(body)) && (forall|
                i: int,
            | 0 <= i < ends.len() ==> !(#[trigger] ends[i]).is_suffix_of(line)) ==> shown == Some(
                line,
            )
        }),
{
    let line = indentation + body;
    let ink = text::ink();
    let n = indentation.len() as int;
    assert forall|i: int| 0 <= i < n implies !ink(#[trigger] line[i]) by {
        assert(line[i] == indentation[i]);
    }
    if body.len() > 0 {
        assert(line[n] == body[0]);
        text::lemma_ink_survives_trim(line, n);
    } else {
        let e = Seq::<char>::empty();
        text::laws::law_trim(indentation, e, e);
        assert(indentation + e + e =~= line);
    }
    text::lemma_index_where(line, ink, n);
    assert(text::trim_start(line) =~= body);
}

/// Branches are shown trimmed, without blank lines and without pointers to other branches.
pub proof fn law_branches(line: Seq<char>)
    ensures
        ({
            let t = text::trim(line);
            &&& t.len() == 0 || text::contains(t, "->"@) ==> git::branch_line(line) is None
            &&& t.len() > 0 && !text::contains(t, "->"@) ==> git::branch_line(line) == Some(t)
        }),
{
}

/// Commits and stashes are shown trimmed and cut to eighty characters, without blank lines.
pub proof fn law_commits_and_stashes(line: Seq<char>)
    ensures
        ({
            let t = text::trim(line);
            &&& t.len() == 0 ==> git::list_line(line) is None
            &&& 0 < t.len() <= 80 ==> git::list_line(line) == Some(t)
            &&& t.len() > 80 ==> git::list_line(line) == Some(
                t.take(77) + seq!['.', '.', '.'],
            )
        }),
{
    law_lines_are_cut(text::trim(line), 80);
}

/// Work trees are shown by their columns, with one space between them.
pub proof fn law_work_trees(line: Seq<char>)
    ensures
        text::words(line).len() == 0 ==> git::worktree_line(line) is None,
        text::words(line).len() > 0 ==> git::worktree_line(line) == Some(
            text::join(text::words(line), " "@),
        ),
{
}

/// In a short status the branch is marked and is no change; every other line that is not blank
/// is a change and is shown as it is.
pub proof fn law_short_status(name: Seq<char>, line: Seq<char>)
    ensures
        git::status_line("## "@ + name) == Some("📌 "@ + name),
        git::change_line("## "@ + name) is None,
        text::trim(line).len() == 0 ==> git::status_line(line) is None && git::change_line(line)
            is None,
        text::trim(line).len() > 0 && !"## "@.is_prefix_of(line) ==> git::status_line(line) == Some(
            line,
        ) && git::change_line(line) == Some(line),
{
    reveal_strlit("## ");
    let head = "## "@ + name;
    assert(head[0] == '#');
    text::lemma_ink_survives_trim(head, 0);
    assert(head.subrange(0, 3) =~= "## "@);
    assert(head.skip(3) =~= name);
}

/// A short status without changes says that it is clean, below what else it says.
pub proof fn law_clean_status(output: Seq<char>)
    ensures
        ({
            let list = text::lines(output);
            let shown = list.filter_map(|l: Seq<char>| git::status_line(l));
            let changed = exists|i: int|
                0 <= i < list.len() && git::change_line(#[trigger] list[i]) is Some;
            &&& changed ==> git::status_report(output) == text::join(shown, "\n"@)
            &&& !changed ==> git::status_report(output) == text::join(shown.push("clean"@), "\n"@)
        }),
{
    let f = |l: Seq<char>| git::change_line(l);
    lemma_picks_some(text::lines(output), f);
}

/// Something is picked if and only if something can be.
proof fn lemma_picks_some(list: Seq<Seq<char>>, f: spec_fn(Seq<char>) -> Option<Seq<char>>)
    ensures
        list.filter_map(f).len() > 0 <==> exists|i: int|
            0 <= i < list.len() && f(#[trigger] list[i]) is Some,
    decreases list.len(),
{
    if list.len() > 0 {
        let front = list.drop_last();
        lemma_picks_some(front, f);
        if f(list.last()) is Some {
            assert(f(list[list.len() - 1]) is Some);
        }
        if exists|i: int| 0 <= i < front.len() && f(#[trigger] front[i]) is Some {
            let i = choose|i: int| 0 <= i < front.len() && f(#[trigger] front[i]) is Some;
            assert(f(list[i]) is Some);
        }
        if exists|i: int| 0 <= i < list.len() && f(#[trigger] list[i]) is Some {
            let i = choose|i: int| 0 <= i < list.len() && f(#[trigger] list[i]) is Some;
            if i < front.len() {
                assert(f(front[i]) is Some);
            }
        }
    }
}

/// In a diff the file is named without its prefix, hunks are shown as they are, and lines that
/// were added or removed are indented. What names the two versions is left out.
pub proof fn law_diff_lines(x: Seq<char>, name: Seq<char>)
    requires
        name.len() > 0,
        forall|i: int| 0 <= i < name.len() ==> !text::is_white(#[trigger] name[i]),
    ensures
        git::diff_line("diff --git "@ + x + " b/"@ + name) == Some("📄 "@ + name),
        git::diff_line("@@"@ + x) == Some("@@"@ + x),
        !"++"@.is_prefix_of(x) ==> git::diff_line("+"@ + x) == Some("  +"@ + x),
        !"--"@.is_prefix_of(x) ==> git::diff_line("-"@ + x) == Some("  -"@ + x),
        git::diff_line("+++"@ + x) is None,
        git::diff_line("---"@ + x) is None,
        git::diff_line(" "@ + x) is None,
        git::diff_line("index "@ + x) is None,
{
    reveal_strlit("diff --git ");
    reveal_strlit(" b/");
    reveal_strlit("b/");
    reveal_strlit("@@");
    reveal_strlit("+");
    reveal_strlit("-");
    reveal_strlit("++");
    reveal_strlit("--");
    reveal_strlit("+++");
    reveal_strlit("---");
    reveal_strlit(" ");
    reveal_strlit("  ");
    reveal_strlit("  +");
    reveal_strlit("  -");
    reveal_strlit("index ");
    let d = "diff --git "@ + x + " b/"@ + name;
    assert(d.subrange(0, 11) =~= "diff --git "@);
    let word = "b/"@ + name;
    let front = "diff --git "@ + x + seq![' '];
    assert(d =~= front + word);
    assert forall|i: int| 0 <= i < word.len() implies !text::is_white(#[trigger] word[i]) by {
        if i >= 2 {
            assert(word[i] == name[i - 2]);
        }
    }
    text::law_words_meet_in_white_space(front, word);
    text::laws::law_words(word);
    assert(text::words(d).last() == word);
    assert(word.subrange(0, 2) =~= "b/"@ && word.skip(2) =~= name);
    lemma_hunk(x);
    lemma_changed('+', x);
    lemma_changed('-', x);
    let added = "+"@ + x;
    assert(added =~= seq!['+'] + x);
    assert("  +"@ + x =~= "  "@ + added);
    let removed = "-"@ + x;
    assert(removed =~= seq!['-'] + x);
    assert("  -"@ + x =~= "  "@ + removed);
    assert("+++"@ + x =~= seq!['+'] + ("++"@ + x));
    assert("---"@ + x =~= seq!['-'] + ("--"@ + x));
    lemma_changed('+', "++"@ + x);
    lemma_changed('-', "--"@ + x);
    assert(("++"@ + x).subrange(0, 2) =~= "++"@);
    assert(("--"@ + x).subrange(0, 2) =~= "--"@);
    lemma_no_change(" "@ + x);
    lemma_no_change("index "@ + x);
}

/// A hunk is shown as it is.
proof fn lemma_hunk(x: Seq<char>)
    ensures
        git::diff_line("@@"@ + x) == Some("@@"@ + x),
{
    reveal_strlit("@@");
    reveal_strlit("diff --git ");
    let s = "@@"@ + x;
    assert(s[0] == '@' && s.subrange(0, 2) =~= "@@"@);
    if "diff --git "@.is_prefix_of(s) {
        assert(s.subrange(0, 11)[0] == 'd');
    }
}

/// What starts with a character that marks a change.
proof fn lemma_changed(c: char, x: Seq<char>)
    requires
        c == '+' || c == '-',
    ensures
        ({
            let twice = x.len() >= 2 && x[0] == c && x[1] == c;
            git::diff_line(seq![c] + x) == if twice {
                None
            } else {
                Some("  "@ + (seq![c] + x))
            }
        }),
        c == '+' ==> ("++"@.is_prefix_of(x) <==> x.len() >= 2 && x[0] == '+' && x[1] == '+'),
        c == '-' ==> ("--"@.is_prefix_of(x) <==> x.len() >= 2 && x[0] == '-' && x[1] == '-'),
{
    reveal_strlit("@@");
    reveal_strlit("diff --git ");
    reveal_strlit("+");
    reveal_strlit("-");
    reveal_strlit("++");
    reveal_strlit("--");
    reveal_strlit("+++");
    reveal_strlit("---");
    let s = seq![c] + x;
    assert(s[0] == c);
    if "diff --git "@.is_prefix_of(s) {
        assert(s.subrange(0, 11)[0] == 'd');
    }
    if "@@"@.is_prefix_of(s) {
        assert(s.subrange(0, 2)[0] == '@');
    }
    assert(s.subrange(0, 1) =~= seq![c]);
    assert("+"@ =~= seq!['+'] && "-"@ =~= seq!['-']);
    if x.len() >= 2 {
        let y = s.subrange(0, 3);
        let z = x.subrange(0, 2);
        assert(y[0] == c && y[1] == x[0] && y[2] == x[1]);
        assert(z[0] == x[0] && z[1] == x[1]);
        if x[0] == c && x[1] == c {
            assert(y =~= seq![c, c, c]);
            assert(z =~= seq![c, c]);
            assert("+++"@ =~= seq!['+', '+', '+'] && "---"@ =~= seq!['-', '-', '-']);
            assert("++"@ =~= seq!['+', '+'] && "--"@ =~= seq!['-', '-']);
        }
    }
}

/// What starts with another character is no change.
proof fn lemma_no_change(s: Seq<char>)
    requires
        s.len() > 0,
        s[0] == ' ' || s[0] == 'i',
    ensures
        git::diff_line(s) is None,
{
    reveal_strlit("@@");
    reveal_strlit("diff --git ");
    reveal_strlit("+");
    reveal_strlit("-");
    if "diff --git "@.is_prefix_of(s) {
        assert(s.subrange(0, 11)[0] == 'd');
    }
    if "@@"@.is_prefix_of(s) {
        assert(s.subrange(0, 2)[0] == '@');
    }
    if "+"@.is_prefix_of(s) {
        assert(s.subrange(0, 1)[0] == '+');
    }
    if "-"@.is_prefix_of(s) {
        assert(s.subrange(0, 1)[0] == '-');
    }
}

/// A log is the log of its arguments, in their order; with a way of writing commits unless they
/// say one, and with ten commits unless they set a limit.
pub proof fn law_log_commands(args: Seq<Seq<char>>)
    ensures
        ({
            let written = exists|i: int|
                0 <= i < args.len() && ("--oneline"@.is_prefix_of(#[trigger] args[i])
                    || "--pretty"@.is_prefix_of(args[i]) || "--format"@.is_prefix_of(args[i]));
            let limited = git::log_limit(args) is Some;
            let words = (if written {
                seq!["git"@, "log"@]
            } else {
                seq!["git"@, "log"@, "--pretty=format:%h %s (%ar) <%an>"@]
            }) + (if limited {
                args
            } else {
                seq!["-10"@] + args
            });
            &&& git::log_command(args).0 == shell_words::command_line(words)
            &&& git::log_command(args).1 == if limited {
                git::log_limit(args)->0
            } else {
                10
            }
            &&& git::log_command(args).2 == limited
        }),
{
    let written = exists|i: int|
        0 <= i < args.len() && ("--oneline"@.is_prefix_of(#[trigger] args[i])
            || "--pretty"@.is_prefix_of(args[i]) || "--format"@.is_prefix_of(args[i]));
    assert(git::has_format(args) == written);
    assert(git::log_words(args) =~= (if written {
        seq!["git"@, "log"@]
    } else {
        seq!["git"@, "log"@, "--pretty=format:%h %s (%ar) <%an>"@]
    }) + (if git::log_limit(args) is Some {
        args
    } else {
        seq!["-10"@] + args
    }));
}

/// The first argument that sets a limit sets it, in one of four ways; words that are no options
/// are passed over.
pub proof fn law_log_limits(n: nat, word: Seq<char>, rest: Seq<Seq<char>>)
    requires
        n <= usize::MAX,
        word.len() == 0 || word[0] != '-',
    ensures
        git::log_limit(seq!["-n"@, number::decimal(n)] + rest) == Some(n),
        git::log_limit(seq!["-"@ + number::decimal(n)] + rest) == Some(n),
        git::log_limit(seq!["-n"@ + number::decimal(n)] + rest) == Some(n),
        git::log_limit(seq!["--max-count="@ + number::decimal(n)] + rest) == Some(n),
        git::log_limit(seq![word] + rest) == git::log_limit(rest),
        git::log_limit(Seq::<Seq<char>>::empty()) is None,
{
    reveal_strlit("-n");
    reveal_strlit("-");
    reveal_strlit("--max-count=");
    let d = number::decimal(n);
    number::lemma_decimal(n);
    assert(number::is_digit(d[0]));
    number::laws::law_numbers_are_read(n, usize::MAX as nat, 0);
    let a = "-"@ + d;
    let b = "-n"@ + d;
    let c = "--max-count="@ + d;
    assert(a[0] == '-' && a[1] == d[0] && a.skip(1) =~= d && a.subrange(0, 1) =~= "-"@);
    assert(b[1] == 'n' && b.skip(2) =~= d && b.subrange(0, 2) =~= "-n"@ && b.len() > 2);
    assert(c.skip(12) =~= d && c.subrange(0, 12) =~= "--max-count="@ && c.len() > 12);
    if "--max-count="@.is_prefix_of(a) {
        assert(a.subrange(0, 12)[1] == '-');
    }
    if "-n"@.is_prefix_of(a) {
        assert(a.subrange(0, 2)[1] == 'n');
    }
    if "--max-count="@.is_prefix_of(b) {
        assert(b.subrange(0, 12)[1] == '-');
    }
    assert((seq!["-n"@, d] + rest)[0] == "-n"@ && (seq!["-n"@, d] + rest)[1] == d);
    assert((seq![a] + rest)[0] == a && (seq![b] + rest)[0] == b && (seq![c] + rest)[0] == c);
    assert(a.len() >= 2 && a != "-n"@ && b != "-n"@ && c != "-n"@);
    let w = seq![word] + rest;
    assert(w[0] == word && w.drop_first() =~= rest);
    if "-"@.is_prefix_of(word) {
        assert(word.subrange(0, 1)[0] == '-');
    }
    if "-n"@.is_prefix_of(word) {
        assert(word.subrange(0, 2)[0] == '-');
    }
    if "--max-count="@.is_prefix_of(word) {
        assert(word.subrange(0, 12)[0] == '-');
    }
}

/// A search that printed nothing found nothing; one that failed is shown as it is; any other is
/// shown by the number of its hits, the path, and as many hits as may be shown.
pub proof fn law_searches_are_shown(
    output: Seq<char>,
    pattern: Seq<char>,
    path: Seq<char>,
    width: nat,
    count: nat,
)
    ensures
        ({
            let t = text::trim(output);
            let report = |ok: bool|
                grep_cmd::search_report(output, pattern, path, width, count, false, ok);
            let hits = text::lines(output).filter_map(
                |l: Seq<char>| grep_cmd::hit_line(l, pattern, width, false),
            );
            let head = "🔍 "@ + number::decimal(hits.len()) + " in "@ + path + ":\n"@;
            &&& t.len() == 0 ==> report(true) == "🔍 0 for '"@ + pattern + "'"@ && report(false)
                == "🔍 0 for '"@ + pattern + "'"@
            &&& t.len() > 0 ==> report(false) == t
            &&& t.len() > 0 && hits.len() <= count ==> report(true) == head + text::join(hits, "\n"@)
            &&& t.len() > 0 && hits.len() > count ==> report(true) == head + text::join(
                hits.take(count as int) + seq![
                    "... +"@ + number::decimal((hits.len() - count) as nat) + " more"@,
                ],
                "\n"@,
            )
        }),
{
    let hits = grep_cmd::hits(output, pattern, width, false);
    law_lists_are_cut(
        hits,
        count,
        "... +"@ + number::decimal((hits.len() - count) as nat) + " more"@,
    );
}

/// A hit is shown cut to the width; blank lines are left out.
pub proof fn law_hits(line: Seq<char>, pattern: Seq<char>, width: nat)
    ensures
        text::trim(line).len() == 0 ==> grep_cmd::hit_line(line, pattern, width, false) is None,
        text::trim(line).len() > 0 ==> grep_cmd::hit_line(line, pattern, width, false) == Some(
            compact::clip(line, width),
        ),
{
}

/// A search runs `rg` where there is one, and else `grep`; both with line numbers, with the
/// options, the pattern and the path that were given.
pub proof fn law_search_commands(pattern: Seq<char>, path: Seq<char>, extra: Seq<Seq<char>>)
    ensures
        grep_cmd::search_command(pattern, path, None, extra)
            == "if command -v rg >/dev/null 2>&1; then "@ + shell_words::command_line(
            seq!["rg"@, "-n"@, "--no-heading"@] + extra.filter_map(
                |a: Seq<char>| grep_cmd::rg_arg(a),
            ) + seq!["--"@, pattern, path],
        ) + "; else "@ + shell_words::command_line(
            seq!["grep"@, "-rn"@] + extra + seq!["--"@, pattern, path],
        ) + "; fi"@,
{
    let x = extra.filter_map(|a: Seq<char>| grep_cmd::rg_arg(a));
    assert(grep_cmd::rg_words(pattern, path, None, extra) =~= seq!["rg"@, "-n"@, "--no-heading"@] + x
        + seq!["--"@, pattern, path]);
    assert(grep_cmd::grep_words(pattern, path, None, extra) =~= seq!["grep"@, "-rn"@] + extra + seq![
        "--"@,
        pattern,
        path,
    ]);
}

/// Of a file the last lines are shown where their number is given, else the first where theirs
/// is, with a note on how many are missing.
pub proof fn law_parts_of_files(list: Seq<Seq<char>>, n: usize, other: Option<usize>)
    ensures
        read::window(list, None, None) == list,
        list.len() <= n ==> read::window(list, other, Some(n)) == list,
        list.len() > n ==> read::window(list, other, Some(n)) == list.skip(list.len() - n),
        list.len() <= n ==> read::window(list, Some(n), None) == list,
        list.len() > n ==> read::window(list, Some(n), None) == list.take(n as int) + seq![
            "... ("@ + number::decimal((list.len() - n) as nat) + " more lines)"@,
        ],
{
    law_lists_are_cut(
        list,
        n as nat,
        "... ("@ + number::decimal((list.len() - n) as nat) + " more lines)"@,
    );
}

/// At the level of everything no line is left out; comments are left out in files that have
/// them, and blank lines only at the highest level.
pub proof fn law_levels_of_files(line: Seq<char>, comments: read::Comments)
    ensures
        read::source_line(line, FilterLevel::Whole, comments) == Some(line),
        read::source_line(line, FilterLevel::Minimal, read::Comments::Unknown) == Some(line),
        text::trim(line).len() == 0 ==> read::source_line(line, FilterLevel::Aggressive, comments)
            is None,
        comments == read::Comments::Slashes && "//"@.is_prefix_of(text::trim_start(line))
            ==> read::source_line(line, FilterLevel::Aggressive, comments) is None,
        comments == read::Comments::Slashes && "//"@.is_prefix_of(text::trim_start(line))
            && !"///"@.is_prefix_of(text::trim_start(line)) && !"//!"@.is_prefix_of(
            text::trim_start(line),
        ) ==> read::source_line(line, FilterLevel::Minimal, comments) is None,
{
}

/// What is shown of an entry of a listing: directories by name, other entries by name and size.
/// Hidden and noisy entries are shown only where everything is.
pub proof fn law_entries(line: Seq<char>, name: Seq<char>, show_all: bool)
    requires
        text::words(line).len() >= 9,
        text::join(text::words(line).skip(8), " "@) == name,
        name != "."@ && name != ".."@,
        text::words(line)[0].len() > 0,
    ensures
        ({
            let w = text::words(line);
            let dir = w[0][0] == 'd';
            let hidden = (name.len() > 0 && name[0] == '.') || name == "node_modules"@ || name
                == "target"@ || name == "__pycache__"@;
            &&& hidden && !show_all ==> ls::entry(line, show_all, true) is None && ls::entry(
                line,
                show_all,
                false,
            ) is None
            &&& (show_all || !hidden) && dir ==> ls::entry(line, show_all, true) == Some(
                name + "/"@,
            ) && ls::entry(line, show_all, false) is None
            &&& (show_all || !hidden) && !dir ==> ls::entry(line, show_all, false) == Some(
                name + " "@ + w[4],
            ) && ls::entry(line, show_all, true) is None
        }),
{
    reveal_strlit("d");
    let w = text::words(line)[0];
    assert(w.subrange(0, 1)[0] == w[0]);
    if w[0] == 'd' {
        assert(w.subrange(0, 1) =~= "d"@);
    }
}

/// A comparison of one file is shown by its name, how many lines were added and removed, and
/// the changes.
pub proof fn law_comparisons_are_counted(name: Seq<char>, body: Seq<Seq<char>>)
    requires
        forall|i: int| 0 <= i < name.len() ==> (#[trigger] name[i]) != '\t',
        !"b/"@.is_prefix_of(name),
    ensures
        diff_cmd::heading("+++ "@ + name, body) == "📄 "@ + name + " (+"@ + number::decimal(
            body.filter_map(|l: Seq<char>| diff_cmd::added_line(l)).len(),
        ) + " -"@ + number::decimal(
            body.filter_map(|l: Seq<char>| diff_cmd::removed_line(l)).len(),
        ) + ")"@,
{
    reveal_strlit("+++ ");
    let line = "+++ "@ + name;
    assert(line.subrange(0, 4) =~= "+++ "@ && line.skip(4) =~= name);
    text::lemma_index_where(name, text::only('\t'), name.len() as int);
    assert(name.take(name.len() as int) =~= name);
}

/// The lists of `git` are made line by line, each with what it says if there is nothing to
/// list.
pub proof fn law_lists_of_git(output: Seq<char>, limit: nat, max_lines: nat)
    ensures
        ({
            let list = text::lines(output);
            let commits = list.filter_map(|l: Seq<char>| git::list_line(l));
            let changes = list.filter_map(|l: Seq<char>| git::diff_line(l));
            &&& git::branch_report(output) == compact::lines_or(
                list.filter_map(|l: Seq<char>| git::branch_line(l)),
                "No branches"@,
            )
            &&& git::worktree_report(output) == compact::lines_or(
                list.filter_map(|l: Seq<char>| git::worktree_line(l)),
                "No worktrees"@,
            )
            &&& git::stash_list_report(output) == compact::lines_or(commits, "No stashes"@)
            &&& git::log_report(output, limit, true) == compact::lines_or(commits, "No commits"@)
            &&& commits.len() <= limit ==> git::log_report(output, limit, false)
                == compact::lines_or(commits, "No commits"@)
            &&& commits.len() > limit ==> git::log_report(output, limit, false)
                == compact::lines_or(commits.take(limit as int), "No commits"@)
            &&& changes.len() <= max_lines ==> git::diff_report(output, max_lines) == text::join(
                changes,
                "\n"@,
            )
            &&& changes.len() > max_lines ==> git::diff_report(output, max_lines) == text::join(
                changes.take(max_lines as int) + seq!["... (more changes truncated)"@],
                "\n"@,
            )
        }),
{
    let changes = text::lines(output).filter_map(|l: Seq<char>| git::diff_line(l));
    law_lists_are_cut(changes, max_lines, "... (more changes truncated)"@);
}

/// Which lines of the other tools are noise, and what is said if nothing is left.
pub proof fn law_noise_of_tools(output: Seq<char>)
    ensures
        ({
            let progress = seq![
                "Blocking"@,
                "Checking"@,
                "Compiling"@,
                "Downloaded"@,
                "Downloading"@,
                "Finished"@,
                "Locking"@,
                "Updating"@,
            ];
            let tests = progress + seq!["Doc-tests"@, "Running"@, "running "@];
            &&& cargo_cmd::build_report(output) == compact::compact(
                output,
                progress,
                seq![],
                "✓ cargo build"@,
            )
            &&& cargo_cmd::clippy_report(output) == compact::compact(
                output,
                progress,
                seq![],
                "✓ cargo clippy"@,
            )
            &&& cargo_cmd::install_report(output) == compact::compact(
                output,
                progress,
                seq![],
                "✓ cargo install"@,
            )
            &&& cargo_cmd::test_report(output) == compact::compact(
                output,
                tests,
                seq![" ... ok"@],
                "✓ cargo test"@,
            )
            &&& git::long_status_report(output) == compact::compact(
                output,
                seq!["(use \"git"@],
                seq![],
                "clean"@,
            )
            &&& tree::tree_report(output) == compact::compact(output, seq![], seq![], "(empty)"@)
            &&& tsc_cmd::tsc_report(output) == compact::compact(output, seq![], seq![], "✓ tsc"@)
            &&& prettier_cmd::prettier_report(output) == compact::compact(
                output,
                seq!["Checking formatting..."@],
                seq![],
                "✓ prettier"@,
            )
            &&& pytest_cmd::pytest_report(output) == compact::compact(
                output,
                seq!["cachedir:"@, "collected "@, "platform "@, "plugins:"@, "rootdir:"@],
                seq!["%]"@, " PASSED"@],
                "✓ pytest"@,
            )
            &&& ruff_cmd::format_report(output) == compact::compact(
                output,
                seq![],
                seq![],
                "✓ ruff format"@,
            )
            &&& toml_filter::filtered(toml_filter::builtin_filters()[0], output)
                == compact::compact(output, seq!["make["@], seq![], "make: ok"@)
        }),
{
}

/// Output without noise is made line by line.
pub proof fn law_noise_is_left_out_by_lines(
    output: Seq<char>,
    starts: Seq<Seq<char>>,
    ends: Seq<Seq<char>>,
    otherwise: Seq<char>,
)
    ensures
        compact::compact(output, starts, ends, otherwise) == compact::lines_or(
            text::lines(output).filter_map(compact::without_noise(starts, ends)),
            otherwise,
        ),
{
}

/// A listing names the directories first and then the other entries.
pub proof fn law_listings(output: Seq<char>, show_all: bool)
    ensures
        ls::listing(output, show_all) == compact::lines_or(
            text::lines(output).filter_map(|l: Seq<char>| ls::entry(l, show_all, true))
                + text::lines(output).filter_map(|l: Seq<char>| ls::entry(l, show_all, false)),
            "(empty)"@,
        ),
{
}

/// Of the options of `ls` those of one letter are kept that are not asked for anyway, long ones
/// are kept but for `--all`, and what is no option is a path.
pub proof fn law_listing_options(letters: Seq<char>, arg: Seq<char>)
    ensures
        ({
            let left = letters.filter(|c: char| c != 'l' && c != 'a' && c != 'h');
            letters.len() > 0 && letters[0] != '-' ==> {
                &&& left.len() == 0 ==> ls::extra_flag("-"@ + letters) is None
                &&& left.len() > 0 ==> ls::extra_flag("-"@ + letters) == Some("-"@ + left)
                &&& ls::path_arg("-"@ + letters) is None
            }
        }),
        "--"@.is_prefix_of(arg) && arg != "--all"@ ==> ls::extra_flag(arg) == Some(arg),
        ls::extra_flag("--all"@) is None,
        arg.len() <= 1 || arg[0] != '-' ==> ls::extra_flag(arg) is None && ls::path_arg(arg) == Some(
            arg,
        ),
{
    reveal_strlit("-");
    reveal_strlit("--");
    reveal_strlit("--all");
    reveal_strlit("lah");
    let x = "-"@ + letters;
    assert(x.skip(1) =~= letters);
    if "--"@.is_prefix_of(x) {
        assert(x.subrange(0, 2)[1] == '-');
    }
    if letters.len() > 0 && letters[0] != '-' {
        assert(x[1] == letters[0]);
        assert("--all"@[1] == '-');
    }
    if "--"@.is_prefix_of(arg) {
        assert(arg.subrange(0, 2)[0] == '-');
    }
    let p = |c: char| !"lah"@.contains(c);
    let q = |c: char| c != 'l' && c != 'a' && c != 'h';
    assert forall|c: char| #[trigger] p(c) == q(c) by {
        let w = "lah"@;
        assert(w[0] == 'l' && w[1] == 'a' && w[2] == 'h');
        if w.contains(c) {
            let i = choose|i: int| 0 <= i < w.len() && w[i] == c;
            assert(i == 0 || i == 1 || i == 2);
        }
    }
    assert(p =~= q);
}

/// Of the options of `grep` those of one letter are handed to `rg` that it does not have
/// anyway; so are long ones but for `--recursive`.
pub proof fn law_search_options(letters: Seq<char>, arg: Seq<char>)
    ensures
        ({
            let left = letters.filter(|c: char| c != 'r' && c != 'R' && c != 'n' && c != 'E');
            letters.len() == 0 || letters[0] != '-' ==> {
                &&& left.len() == 0 ==> grep_cmd::rg_arg("-"@ + letters) is None
                &&& left.len() > 0 ==> grep_cmd::rg_arg("-"@ + letters) == Some("-"@ + left)
            }
        }),
        grep_cmd::rg_arg("--recursive"@) is None,
        "--"@.is_prefix_of(arg) && arg != "--recursive"@ ==> grep_cmd::rg_arg(arg) == Some(arg),
        arg.len() == 0 || arg[0] != '-' ==> grep_cmd::rg_arg(arg) == Some(arg),
{
    reveal_strlit("-");
    reveal_strlit("--");
    reveal_strlit("--recursive");
    reveal_strlit("rRnE");
    let x = "-"@ + letters;
    assert(x.skip(1) =~= letters);
    assert(x.subrange(0, 1) =~= "-"@);
    if "--"@.is_prefix_of(x) {
        assert(x.subrange(0, 2)[1] == '-');
    }
    assert("--recursive"@.len() == 11 && "--recursive"@[1] == '-' && "--recursive"@[0] == '-');
    if "-"@.is_prefix_of(arg) {
        assert(arg.subrange(0, 1)[0] == '-');
    }
    let p = |c: char| !"rRnE"@.contains(c);
    let q = |c: char| c != 'r' && c != 'R' && c != 'n' && c != 'E';
    assert forall|c: char| #[trigger] p(c) == q(c) by {
        let w = "rRnE"@;
        assert(w[0] == 'r' && w[1] == 'R' && w[2] == 'n' && w[3] == 'E');
        if w.contains(c) {
            let i = choose|i: int| 0 <= i < w.len() && w[i] == c;
            assert(i == 0 || i == 1 || i == 2 || i == 3);
        }
    }
    assert(p =~= q);
}

/// In a comparison a line was added that starts with one plus sign, and removed that starts
/// with one minus sign; those are shown, indented. A line that starts with three names a
/// version.
pub proof fn law_lines_of_comparisons(x: Seq<char>)
    ensures
        !"++"@.is_prefix_of(x) ==> diff_cmd::added_line("+"@ + x) == Some("+"@ + x)
            && diff_cmd::shown_change("+"@ + x) == Some("  +"@ + x),
        !"--"@.is_prefix_of(x) ==> diff_cmd::removed_line("-"@ + x) == Some("-"@ + x)
            && diff_cmd::shown_change("-"@ + x) == Some("  -"@ + x),
        diff_cmd::added_line("+++"@ + x) is None,
        diff_cmd::removed_line("---"@ + x) is None,
        diff_cmd::removed_line("+"@ + x) is None,
        diff_cmd::added_line("-"@ + x) is None,
        x.len() == 0 || (x[0] != '+' && x[0] != '-') ==> diff_cmd::added_line(x) is None
            && diff_cmd::removed_line(x) is None && diff_cmd::shown_change(x) is None,
{
    reveal_strlit("+");
    reveal_strlit("-");
    reveal_strlit("+++");
    reveal_strlit("---");
    reveal_strlit("  ");
    reveal_strlit("  +");
    reveal_strlit("  -");
    let a = "+"@ + x;
    let b = "-"@ + x;
    assert(a =~= seq!['+'] + x && b =~= seq!['-'] + x);
    lemma_three('+', x);
    lemma_three('-', x);
    assert(a.subrange(0, 1) =~= "+"@ && b.subrange(0, 1) =~= "-"@);
    assert("  +"@ + x =~= "  "@ + a && "  -"@ + x =~= "  "@ + b);
    if "-"@.is_prefix_of(a) {
        assert(a.subrange(0, 1)[0] == '+');
    }
    if "+"@.is_prefix_of(b) {
        assert(b.subrange(0, 1)[0] == '-');
    }
    assert(("+++"@ + x).subrange(0, 3) =~= "+++"@);
    assert(("---"@ + x).subrange(0, 3) =~= "---"@);
    if "+"@.is_prefix_of(x) {
        assert(x.subrange(0, 1)[0] == '+');
    }
    if "-"@.is_prefix_of(x) {
        assert(x.subrange(0, 1)[0] == '-');
    }
}

/// Three of a character are one and two.
proof fn lemma_three(c: char, x: Seq<char>)
    requires
        c == '+' || c == '-',
    ensures
        c == '+' ==> ("+++"@.is_prefix_of(seq![c] + x) <==> "++"@.is_prefix_of(x)),
        c == '-' ==> ("---"@.is_prefix_of(seq![c] + x) <==> "--"@.is_prefix_of(x)),
{
    lemma_changed(c, x);
    reveal_strlit("+++");
    reveal_strlit("---");
    assert("+++"@ =~= seq!['+', '+', '+'] && "---"@ =~= seq!['-', '-', '-']);
    let s = seq![c] + x;
    if x.len() >= 2 {
        let y = s.subrange(0, 3);
        assert(y[0] == c && y[1] == x[0] && y[2] == x[1]);
        if x[0] == c && x[1] == c {
            assert(y =~= seq![c, c, c]);
        }
    }
}

/// A comparison is shown file by file: from each line that names a new version to the next, by
/// a heading and at most ten changes.
pub proof fn law_files_of_comparisons(
    front: Seq<Seq<char>>,
    head: Seq<char>,
    body: Seq<Seq<char>>,
    others: Seq<Seq<char>>,
)
    requires
        forall|i: int| 0 <= i < front.len() ==> !"+++ "@.is_prefix_of(#[trigger] front[i]),
        "+++ "@.is_prefix_of(head),
        forall|i: int| 0 <= i < body.len() ==> !"+++ "@.is_prefix_of(#[trigger] body[i]),
        others.len() > 0 ==> "+++ "@.is_prefix_of(others[0]),
    ensures
        ({
            let changes = body.filter_map(|l: Seq<char>| diff_cmd::shown_change(l));
            diff_cmd::sections(front + seq![head] + body + others) == seq![
                diff_cmd::heading(head, body),
            ] + (if changes.len() <= 10 {
                changes
            } else {
                changes.take(10) + seq!["  ..."@]
            }) + diff_cmd::sections(others)
        }),
        diff_cmd::sections(front) == Seq::<Seq<char>>::empty(),
{
    let p = diff_cmd::starts_file();
    let list = front + seq![head] + body + others;
    let n = front.len() as int;
    assert forall|i: int| 0 <= i < n implies !p(#[trigger] list[i]) by {
        assert(list[i] == front[i]);
    }
    assert(list[n] == head);
    text::lemma_index_where(list, p, n);
    text::lemma_index_where(front, p, n);
    let rest = list.skip(n + 1);
    assert(rest =~= body + others);
    assert forall|i: int| 0 <= i < body.len() implies !p(#[trigger] rest[i]) by {
        assert(rest[i] == body[i]);
    }
    if others.len() > 0 {
        assert(rest[body.len() as int] == others[0]);
    }
    text::lemma_index_where(rest, p, body.len() as int);
    assert(rest.take(body.len() as int) =~= body);
    lemma_skip_body(body, others);
    let changes = body.filter_map(|l: Seq<char>| diff_cmd::shown_change(l));
    law_lists_are_cut(changes, 10, "  ..."@);
}

/// What stands before the next file is not shown again.
proof fn lemma_skip_body(body: Seq<Seq<char>>, others: Seq<Seq<char>>)
    requires
        forall|i: int| 0 <= i < body.len() ==> !"+++ "@.is_prefix_of(#[trigger] body[i]),
        others.len() > 0 ==> "+++ "@.is_prefix_of(others[0]),
    ensures
        diff_cmd::sections(body + others) == diff_cmd::sections(others),
{
    let p = diff_cmd::starts_file();
    let rest = body + others;
    let n = body.len() as int;
    assert forall|i: int| 0 <= i < n implies !p(#[trigger] rest[i]) by {
        assert(rest[i] == body[i]);
    }
    if others.len() > 0 {
        assert(rest[n] == others[0]);
        text::lemma_index_where(others, p, 0);
        assert(rest.skip(n + 1) =~= others.skip(1));
    } else {
        text::lemma_index_where(others, p, 0);
    }
    text::lemma_index_where(rest, p, n);
}

/// A comparison that names no file is shown as it is, trimmed.
pub proof fn law_comparisons_are_shown(diff: Seq<char>)
    ensures
        diff_cmd::condensed(diff) == compact::lines_or(
            diff_cmd::sections(text::lines(diff)),
            text::trim(diff),
        ),
{
}

/// A file is shown from the lines that its level keeps, with their numbers if asked for, of
/// which as many are shown as asked for.
pub proof fn law_files(
    output: Seq<char>,
    name: Option<Seq<char>>,
    level: FilterLevel,
    first: Option<usize>,
    last: Option<usize>,
)
    ensures
        ({
            let list = text::lines(output).filter_map(
                |l: Seq<char>| read::source_line(l, level, read::comments_in(name)),
            );
            let numbered = Seq::new(
                list.len(),
                |i: int| number::decimal((i + 1) as nat) + " │ "@ + list[i],
            );
            &&& read::file_report(output, name, level, first, last, false) == text::join(
                read::window(list, first, last),
                "\n"@,
            )
            &&& read::file_report(output, name, level, first, last, true) == text::join(
                read::window(numbered, first, last),
                "\n"@,
            )
        }),
{
    let list = text::lines(output).filter_map(
        |l: Seq<char>| read::source_line(l, level, read::comments_in(name)),
    );
    let numbered = Seq::new(
        list.len(),
        |i: int| number::decimal((i + 1) as nat) + " │ "@ + list[i],
    );
    assert(read::numbered(list) =~= numbered);
}

/// How comments are written is known by the ending of the name.
pub proof fn law_comments(name: Seq<char>)
    ensures
        read::comments_in(None) == read::Comments::Unknown,
        ({
            let slashes = ".rs"@.is_suffix_of(name) || ".js"@.is_suffix_of(name)
                || ".ts"@.is_suffix_of(name) || ".go"@.is_suffix_of(name) || ".java"@.is_suffix_of(
                name,
            ) || ".c"@.is_suffix_of(name) || ".cpp"@.is_suffix_of(name) || ".h"@.is_suffix_of(name);
            let hash = ".py"@.is_suffix_of(name) || ".sh"@.is_suffix_of(name)
                || ".rb"@.is_suffix_of(name) || ".toml"@.is_suffix_of(name)
                || ".yaml"@.is_suffix_of(name) || ".yml"@.is_suffix_of(name);
            &&& slashes ==> read::comments_in(Some(name)) == read::Comments::Slashes
            &&& !slashes && hash ==> read::comments_in(Some(name)) == read::Comments::Hash
            &&& !slashes && !hash ==> read::comments_in(Some(name)) == read::Comments::Unknown
        }),
{
}

/// What is no comment is kept, but for blank lines at the highest level; in files whose
/// comments start with a hash sign the first line of a script is no comment.
pub proof fn law_code_is_kept(line: Seq<char>, level: FilterLevel)
    ensures
        ({
            let t = text::trim_start(line);
            let code = text::trim(line).len() > 0;
            &&& code && !"//"@.is_prefix_of(t) ==> read::source_line(
                line,
                level,
                read::Comments::Slashes,
            ) == Some(line)
            &&& code && (!"#"@.is_prefix_of(t) || "#!"@.is_prefix_of(t)) ==> read::source_line(
                line,
                level,
                read::Comments::Hash,
            ) == Some(line)
            &&& "#"@.is_prefix_of(t) && !"#!"@.is_prefix_of(t) && level != FilterLevel::Whole
                ==> read::source_line(line, level, read::Comments::Hash) is None
            &&& "///"@.is_prefix_of(t) || "//!"@.is_prefix_of(t) ==> read::source_line(
                line,
                FilterLevel::Minimal,
                read::Comments::Slashes,
            ) == Some(line)
        }),
{
}

/// What frames the findings of the linter is noise.
pub proof fn law_findings(output: Seq<char>)
    ensures
        ruff_cmd::check_report(output) == compact::compact(
            output,
            seq![
                "["@,
                "]"@,
                "{"@,
                "}"@,
                "\"cell\""@,
                "\"column\""@,
                "\"edits\""@,
                "\"end_location\""@,
                "\"fix\""@,
                "\"location\""@,
                "\"noqa_row\""@,
                "\"url\""@,
            ],
            seq![],
            "✓ ruff check"@,
        ),
{
}

} // verus!
