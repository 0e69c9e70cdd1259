//! Searching files.
use vstd::prelude::*;
use crate::compact;
use crate::compact::LineFilter;
use crate::number;
use crate::shell_words;
use crate::text;

verus! {

/// What is left of an option of `grep` for `rg`, which numbers lines and descends into
/// directories anyway.
pub open spec fn rg_arg(arg: Seq<char>) -> Option<Seq<char>> {
    if arg == "--recursive"@ {
        None
    } else if "-"@.is_prefix_of(arg) && !"--"@.is_prefix_of(arg) {
        let letters = text::without(arg.skip("-"@.len() as int), "rRnE"@);
        if letters.len() == 0 {
            None
        } else {
            Some("-"@ + letters)
        }
    } else {
        Some(arg)
    }
}

/// The words of the search with `rg`.
pub open spec fn rg_words(
    pattern: Seq<char>,
    path: Seq<char>,
    file_type: Option<Seq<char>>,
    extra: Seq<Seq<char>>,
) -> Seq<Seq<char>> {
    seq!["rg"@, "-n"@, "--no-heading"@] + (match file_type {
        Some(t) => seq!["--type"@, t],
        None => seq![],
    }) + extra.filter_map(|a: Seq<char>| rg_arg(a)) + seq!["--"@, pattern, path]
}

/// The words of the search with `grep`.
pub open spec fn grep_words(
    pattern: Seq<char>,
    path: Seq<char>,
    file_type: Option<Seq<char>>,
    extra: Seq<Seq<char>>,
) -> Seq<Seq<char>> {
    seq!["grep"@, "-rn"@] + (match file_type {
        Some(t) => seq!["--include=*."@ + t],
        None => seq![],
    }) + extra + seq!["--"@, pattern, path]
}

/// The search, with `rg` where there is one.
pub open spec fn search_command(
    pattern: Seq<char>,
    path: Seq<char>,
    file_type: Option<Seq<char>>,
    extra: Seq<Seq<char>>,
) -> Seq<char> {
    "if command -v rg >/dev/null 2>&1; then "@ + shell_words::command_line(
        rg_words(pattern, path, file_type, extra),
    ) + "; else "@ + shell_words::command_line(grep_words(pattern, path, file_type, extra))
        + "; fi"@
}

/// The first position at which `p` stands in `s`, or the length of `s` if there is
/// none.
pub open spec fn first_occurrence(s: Seq<char>, p: Seq<char>) -> int {
    text::index_where(Seq::new(s.len(), |i: int| i), |i: int| text::occurs_at(s, p, i))
}

/// A hit as it is shown: cut to the width, and where only the context counts, from
/// the first occurrence of the pattern.
pub open spec fn hit_line(
    line: Seq<char>,
    pattern: Seq<char>,
    max_line_len: nat,
    context_only: bool,
) -> Option<Seq<char>> {
    if text::trim(line).len() == 0 {
        None
    } else if context_only && text::contains(line, pattern) {
        Some(compact::clip(line.skip(first_occurrence(line, pattern)), max_line_len))
    } else {
        Some(compact::clip(line, max_line_len))
    }
}

/// The hits as they are shown.
pub open spec fn hits(
    output: Seq<char>,
    pattern: Seq<char>,
    max_line_len: nat,
    context_only: bool,
) -> Seq<Seq<char>> {
    text::lines(output).filter_map(
        |l: Seq<char>| hit_line(l, pattern, max_line_len, context_only),
    )
}

/// The result of a search as it is shown. A search that printed nothing found
/// nothing; one that failed and printed something is shown as it is.
pub open spec fn search_report(
    output: Seq<char>,
    pattern: Seq<char>,
    path: Seq<char>,
    max_line_len: nat,
    max_results: nat,
    context_only: bool,
    succeeded: bool,
) -> Seq<char> {
    if text::trim(output).len() == 0 {
        "🔍 0 for '"@ + pattern + "'"@
    } else if !succeeded {
        text::trim(output)
    } else {
        let list = hits(output, pattern, max_line_len, context_only);
        "🔍 "@ + number::decimal(list.len()) + " in "@ + path + ":\n"@ + text::join(
            compact::cap(
                list,
                max_results,
                "... +"@ + number::decimal((list.len() - max_results) as nat) + " more"@,
            ),
            "\n"@,
        )
    }
}

/// Picks the options for `rg`.
struct RgArgs;

impl LineFilter for RgArgs {
    closed spec fn shows(&self, line: Seq<char>) -> Option<Seq<char>> {
        rg_arg(line)
    }

    fn show(&self, line: &str) -> (r: Option<String>) {
        if text::same(line, "--recursive") {
            None
        } else if text::starts_with(line, "-") && !text::starts_with(line, "--") {
            let cluster = text::prefix_stripped(line, "-");
            let letters = text::without_chars(cluster.as_str(), "rRnE");
            if letters.as_str().is_empty() {
                None
            } else {
                Some(text::cat("-", letters.as_str()))
            }
        } else {
            Some(line.to_owned())
        }
    }
}

/// `s` from the first occurrence of `p`.
fn from_first(s: &str, p: &str) -> (r: String)
    requires
        text::contains(s@, p@),
    ensures
        r@ == s@.skip(first_occurrence(s@, p@)),
{
    let cs = text::chars_of(s);
    let ps = text::chars_of(p);
    let ghost all = Seq::new(s@.len(), |i: int| i);
    let ghost f = |i: int| text::occurs_at(s@, p@, i);
    let mut i: usize = 0;
    while i < cs.len() && !text::stands_at(cs.as_slice(), ps.as_slice(), i)
        invariant
            i <= cs@.len(),
            cs@ == s@,
            ps@ == p@,
            all == Seq::new(s@.len(), |k: int| k),
            f == (|k: int| text::occurs_at(s@, p@, k)),
            forall|j: int| 0 <= j < i ==> !f(#[trigger] all[j]),
        decreases cs@.len() - i,
    {
        i += 1;
    }
    proof {
        text::lemma_index_where(all, f, i as int);
    }
    text::string_of(cs.as_slice(), i, cs.len())
}

/// Shows hits.
struct Hits<'a> {
    pattern: &'a str,
    max_line_len: usize,
    context_only: bool,
}

impl<'a> LineFilter for Hits<'a> {
    closed spec fn shows(&self, line: Seq<char>) -> Option<Seq<char>> {
        hit_line(line, self.pattern@, self.max_line_len as nat, self.context_only)
    }

    fn show(&self, line: &str) -> (r: Option<String>) {
        if text::trimmed(line).as_str().is_empty() {
            None
        } else if self.context_only && text::has(line, self.pattern) {
            let tail = from_first(line, self.pattern);
            Some(compact::clipped(tail.as_str(), self.max_line_len))
        } else {
            Some(compact::clipped(line, self.max_line_len))
        }
    }
}

/// The text that an optional slice holds.
pub open spec fn type_view(t: Option<&str>) -> Option<Seq<char>> {
    match t {
        Some(s) => Some(s@),
        None => None,
    }
}

/// Write the search command.
pub fn build_grep_command(
    pattern: &str,
    path: &str,
    file_type: Option<&str>,
    extra_args: &[String],
) -> (r: String)
    ensures
        r@ == search_command(pattern@, path@, type_view(file_type), text::views(extra_args@)),
{
    let ghost extra = text::views(extra_args@);
    let mut rg: Vec<String> = Vec::new();
    rg.push("rg".to_owned());
    rg.push("-n".to_owned());
    rg.push("--no-heading".to_owned());
    let mut grep: Vec<String> = Vec::new();
    grep.push("grep".to_owned());
    grep.push("-rn".to_owned());
    match file_type {
        Some(t) => {
            rg.push("--type".to_owned());
            rg.push(t.to_owned());
            grep.push(text::cat("--include=*.", t));
        },
        None => {},
    }
    let mut kept = compact::show_lines(&RgArgs, extra_args);
    proof {
        assert((|a: Seq<char>| RgArgs.shows(a)) =~= (|a: Seq<char>| rg_arg(a)));
    }
    rg.append(&mut kept);
    let mut all = compact::copied(extra_args, 0, extra_args.len());
    assert(extra.subrange(0, extra.len() as int) == extra);
    grep.append(&mut all);
    rg.push("--".to_owned());
    rg.push(pattern.to_owned());
    rg.push(path.to_owned());
    grep.push("--".to_owned());
    grep.push(pattern.to_owned());
    grep.push(path.to_owned());
    proof {
        assert(text::views(rg@) =~= rg_words(pattern@, path@, type_view(file_type), extra));
        assert(text::views(grep@) =~= grep_words(pattern@, path@, type_view(file_type), extra));
    }
    let first = shell_words::join(rg.as_slice());
    let second = shell_words::join(grep.as_slice());
    let mut r = "if command -v rg >/dev/null 2>&1; then ".to_owned();
    r.append(first.as_str());
    r.append("; else ");
    r.append(second.as_str());
    r.append("; fi");
    r
}

/// Shorten the result of a search.
pub fn render_grep_output(
    output: &str,
    pattern: &str,
    path: &str,
    max_line_len: usize,
    max_results: usize,
    context_only: bool,
    succeeded: bool,
) -> (r: String)
    ensures
        r@ == search_report(
            output@,
            pattern@,
            path@,
            max_line_len as nat,
            max_results as nat,
            context_only,
            succeeded,
        ),
{
    let trimmed = text::trimmed(output);
    if trimmed.as_str().is_empty() {
        let front = text::cat("🔍 0 for '", pattern);
        return text::cat(front.as_str(), "'");
    }
    if !succeeded {
        return trimmed;
    }
    let all = text::line_list(output);
    let filter = Hits { pattern, max_line_len, context_only };
    let list = compact::show_lines(&filter, all.as_slice());
    proof {
        assert((|l: Seq<char>| filter.shows(l)) =~= (|l: Seq<char>|
            hit_line(l, pattern@, max_line_len as nat, context_only)));
    }
    let n: usize = list.len();
    let mut more = "... +".to_owned();
    if n > max_results {
        more.append(number::decimal_string((n - max_results) as u64).as_str());
        more.append(" more");
    }
    let parts = compact::capped(list, max_results, more);
    let body = text::joined(parts.as_slice(), "\n");
    let mut r = "🔍 ".to_owned();
    r.append(number::decimal_string(n as u64).as_str());
    r.append(" in ");
    r.append(path);
    r.append(":\n");
    r.append(body.as_str());
    r
}

} // verus!
