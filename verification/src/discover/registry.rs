//! Which commands are rewritten into `rtk` commands, and how.
pub mod laws;

use vstd::prelude::*;
use crate::number;
use crate::shell_words;
use crate::text;

verus! {

/// The characters of a variable's name.
pub open spec fn is_name_char(c: char) -> bool {
    'a' <= c <= 'z' || 'A' <= c <= 'Z' || '0' <= c <= '9' || c == '_'
}

/// Whether `w` sets a variable: a name that does not start with a digit, an equals
/// sign, and any value.
pub open spec fn is_assignment(w: Seq<char>) -> bool {
    let n = text::index_where(w, text::only('='));
    &&& 0 < n < w.len()
    &&& !('0' <= w[0] <= '9')
    &&& forall|i: int| 0 <= i < n ==> is_name_char(#[trigger] w[i])
}

/// The words that may stand before a command without being part of it.
pub open spec fn is_prefix_word(w: Seq<char>) -> bool {
    w == "sudo"@ || w == "env"@ || is_assignment(w)
}

/// The command that is left when the prefix words at the start of `s` are dropped. A
/// word with nothing behind it is the command.
pub open spec fn bare_command(s: Seq<char>) -> Seq<char>
    decreases s.len(),
{
    let n = text::index_where(s, text::blank());
    let rest = text::trim_start(s.skip(n));
    if 0 < n < s.len() && rest.len() < s.len() && is_prefix_word(s.take(n)) {
        bare_command(rest)
    } else {
        s
    }
}

/// The command that `raw` runs, without what is set before it.
pub open spec fn actual_command(raw: Seq<char>) -> Seq<char> {
    bare_command(text::trim(raw))
}

/// What stands before the command that `raw` runs.
pub open spec fn env_prefix(raw: Seq<char>) -> Seq<char> {
    let t = text::trim(raw);
    text::trim_end(t.take(t.len() - actual_command(raw).len()))
}

/// The first word of a command that does not start with white space.
pub open spec fn first_word(command: Seq<char>) -> Seq<char> {
    command.take(text::index_where(command, text::blank()))
}

/// Whether the shell would run more than one command, or take input from the
/// command line itself.
pub open spec fn is_compound(command: Seq<char>) -> bool {
    ||| text::contains(command, ";"@)
    ||| text::contains(command, "|"@)
    ||| text::contains(command, "&&"@)
    ||| text::contains(command, " & "@)
    ||| "&"@.is_suffix_of(command)
    ||| text::contains(command, "<<"@)
    ||| text::contains(command, "$("@)
    ||| text::contains(command, "\n"@)
}

/// The leading words of a command, and what takes their place.
pub struct Rule {
    pub words: &'static str,
    pub replacement: &'static str,
}

impl View for Rule {
    type V = (Seq<char>, Seq<char>);

    open spec fn view(&self) -> (Seq<char>, Seq<char>) {
        (self.words@, self.replacement@)
    }
}

/// The rules, the first that matches decides.
pub open spec fn rules() -> Seq<(Seq<char>, Seq<char>)> {
    seq![
        ("rtk"@, "rtk"@),
        ("cargo"@, "rtk cargo"@),
        ("diff"@, "rtk diff"@),
        ("git"@, "rtk git"@),
        ("grep"@, "rtk grep"@),
        ("rg"@, "rtk grep"@),
        ("ls"@, "rtk ls"@),
        ("make"@, "rtk make"@),
        ("prettier"@, "rtk prettier"@),
        ("npx prettier"@, "rtk prettier"@),
        ("pytest"@, "rtk pytest"@),
        ("python -m pytest"@, "rtk pytest"@),
        ("python3 -m pytest"@, "rtk pytest"@),
        ("ruff"@, "rtk ruff"@),
        ("tree"@, "rtk tree"@),
        ("tsc"@, "rtk tsc"@),
        ("npx tsc"@, "rtk tsc"@),
    ]
}

/// `command` with the leading `words` replaced, if it starts with them.
pub open spec fn apply_rule(command: Seq<char>, rule: (Seq<char>, Seq<char>)) -> Option<Seq<char>> {
    let n = rule.0.len() as int;
    if rule.0.is_prefix_of(command) && (n == command.len() || text::is_white(command[n])) {
        Some(rule.1 + command.skip(n))
    } else {
        None
    }
}

/// What the first rule that matches makes of `command`.
pub open spec fn apply_rules(
    command: Seq<char>,
    list: Seq<(Seq<char>, Seq<char>)>,
) -> Option<Seq<char>> {
    let n = text::index_where(list, |rule: (Seq<char>, Seq<char>)| apply_rule(command, rule) is Some);
    if 0 <= n < list.len() {
        apply_rule(command, list[n])
    } else {
        None
    }
}

/// `w` is an option that is not a file.
pub open spec fn is_option(w: Seq<char>) -> bool {
    w.len() > 0 && w[0] == '-'
}

/// The number of lines and the file that the words of a `head` or a `tail` command
/// ask for: `-N file`, `--lines=N file` or `-n N file`.
pub open spec fn line_count(w: Seq<Seq<char>>) -> Option<(Seq<char>, Seq<char>)> {
    if w.len() == 3 && is_option(w[1]) && number::is_digits(w[1].skip(1)) {
        Some((w[1].skip(1), w[2]))
    } else if w.len() == 3 && "--lines="@.is_prefix_of(w[1]) && number::is_digits(
        w[1].skip("--lines="@.len() as int),
    ) {
        Some((w[1].skip("--lines="@.len() as int), w[2]))
    } else if w.len() == 4 && w[1] == "-n"@ && number::is_digits(w[2]) {
        Some((w[2], w[3]))
    } else {
        None
    }
}

/// What becomes of a command that prints a file: one file, and for `head` and `tail`
/// how many lines of it.
pub open spec fn rewrite_reader(command: Seq<char>) -> Option<Seq<char>> {
    let w = text::words(command);
    if w.len() == 2 && !is_option(w[1]) {
        Some("rtk read "@ + w[1])
    } else if w.len() > 0 && w[0] != "cat"@ && line_count(w) is Some {
        let (count, file) = line_count(w)->0;
        if w[0] == "head"@ {
            Some("rtk read "@ + file + " --max-lines "@ + count)
        } else {
            Some("rtk read "@ + file + " --tail-lines "@ + count)
        }
    } else {
        None
    }
}

/// What becomes of a single command.
pub open spec fn rewrite_simple(command: Seq<char>) -> Option<Seq<char>> {
    let base = first_word(command);
    if base == "cat"@ || base == "head"@ || base == "tail"@ {
        rewrite_reader(command)
    } else {
        apply_rules(command, rules())
    }
}

/// The `rtk` command that `raw` is rewritten into, if it is.
///
/// Nothing becomes of a command that is excluded by its first word, that sets
/// `RTK_DISABLED`, or that is more than one command to the shell.
pub open spec fn rewritten(raw: Seq<char>, excluded: Seq<Seq<char>>) -> Option<Seq<char>> {
    let command = actual_command(raw);
    if command.len() == 0 || text::contains(env_prefix(raw), "RTK_DISABLED="@) || is_compound(
        command,
    ) || excluded.contains(first_word(command)) {
        None
    } else {
        rewrite_simple(command)
    }
}

/// Whether `w` may stand before a command without being part of it.
fn prefix_word(w: &str) -> (r: bool)
    ensures
        r == is_prefix_word(w@),
{
    if text::same(w, "sudo") || text::same(w, "env") {
        return true;
    }
    let cs = text::chars_of(w);
    let mut i: usize = 0;
    while i < cs.len() && cs[i] != '='
        invariant
            i <= cs@.len(),
            cs@ == w@,
            w@ != "sudo"@,
            w@ != "env"@,
            forall|j: int| 0 <= j < i ==> is_name_char(#[trigger] cs@[j]) && cs@[j] != '=',
        decreases cs@.len() - i,
    {
        let c = cs[i];
        if !(('a' <= c && c <= 'z') || ('A' <= c && c <= 'Z') || ('0' <= c && c <= '9') || c
            == '_') {
            proof {
                text::lemma_index_where_bounds(w@, text::only('='));
                if text::index_where(w@, text::only('=')) <= i {
                    assert(text::only('=')(w@[text::index_where(w@, text::only('='))]));
                }
                assert(!is_name_char(w@[i as int]));
            }
            return false;
        }
        i += 1;
    }
    proof {
        text::lemma_index_where(w@, text::only('='), i as int);
    }
    0 < i && i < cs.len() && !('0' <= cs[0] && cs[0] <= '9')
}

/// The command that `cmd` runs, without what is set before it.
pub fn strip_disabled_prefix(cmd: &str) -> (r: String)
    ensures
        r@ == actual_command(cmd@),
{
    let t = text::trimmed(cmd);
    let cs = text::chars_of(t.as_str());
    let mut i: usize = 0;
    assert(cs@.skip(0) == cs@);
    loop
        invariant
            i <= cs@.len(),
            cs@ == text::trim(cmd@),
            actual_command(cmd@) == bare_command(cs@.skip(i as int)),
        decreases cs@.len() - i,
    {
        let ghost s = cs@.skip(i as int);
        let mut end: usize = i;
        while end < cs.len() && !text::white(cs[end])
            invariant
                i <= end <= cs@.len(),
                s == cs@.skip(i as int),
                forall|j: int| 0 <= j < end - i ==> !text::blank()(#[trigger] s[j]),
            decreases cs@.len() - end,
        {
            assert(s[end - i] == cs@[end as int]);
            end += 1;
        }
        proof {
            text::lemma_index_where(s, text::blank(), end - i);
        }
        if i == end || end == cs.len() {
            return text::string_of(cs.as_slice(), i, cs.len());
        }
        let word = text::string_of(cs.as_slice(), i, end);
        assert(word@ == s.take(end - i));
        if !prefix_word(word.as_str()) {
            return text::string_of(cs.as_slice(), i, cs.len());
        }
        let ghost behind = s.skip(end - i);
        let mut next: usize = end;
        assert(behind == cs@.skip(end as int));
        while next < cs.len() && text::white(cs[next])
            invariant
                end <= next <= cs@.len(),
                behind == cs@.skip(end as int),
                forall|j: int| 0 <= j < next - end ==> !text::ink()(#[trigger] behind[j]),
            decreases cs@.len() - next,
        {
            assert(behind[next - end] == cs@[next as int]);
            next += 1;
        }
        proof {
            text::lemma_index_where(behind, text::ink(), next - end);
            assert(behind.skip(next - end) == cs@.skip(next as int));
        }
        i = next;
    }
}

/// The rules, the first that matches decides.
fn rule_list() -> (r: Vec<Rule>)
    ensures
        r@.map_values(|rule: Rule| rule@) == rules(),
{
    let r = vec![
        Rule { words: "rtk", replacement: "rtk" },
        Rule { words: "cargo", replacement: "rtk cargo" },
        Rule { words: "diff", replacement: "rtk diff" },
        Rule { words: "git", replacement: "rtk git" },
        Rule { words: "grep", replacement: "rtk grep" },
        Rule { words: "rg", replacement: "rtk grep" },
        Rule { words: "ls", replacement: "rtk ls" },
        Rule { words: "make", replacement: "rtk make" },
        Rule { words: "prettier", replacement: "rtk prettier" },
        Rule { words: "npx prettier", replacement: "rtk prettier" },
        Rule { words: "pytest", replacement: "rtk pytest" },
        Rule { words: "python -m pytest", replacement: "rtk pytest" },
        Rule { words: "python3 -m pytest", replacement: "rtk pytest" },
        Rule { words: "ruff", replacement: "rtk ruff" },
        Rule { words: "tree", replacement: "rtk tree" },
        Rule { words: "tsc", replacement: "rtk tsc" },
        Rule { words: "npx tsc", replacement: "rtk tsc" },
    ];
    assert(r@.map_values(|rule: Rule| rule@) == rules());
    r
}

/// `command` with the leading words of `rule` replaced, if it starts with them.
fn replace_words(command: &str, rule: &Rule) -> (r: Option<String>)
    ensures
        text::opt_view(r) == apply_rule(command@, rule@),
{
    if !text::starts_with(command, rule.words) {
        return None;
    }
    let cs = text::chars_of(command);
    let n: usize = text::chars_of(rule.words).len();
    if n < cs.len() && !text::white(cs[n]) {
        return None;
    }
    let rest = text::string_of(cs.as_slice(), n, cs.len());
    Some(text::cat(rule.replacement, rest.as_str()))
}

/// What the first rule that matches makes of `command`.
fn replace_first(command: &str) -> (r: Option<String>)
    ensures
        text::opt_view(r) == apply_rules(command@, rules()),
{
    let list = rule_list();
    let ghost views = list@.map_values(|rule: Rule| rule@);
    let ghost p = |rule: (Seq<char>, Seq<char>)| apply_rule(command@, rule) is Some;
    let mut i: usize = 0;
    while i < list.len()
        invariant
            i <= list@.len(),
            views == rules(),
            views == list@.map_values(|rule: Rule| rule@),
            p == (|rule: (Seq<char>, Seq<char>)| apply_rule(command@, rule) is Some),
            forall|j: int| 0 <= j < i ==> !p(#[trigger] views[j]),
        decreases list@.len() - i,
    {
        assert(views[i as int] == list@[i as int]@);
        match replace_words(command, &list[i]) {
            Some(s) => {
                proof {
                    text::lemma_index_where(views, p, i as int);
                }
                return Some(s);
            },
            None => {},
        }
        i += 1;
    }
    proof {
        text::lemma_index_where(views, p, i as int);
    }
    None
}

/// Whether `s` is a run of one or more digits.
fn all_digits(s: &str) -> (r: bool)
    ensures
        r == number::is_digits(s@),
{
    let cs = text::chars_of(s);
    let mut i: usize = 0;
    while i < cs.len()
        invariant
            i <= cs@.len(),
            cs@ == s@,
            forall|j: int| 0 <= j < i ==> number::is_digit(#[trigger] cs@[j]),
        decreases cs@.len() - i,
    {
        if !('0' <= cs[i] && cs[i] <= '9') {
            assert(!number::is_digit(s@[i as int]));
            return false;
        }
        i += 1;
    }
    cs.len() > 0
}

/// The number of lines and the file that the words of a `head` or a `tail` command
/// ask for.
fn read_line_count(w: &[String]) -> (r: Option<(String, String)>)
    ensures
        match r {
            Some(p) => line_count(text::views(w@)) == Some((p.0@, p.1@)),
            None => line_count(text::views(w@)) is None,
        },
{
    if w.len() == 3 {
        if text::starts_with(w[1].as_str(), "-") {
            proof {
                reveal_strlit("-");
                assert("-"@ == seq!['-']);
                assert(w@[1]@.take(1)[0] == '-');
            }
            let count = text::skipped(w[1].as_str(), 1);
            if all_digits(count.as_str()) {
                return Some((count, w[2].clone()));
            }
        } else {
            proof {
                reveal_strlit("-");
                assert("-"@ == seq!['-']);
                if is_option(w@[1]@) {
                    assert(w@[1]@.take(1) == "-"@);
                }
            }
        }
        if text::starts_with(w[1].as_str(), "--lines=") {
            proof {
                reveal_strlit("--lines=");
            }
            let count = text::skipped(w[1].as_str(), 8);
            if all_digits(count.as_str()) {
                return Some((count, w[2].clone()));
            }
        }
        return None;
    }
    if w.len() == 4 && text::same(w[1].as_str(), "-n") && all_digits(w[2].as_str()) {
        return Some((w[2].clone(), w[3].clone()));
    }
    None
}

/// What becomes of a command that prints a file.
fn rewrite_file_reader(command: &str) -> (r: Option<String>)
    ensures
        text::opt_view(r) == rewrite_reader(command@),
{
    let w = text::word_list(command);
    if w.len() == 2 {
        let first = text::chars_of(w[1].as_str());
        if !(first.len() > 0 && first[0] == '-') {
            return Some(text::cat("rtk read ", w[1].as_str()));
        }
    }
    if w.len() == 0 || text::same(w[0].as_str(), "cat") {
        return None;
    }
    match read_line_count(w.as_slice()) {
        Some((count, file)) => {
            let read = text::cat("rtk read ", file.as_str());
            let flag = if text::same(w[0].as_str(), "head") {
                " --max-lines "
            } else {
                " --tail-lines "
            };
            let asked = text::cat(read.as_str(), flag);
            Some(text::cat(asked.as_str(), count.as_str()))
        },
        None => None,
    }
}

/// Whether the shell would run more than one command.
fn compound(command: &str) -> (r: bool)
    ensures
        r == is_compound(command@),
{
    text::has(command, ";") || text::has(command, "|") || text::has(command, "&&") || text::has(
        command,
        " & ",
    ) || text::ends_with(command, "&") || text::has(command, "<<") || text::has(command, "$(")
        || text::has(command, "\n")
}

/// The first word of a command that does not start with white space.
pub fn base_word(command: &str) -> (r: String)
    ensures
        r@ == first_word(command@),
{
    let cs = text::chars_of(command);
    let mut end: usize = 0;
    while end < cs.len() && !text::white(cs[end])
        invariant
            end <= cs@.len(),
            forall|j: int| 0 <= j < end ==> !text::blank()(#[trigger] cs@[j]),
        decreases cs@.len() - end,
    {
        end += 1;
    }
    proof {
        text::lemma_index_where(cs@, text::blank(), end as int);
    }
    text::string_of(cs.as_slice(), 0, end)
}

/// What stands before the command that `raw` runs.
pub fn leading_env(raw: &str) -> (r: String)
    ensures
        r@ == env_prefix(raw@),
{
    let trimmed = text::trimmed(raw);
    let actual = strip_disabled_prefix(raw);
    let cs = text::chars_of(trimmed.as_str());
    let n: usize = text::chars_of(actual.as_str()).len();
    proof {
        lemma_bare_command_is_suffix(trimmed@);
    }
    let prefix = text::string_of(cs.as_slice(), 0, cs.len() - n);
    text::trimmed_end(prefix.as_str())
}

/// The `rtk` command that `raw` is rewritten into, if it is.
pub fn rewrite_command(raw: &str, excluded: &[String]) -> (r: Option<String>)
    ensures
        text::opt_view(r) == rewritten(raw@, text::views(excluded@)),
{
    let command = strip_disabled_prefix(raw);
    if command.as_str().is_empty() {
        return None;
    }
    let prefix = leading_env(raw);
    if text::has(prefix.as_str(), "RTK_DISABLED=") || compound(command.as_str()) {
        return None;
    }
    let base = base_word(command.as_str());
    if text::listed(excluded, base.as_str()) {
        return None;
    }
    if text::same(base.as_str(), "cat") || text::same(base.as_str(), "head") || text::same(
        base.as_str(),
        "tail",
    ) {
        rewrite_file_reader(command.as_str())
    } else {
        replace_first(command.as_str())
    }
}

/// Dropping prefix words leaves the end of the command line.
pub proof fn lemma_bare_command_is_suffix(s: Seq<char>)
    ensures
        bare_command(s).is_suffix_of(s),
    decreases s.len(),
{
    let n = text::index_where(s, text::blank());
    text::lemma_index_where_bounds(s, text::blank());
    let behind = s.skip(n);
    let rest = text::trim_start(behind);
    text::lemma_index_where_bounds(behind, text::ink());
    if 0 < n < s.len() && rest.len() < s.len() && is_prefix_word(s.take(n)) {
        lemma_bare_command_is_suffix(rest);
        let b = bare_command(rest);
        assert(rest == s.skip(s.len() - rest.len()));
        assert(b == s.skip(s.len() - b.len()));
    } else {
        assert(s == s.skip(0));
    }
}

/// What stands before a command ends in white space.
pub proof fn lemma_prefix_ends_in_white_space(s: Seq<char>)
    ensures
        bare_command(s).len() <= s.len(),
        bare_command(s).len() < s.len() ==> bare_command(s).len() == 0 || text::is_white(
            s[s.len() - bare_command(s).len() - 1],
        ),
    decreases s.len(),
{
    let n = text::index_where(s, text::blank());
    text::lemma_index_where_bounds(s, text::blank());
    let behind = s.skip(n);
    let k = text::index_where(behind, text::ink());
    text::lemma_index_where_bounds(behind, text::ink());
    let rest = text::trim_start(behind);
    if 0 < n < s.len() && rest.len() < s.len() && is_prefix_word(s.take(n)) {
        lemma_prefix_ends_in_white_space(rest);
        let b = bare_command(rest);
        if b.len() == rest.len() {
            lemma_bare_command_is_suffix(rest);
            assert(behind[0] == s[n]);
            assert(k > 0) by {
                if k == 0 {
                    assert(text::ink()(behind[0]));
                    assert(text::blank()(s[n]));
                }
            }
            assert(!text::ink()(behind[k - 1]));
            assert(s[n + k - 1] == behind[k - 1]);
        } else if b.len() > 0 {
            assert(rest[rest.len() - b.len() - 1] == s[s.len() - b.len() - 1]);
        }
    }
}

/// Replacing the leading words of a command keeps what follows them behind a space or a tab:
/// the tokens of the command change only where the words were.
pub proof fn law_replacing_words_keeps_the_arguments(
    words: Seq<char>,
    replacement: Seq<char>,
    blank: char,
    arguments: Seq<char>,
)
    requires
        shell_words::is_closed(words),
        shell_words::is_closed(replacement),
        blank == ' ' || blank == '\t',
    ensures
        ({
            let command = words + seq![blank] + arguments;
            let after = apply_rule(command, (words, replacement));
            &&& after is Some
            &&& shell_words::tokens(command) == shell_words::tokens(words) + shell_words::tokens(
                arguments,
            )
            &&& shell_words::tokens(after->0) == shell_words::tokens(replacement)
                + shell_words::tokens(arguments)
        }),
{
    let command = words + seq![blank] + arguments;
    let n = words.len() as int;
    assert(command.subrange(0, n) =~= words);
    assert(command[n] == blank);
    assert(replacement + command.skip(n) =~= replacement + seq![blank] + arguments);
    shell_words::law_tokens_meet_in_a_blank(words, arguments);
    shell_words::law_tokens_meet_in_a_blank(replacement, arguments);
}

} // verus!
