//! Which commands are passed over, and what the others become.
use vstd::prelude::*;
use crate::discover::registry;
use crate::number;
use crate::text;

verus! {

/// A word may stand before a command if it is `sudo` or `env`, or sets a variable: a name of
/// letters, digits and underscores that does not start with a digit, and an equals sign. The
/// command is then what is behind it.
pub proof fn law_words_before_a_command_are_passed_over(
    word: Seq<char>,
    n: int,
    gap: Seq<char>,
    rest: Seq<char>,
)
    requires
        word == "sudo"@ || word == "env"@ || (0 < n < word.len() && word[n] == '='
            && !('0' <= word[0]
            <= '9') && forall|i: int|
            0 <= i < n ==> ('a' <= #[trigger] word[i] <= 'z' || 'A' <= word[i] <= 'Z' || '0'
                <= word[i] <= '9' || word[i] == '_')),
        forall|i: int| 0 <= i < word.len() ==> !text::is_white(#[trigger] word[i]),
        gap.len() > 0,
        forall|i: int| 0 <= i < gap.len() ==> text::is_white(#[trigger] gap[i]),
        rest.len() > 0,
        !text::is_white(rest[0]),
    ensures
        registry::bare_command(word + gap + rest) == registry::bare_command(rest),
{
    let s = word + gap + rest;
    lemma_first_word(word, gap + rest);
    assert(s =~= word + (gap + rest));
    assert(word.len() > 0) by {
        reveal_strlit("sudo");
        reveal_strlit("env");
    }
    assert(s.take(word.len() as int) =~= word);
    assert(s.skip(word.len() as int) =~= gap + rest);
    let b = gap + rest;
    assert forall|i: int| 0 <= i < gap.len() implies !text::ink()(#[trigger] b[i]) by {
        assert(b[i] == gap[i]);
    }
    assert(b[gap.len() as int] == rest[0]);
    text::lemma_index_where(b, text::ink(), gap.len() as int);
    assert(b.skip(gap.len() as int) =~= rest);
    if word != "sudo"@ && word != "env"@ {
        assert forall|i: int| 0 <= i < n implies !text::only('=')(#[trigger] word[i]) by {}
        text::lemma_index_where(word, text::only('='), n);
        assert forall|i: int| 0 <= i < n implies registry::is_name_char(#[trigger] word[i]) by {}
    }
}

/// A word that is none of those is the command, with all that is behind it; and so is any word
/// with nothing behind it.
pub proof fn law_other_words_are_the_command(word: Seq<char>, rest: Seq<char>)
    requires
        word != "sudo"@,
        word != "env"@,
        forall|n: int|
            0 < n < word.len() && (#[trigger] word[n]) == '=' ==> '0' <= word[0] <= '9'
                || exists|i: int|
                0 <= i < n && !('a' <= (#[trigger] word[i]) <= 'z' || 'A' <= word[i] <= 'Z' || '0'
                    <= word[i] <= '9' || word[i] == '_'),
        forall|i: int| 0 <= i < word.len() ==> !text::is_white(#[trigger] word[i]),
        rest.len() > 0 ==> text::is_white(rest[0]),
    ensures
        registry::bare_command(word + rest) == word + rest,
{
    let s = word + rest;
    lemma_first_word(word, rest);
    assert(s.take(word.len() as int) =~= word);
    if registry::is_assignment(word) {
        let n = text::index_where(word, text::only('='));
        text::lemma_index_where_bounds(word, text::only('='));
        assert(text::only('=')(word[n]));
        let i = choose|i: int|
            0 <= i < n && !('a' <= (#[trigger] word[i]) <= 'z' || 'A' <= word[i] <= 'Z' || '0'
                <= word[i] <= '9' || word[i] == '_');
        assert(registry::is_name_char(word[i]));
    }
}

/// A word with nothing behind it is the command.
pub proof fn law_single_words_are_commands(word: Seq<char>)
    requires
        forall|i: int| 0 <= i < word.len() ==> !text::is_white(#[trigger] word[i]),
    ensures
        registry::bare_command(word) == word,
{
    text::lemma_index_where(word, text::blank(), word.len() as int);
}

/// Where the first word ends.
proof fn lemma_first_word(word: Seq<char>, rest: Seq<char>)
    requires
        forall|i: int| 0 <= i < word.len() ==> !text::is_white(#[trigger] word[i]),
        rest.len() > 0 ==> text::is_white(rest[0]),
    ensures
        text::index_where(word + rest, text::blank()) == word.len(),
        registry::first_word(word + rest) == word,
{
    let s = word + rest;
    assert forall|i: int| 0 <= i < word.len() implies !text::blank()(#[trigger] s[i]) by {
        assert(s[i] == word[i]);
    }
    if rest.len() > 0 {
        assert(s[word.len() as int] == rest[0]);
    }
    text::lemma_index_where(s, text::blank(), word.len() as int);
    assert(s.take(word.len() as int) =~= word);
}

/// The first word of a command.
pub proof fn law_first_word(word: Seq<char>, rest: Seq<char>)
    requires
        forall|i: int| 0 <= i < word.len() ==> !text::is_white(#[trigger] word[i]),
        rest.len() > 0 ==> text::is_white(rest[0]),
    ensures
        registry::first_word(word + rest) == word,
{
    lemma_first_word(word, rest);
}

/// What a shell would run as more than one command, or feed from the command line, is not
/// rewritten; nor is an empty command.
pub proof fn law_compound_commands_are_not_rewritten(raw: Seq<char>, excluded: Seq<Seq<char>>)
    ensures
        ({
            let command = registry::actual_command(raw);
            command.len() == 0 || text::contains(command, ";"@) || text::contains(command, "|"@)
                || text::contains(command, "&&"@) || text::contains(command, " & "@) || (
            command.len() > 0 && command.last() == '&') || text::contains(command, "<<"@)
                || text::contains(command, "$("@) || text::contains(command, "\n"@)
        }) ==> registry::rewritten(raw, excluded) is None,
{
    let command = registry::actual_command(raw);
    reveal_strlit("&");
    if command.len() > 0 && command.last() == '&' {
        assert(command.subrange(command.len() - 1, command.len() as int) =~= "&"@);
    }
}

/// Any other command, unless it is excluded or disabled, becomes what its words become.
pub proof fn law_simple_commands_are_rewritten(raw: Seq<char>, excluded: Seq<Seq<char>>)
    requires
        ({
            let command = registry::actual_command(raw);
            &&& command.len() > 0
            &&& !text::contains(command, ";"@)
            &&& !text::contains(command, "|"@)
            &&& !text::contains(command, "&&"@)
            &&& !text::contains(command, " & "@)
            &&& command.last() != '&'
            &&& !text::contains(command, "<<"@)
            &&& !text::contains(command, "$("@)
            &&& !text::contains(command, "\n"@)
            &&& !text::contains(registry::env_prefix(raw), "RTK_DISABLED="@)
            &&& !excluded.contains(registry::first_word(command))
        }),
    ensures
        registry::rewritten(raw, excluded) == registry::rewrite_simple(
            registry::actual_command(raw),
        ),
{
    let command = registry::actual_command(raw);
    reveal_strlit("&");
    if "&"@.is_suffix_of(command) {
        assert(command.subrange(command.len() - 1, command.len() as int)[0] == '&');
    }
}

/// What is no prefix of a command does not match it.
proof fn lemma_no_match(command: Seq<char>, words: Seq<char>, rule: (Seq<char>, Seq<char>), i: int)
    requires
        words.is_prefix_of(command),
        0 <= i < words.len(),
        i < rule.0.len(),
        words[i] != rule.0[i],
    ensures
        registry::apply_rule(command, rule) is None,
{
    assert(command.subrange(0, words.len() as int)[i] == command[i]);
    if rule.0.is_prefix_of(command) {
        assert(command.subrange(0, rule.0.len() as int)[i] == command[i]);
    }
}

/// What tells a first word apart from those of commands that print a file.
proof fn lemma_no_reader(word: Seq<char>)
    requires
        word.len() > 0,
        word[0] != 'h',
        word[0] != 't' || (word.len() > 1 && word[1] != 'a'),
        word[0] != 'c' || (word.len() > 2 && word[2] != 't'),
    ensures
        word != "cat"@,
        word != "head"@,
        word != "tail"@,
{
    reveal_strlit("cat");
    reveal_strlit("head");
    reveal_strlit("tail");
    assert("cat"@[0] == 'c' && "cat"@[2] == 't' && "head"@[0] == 'h' && "tail"@[0] == 't'
        && "tail"@[1] == 'a');
}

/// The rule of `rtk`.
proof fn lemma_rule_1(rest: Seq<char>)
    requires
        rest.len() > 0 ==> text::is_white(rest[0]),
    ensures
        registry::rewrite_simple("rtk"@ + rest) == Some("rtk"@ + rest),
{
    reveal_strlit("rtk");
    let words = "rtk"@;
    let command = words + rest;
    let list = registry::rules();
    let p = |rule: (Seq<char>, Seq<char>)| registry::apply_rule(command, rule) is Some;
    assert(command.subrange(0, words.len() as int) =~= words);
    assert(list[0] == ("rtk"@, "rtk"@));
    if rest.len() > 0 {
        assert(command[words.len() as int] == rest[0]);
    }
    assert(command.skip(words.len() as int) =~= rest);
    text::lemma_index_where(list, p, 0);
    let word = "rtk"@;
    assert forall|i: int| 0 <= i < word.len() implies !text::is_white(#[trigger] word[i]) by {
        assert(i == 0 || i == 1 || i == 2);
    }
    lemma_first_word(word, rest);
    lemma_no_reader(word);
}

/// The rule of `cargo`.
proof fn lemma_rule_2(rest: Seq<char>)
    requires
        rest.len() > 0 ==> text::is_white(rest[0]),
    ensures
        registry::rewrite_simple("cargo"@ + rest) == Some("rtk cargo"@ + rest),
{
    reveal_strlit("rtk");
    reveal_strlit("cargo");
    let words = "cargo"@;
    let command = words + rest;
    let list = registry::rules();
    let p = |rule: (Seq<char>, Seq<char>)| registry::apply_rule(command, rule) is Some;
    assert(command.subrange(0, words.len() as int) =~= words);
    assert(list[0].0 == "rtk"@ && "rtk"@[0] != words[0]);
    lemma_no_match(command, words, list[0], 0);
    assert(list[1] == ("cargo"@, "rtk cargo"@));
    assert forall|j: int| 0 <= j < 1 implies !p(#[trigger] list[j]) by {
        assert(j == 0);
    }
    if rest.len() > 0 {
        assert(command[words.len() as int] == rest[0]);
    }
    assert(command.skip(words.len() as int) =~= rest);
    text::lemma_index_where(list, p, 1);
    let word = "cargo"@;
    assert forall|i: int| 0 <= i < word.len() implies !text::is_white(#[trigger] word[i]) by {
        assert(i == 0 || i == 1 || i == 2 || i == 3 || i == 4);
    }
    lemma_first_word(word, rest);
    lemma_no_reader(word);
}

/// The rule of `diff`.
proof fn lemma_rule_3(rest: Seq<char>)
    requires
        rest.len() > 0 ==> text::is_white(rest[0]),
    ensures
        registry::rewrite_simple("diff"@ + rest) == Some("rtk diff"@ + rest),
{
    reveal_strlit("rtk");
    reveal_strlit("cargo");
    reveal_strlit("diff");
    let words = "diff"@;
    let command = words + rest;
    let list = registry::rules();
    let p = |rule: (Seq<char>, Seq<char>)| registry::apply_rule(command, rule) is Some;
    assert(command.subrange(0, words.len() as int) =~= words);
    assert(list[0].0 == "rtk"@ && "rtk"@[0] != words[0]);
    lemma_no_match(command, words, list[0], 0);
    assert(list[1].0 == "cargo"@ && "cargo"@[0] != words[0]);
    lemma_no_match(command, words, list[1], 0);
    assert(list[2] == ("diff"@, "rtk diff"@));
    assert forall|j: int| 0 <= j < 2 implies !p(#[trigger] list[j]) by {
        assert(j == 0 || j == 1);
    }
    if rest.len() > 0 {
        assert(command[words.len() as int] == rest[0]);
    }
    assert(command.skip(words.len() as int) =~= rest);
    text::lemma_index_where(list, p, 2);
    let word = "diff"@;
    assert forall|i: int| 0 <= i < word.len() implies !text::is_white(#[trigger] word[i]) by {
        assert(i == 0 || i == 1 || i == 2 || i == 3);
    }
    lemma_first_word(word, rest);
    lemma_no_reader(word);
}

/// The rule of `git`.
proof fn lemma_rule_4(rest: Seq<char>)
    requires
        rest.len() > 0 ==> text::is_white(rest[0]),
    ensures
        registry::rewrite_simple("git"@ + rest) == Some("rtk git"@ + rest),
{
    reveal_strlit("rtk");
    reveal_strlit("cargo");
    reveal_strlit("diff");
    reveal_strlit("git");
    let words = "git"@;
    let command = words + rest;
    let list = registry::rules();
    let p = |rule: (Seq<char>, Seq<char>)| registry::apply_rule(command, rule) is Some;
    assert(command.subrange(0, words.len() as int) =~= words);
    assert(list[0].0 == "rtk"@ && "rtk"@[0] != words[0]);
    lemma_no_match(command, words, list[0], 0);
    assert(list[1].0 == "cargo"@ && "cargo"@[0] != words[0]);
    lemma_no_match(command, words, list[1], 0);
    assert(list[2].0 == "diff"@ && "diff"@[0] != words[0]);
    lemma_no_match(command, words, list[2], 0);
    assert(list[3] == ("git"@, "rtk git"@));
    assert forall|j: int| 0 <= j < 3 implies !p(#[trigger] list[j]) by {
        assert(j == 0 || j == 1 || j == 2);
    }
    if rest.len() > 0 {
        assert(command[words.len() as int] == rest[0]);
    }
    assert(command.skip(words.len() as int) =~= rest);
    text::lemma_index_where(list, p, 3);
    let word = "git"@;
    assert forall|i: int| 0 <= i < word.len() implies !text::is_white(#[trigger] word[i]) by {
        assert(i == 0 || i == 1 || i == 2);
    }
    lemma_first_word(word, rest);
    lemma_no_reader(word);
}

/// The rule of `grep`.
proof fn lemma_rule_5(rest: Seq<char>)
    requires
        rest.len() > 0 ==> text::is_white(rest[0]),
    ensures
        registry::rewrite_simple("grep"@ + rest) == Some("rtk grep"@ + rest),
{
    reveal_strlit("rtk");
    reveal_strlit("cargo");
    reveal_strlit("diff");
    reveal_strlit("git");
    reveal_strlit("grep");
    let words = "grep"@;
    let command = words + rest;
    let list = registry::rules();
    let p = |rule: (Seq<char>, Seq<char>)| registry::apply_rule(command, rule) is Some;
    assert(command.subrange(0, words.len() as int) =~= words);
    assert(list[0].0 == "rtk"@ && "rtk"@[0] != words[0]);
    lemma_no_match(command, words, list[0], 0);
    assert(list[1].0 == "cargo"@ && "cargo"@[0] != words[0]);
    lemma_no_match(command, words, list[1], 0);
    assert(list[2].0 == "diff"@ && "diff"@[0] != words[0]);
    lemma_no_match(command, words, list[2], 0);
    assert(list[3].0 == "git"@ && "git"@[1] != words[1]);
    lemma_no_match(command, words, list[3], 1);
    assert(list[4] == ("grep"@, "rtk grep"@));
    assert forall|j: int| 0 <= j < 4 implies !p(#[trigger] list[j]) by {
        assert(j == 0 || j == 1 || j == 2 || j == 3);
    }
    if rest.len() > 0 {
        assert(command[words.len() as int] == rest[0]);
    }
    assert(command.skip(words.len() as int) =~= rest);
    text::lemma_index_where(list, p, 4);
    let word = "grep"@;
    assert forall|i: int| 0 <= i < word.len() implies !text::is_white(#[trigger] word[i]) by {
        assert(i == 0 || i == 1 || i == 2 || i == 3);
    }
    lemma_first_word(word, rest);
    lemma_no_reader(word);
}

/// The rule of `rg`.
proof fn lemma_rule_6(rest: Seq<char>)
    requires
        rest.len() > 0 ==> text::is_white(rest[0]),
    ensures
        registry::rewrite_simple("rg"@ + rest) == Some("rtk grep"@ + rest),
{
    reveal_strlit("rtk");
    reveal_strlit("cargo");
    reveal_strlit("diff");
    reveal_strlit("git");
    reveal_strlit("grep");
    reveal_strlit("rg");
    let words = "rg"@;
    let command = words + rest;
    let list = registry::rules();
    let p = |rule: (Seq<char>, Seq<char>)| registry::apply_rule(command, rule) is Some;
    assert(command.subrange(0, words.len() as int) =~= words);
    assert(list[0].0 == "rtk"@ && "rtk"@[1] != words[1]);
    lemma_no_match(command, words, list[0], 1);
    assert(list[1].0 == "cargo"@ && "cargo"@[0] != words[0]);
    lemma_no_match(command, words, list[1], 0);
    assert(list[2].0 == "diff"@ && "diff"@[0] != words[0]);
    lemma_no_match(command, words, list[2], 0);
    assert(list[3].0 == "git"@ && "git"@[0] != words[0]);
    lemma_no_match(command, words, list[3], 0);
    assert(list[4].0 == "grep"@ && "grep"@[0] != words[0]);
    lemma_no_match(command, words, list[4], 0);
    assert(list[5] == ("rg"@, "rtk grep"@));
    assert forall|j: int| 0 <= j < 5 implies !p(#[trigger] list[j]) by {
        assert(j == 0 || j == 1 || j == 2 || j == 3 || j == 4);
    }
    if rest.len() > 0 {
        assert(command[words.len() as int] == rest[0]);
    }
    assert(command.skip(words.len() as int) =~= rest);
    text::lemma_index_where(list, p, 5);
    let word = "rg"@;
    assert forall|i: int| 0 <= i < word.len() implies !text::is_white(#[trigger] word[i]) by {
        assert(i == 0 || i == 1);
    }
    lemma_first_word(word, rest);
    lemma_no_reader(word);
}

/// The rule of `ls`.
proof fn lemma_rule_7(rest: Seq<char>)
    requires
        rest.len() > 0 ==> text::is_white(rest[0]),
    ensures
        registry::rewrite_simple("ls"@ + rest) == Some("rtk ls"@ + rest),
{
    reveal_strlit("rtk");
    reveal_strlit("cargo");
    reveal_strlit("diff");
    reveal_strlit("git");
    reveal_strlit("grep");
    reveal_strlit("rg");
    reveal_strlit("ls");
    let words = "ls"@;
    let command = words + rest;
    let list = registry::rules();
    let p = |rule: (Seq<char>, Seq<char>)| registry::apply_rule(command, rule) is Some;
    assert(command.subrange(0, words.len() as int) =~= words);
    assert(list[0].0 == "rtk"@ && "rtk"@[0] != words[0]);
    lemma_no_match(command, words, list[0], 0);
    assert(list[1].0 == "cargo"@ && "cargo"@[0] != words[0]);
    lemma_no_match(command, words, list[1], 0);
    assert(list[2].0 == "diff"@ && "diff"@[0] != words[0]);
    lemma_no_match(command, words, list[2], 0);
    assert(list[3].0 == "git"@ && "git"@[0] != words[0]);
    lemma_no_match(command, words, list[3], 0);
    assert(list[4].0 == "grep"@ && "grep"@[0] != words[0]);
    lemma_no_match(command, words, list[4], 0);
    assert(list[5].0 == "rg"@ && "rg"@[0] != words[0]);
    lemma_no_match(command, words, list[5], 0);
    assert(list[6] == ("ls"@, "rtk ls"@));
    assert forall|j: int| 0 <= j < 6 implies !p(#[trigger] list[j]) by {
        assert(j == 0 || j == 1 || j == 2 || j == 3 || j == 4 || j == 5);
    }
    if rest.len() > 0 {
        assert(command[words.len() as int] == rest[0]);
    }
    assert(command.skip(words.len() as int) =~= rest);
    text::lemma_index_where(list, p, 6);
    let word = "ls"@;
    assert forall|i: int| 0 <= i < word.len() implies !text::is_white(#[trigger] word[i]) by {
        assert(i == 0 || i == 1);
    }
    lemma_first_word(word, rest);
    lemma_no_reader(word);
}

/// The rule of `make`.
proof fn lemma_rule_8(rest: Seq<char>)
    requires
        rest.len() > 0 ==> text::is_white(rest[0]),
    ensures
        registry::rewrite_simple("make"@ + rest) == Some("rtk make"@ + rest),
{
    reveal_strlit("rtk");
    reveal_strlit("cargo");
    reveal_strlit("diff");
    reveal_strlit("git");
    reveal_strlit("grep");
    reveal_strlit("rg");
    reveal_strlit("ls");
    reveal_strlit("make");
    let words = "make"@;
    let command = words + rest;
    let list = registry::rules();
    let p = |rule: (Seq<char>, Seq<char>)| registry::apply_rule(command, rule) is Some;
    assert(command.subrange(0, words.len() as int) =~= words);
    assert(list[0].0 == "rtk"@ && "rtk"@[0] != words[0]);
    lemma_no_match(command, words, list[0], 0);
    assert(list[1].0 == "cargo"@ && "cargo"@[0] != words[0]);
    lemma_no_match(command, words, list[1], 0);
    assert(list[2].0 == "diff"@ && "diff"@[0] != words[0]);
    lemma_no_match(command, words, list[2], 0);
    assert(list[3].0 == "git"@ && "git"@[0] != words[0]);
    lemma_no_match(command, words, list[3], 0);
    assert(list[4].0 == "grep"@ && "grep"@[0] != words[0]);
    lemma_no_match(command, words, list[4], 0);
    assert(list[5].0 == "rg"@ && "rg"@[0] != words[0]);
    lemma_no_match(command, words, list[5], 0);
    assert(list[6].0 == "ls"@ && "ls"@[0] != words[0]);
    lemma_no_match(command, words, list[6], 0);
    assert(list[7] == ("make"@, "rtk make"@));
    assert forall|j: int| 0 <= j < 7 implies !p(#[trigger] list[j]) by {
        assert(j == 0 || j == 1 || j == 2 || j == 3 || j == 4 || j == 5 || j == 6);
    }
    if rest.len() > 0 {
        assert(command[words.len() as int] == rest[0]);
    }
    assert(command.skip(words.len() as int) =~= rest);
    text::lemma_index_where(list, p, 7);
    let word = "make"@;
    assert forall|i: int| 0 <= i < word.len() implies !text::is_white(#[trigger] word[i]) by {
        assert(i == 0 || i == 1 || i == 2 || i == 3);
    }
    lemma_first_word(word, rest);
    lemma_no_reader(word);
}

/// The rule of `prettier`.
proof fn lemma_rule_9(rest: Seq<char>)
    requires
        rest.len() > 0 ==> text::is_white(rest[0]),
    ensures
        registry::rewrite_simple("prettier"@ + rest) == Some("rtk prettier"@ + rest),
{
    reveal_strlit("rtk");
    reveal_strlit("cargo");
    reveal_strlit("diff");
    reveal_strlit("git");
    reveal_strlit("grep");
    reveal_strlit("rg");
    reveal_strlit("ls");
    reveal_strlit("make");
    reveal_strlit("prettier");
    let words = "prettier"@;
    let command = words + rest;
    let list = registry::rules();
    let p = |rule: (Seq<char>, Seq<char>)| registry::apply_rule(command, rule) is Some;
    assert(command.subrange(0, words.len() as int) =~= words);
    assert(list[0].0 == "rtk"@ && "rtk"@[0] != words[0]);
    lemma_no_match(command, words, list[0], 0);
    assert(list[1].0 == "cargo"@ && "cargo"@[0] != words[0]);
    lemma_no_match(command, words, list[1], 0);
    assert(list[2].0 == "diff"@ && "diff"@[0] != words[0]);
    lemma_no_match(command, words, list[2], 0);
    assert(list[3].0 == "git"@ && "git"@[0] != words[0]);
    lemma_no_match(command, words, list[3], 0);
    assert(list[4].0 == "grep"@ && "grep"@[0] != words[0]);
    lemma_no_match(command, words, list[4], 0);
    assert(list[5].0 == "rg"@ && "rg"@[0] != words[0]);
    lemma_no_match(command, words, list[5], 0);
    assert(list[6].0 == "ls"@ && "ls"@[0] != words[0]);
    lemma_no_match(command, words, list[6], 0);
    assert(list[7].0 == "make"@ && "make"@[0] != words[0]);
    lemma_no_match(command, words, list[7], 0);
    assert(list[8] == ("prettier"@, "rtk prettier"@));
    assert forall|j: int| 0 <= j < 8 implies !p(#[trigger] list[j]) by {
        assert(j == 0 || j == 1 || j == 2 || j == 3 || j == 4 || j == 5 || j == 6 || j == 7);
    }
    if rest.len() > 0 {
        assert(command[words.len() as int] == rest[0]);
    }
    assert(command.skip(words.len() as int) =~= rest);
    text::lemma_index_where(list, p, 8);
    let word = "prettier"@;
    assert forall|i: int| 0 <= i < word.len() implies !text::is_white(#[trigger] word[i]) by {
        assert(i == 0 || i == 1 || i == 2 || i == 3 || i == 4 || i == 5 || i == 6 || i == 7);
    }
    lemma_first_word(word, rest);
    lemma_no_reader(word);
}

/// The rule of `npx prettier`.
proof fn lemma_rule_10(rest: Seq<char>)
    requires
        rest.len() > 0 ==> text::is_white(rest[0]),
    ensures
        registry::rewrite_simple("npx prettier"@ + rest) == Some("rtk prettier"@ + rest),
{
    reveal_strlit("rtk");
    reveal_strlit("cargo");
    reveal_strlit("diff");
    reveal_strlit("git");
    reveal_strlit("grep");
    reveal_strlit("rg");
    reveal_strlit("ls");
    reveal_strlit("make");
    reveal_strlit("prettier");
    reveal_strlit("npx prettier");
    reveal_strlit("npx");
    let words = "npx prettier"@;
    let command = words + rest;
    let list = registry::rules();
    let p = |rule: (Seq<char>, Seq<char>)| registry::apply_rule(command, rule) is Some;
    assert(command.subrange(0, words.len() as int) =~= words);
    assert(list[0].0 == "rtk"@ && "rtk"@[0] != words[0]);
    lemma_no_match(command, words, list[0], 0);
    assert(list[1].0 == "cargo"@ && "cargo"@[0] != words[0]);
    lemma_no_match(command, words, list[1], 0);
    assert(list[2].0 == "diff"@ && "diff"@[0] != words[0]);
    lemma_no_match(command, words, list[2], 0);
    assert(list[3].0 == "git"@ && "git"@[0] != words[0]);
    lemma_no_match(command, words, list[3], 0);
    assert(list[4].0 == "grep"@ && "grep"@[0] != words[0]);
    lemma_no_match(command, words, list[4], 0);
    assert(list[5].0 == "rg"@ && "rg"@[0] != words[0]);
    lemma_no_match(command, words, list[5], 0);
    assert(list[6].0 == "ls"@ && "ls"@[0] != words[0]);
    lemma_no_match(command, words, list[6], 0);
    assert(list[7].0 == "make"@ && "make"@[0] != words[0]);
    lemma_no_match(command, words, list[7], 0);
    assert(list[8].0 == "prettier"@ && "prettier"@[0] != words[0]);
    lemma_no_match(command, words, list[8], 0);
    assert(list[9] == ("npx prettier"@, "rtk prettier"@));
    assert forall|j: int| 0 <= j < 9 implies !p(#[trigger] list[j]) by {
        assert(j == 0 || j == 1 || j == 2 || j == 3 || j == 4 || j == 5 || j == 6 || j == 7
            || j == 8);
    }
    if rest.len() > 0 {
        assert(command[words.len() as int] == rest[0]);
    }
    assert(command.skip(words.len() as int) =~= rest);
    text::lemma_index_where(list, p, 9);
    let word = "npx"@;
    assert forall|i: int| 0 <= i < word.len() implies !text::is_white(#[trigger] word[i]) by {
        assert(i == 0 || i == 1 || i == 2);
    }
    lemma_first_word(word, words.skip(3) + rest);
    assert(word + (words.skip(3) + rest) =~= command);
    lemma_no_reader(word);
}

/// The rule of `pytest`.
proof fn lemma_rule_11(rest: Seq<char>)
    requires
        rest.len() > 0 ==> text::is_white(rest[0]),
    ensures
        registry::rewrite_simple("pytest"@ + rest) == Some("rtk pytest"@ + rest),
{
    reveal_strlit("rtk");
    reveal_strlit("cargo");
    reveal_strlit("diff");
    reveal_strlit("git");
    reveal_strlit("grep");
    reveal_strlit("rg");
    reveal_strlit("ls");
    reveal_strlit("make");
    reveal_strlit("prettier");
    reveal_strlit("npx prettier");
    reveal_strlit("pytest");
    let words = "pytest"@;
    let command = words + rest;
    let list = registry::rules();
    let p = |rule: (Seq<char>, Seq<char>)| registry::apply_rule(command, rule) is Some;
    assert(command.subrange(0, words.len() as int) =~= words);
    assert(list[0].0 == "rtk"@ && "rtk"@[0] != words[0]);
    lemma_no_match(command, words, list[0], 0);
    assert(list[1].0 == "cargo"@ && "cargo"@[0] != words[0]);
    lemma_no_match(command, words, list[1], 0);
    assert(list[2].0 == "diff"@ && "diff"@[0] != words[0]);
    lemma_no_match(command, words, list[2], 0);
    assert(list[3].0 == "git"@ && "git"@[0] != words[0]);
    lemma_no_match(command, words, list[3], 0);
    assert(list[4].0 == "grep"@ && "grep"@[0] != words[0]);
    lemma_no_match(command, words, list[4], 0);
    assert(list[5].0 == "rg"@ && "rg"@[0] != words[0]);
    lemma_no_match(command, words, list[5], 0);
    assert(list[6].0 == "ls"@ && "ls"@[0] != words[0]);
    lemma_no_match(command, words, list[6], 0);
    assert(list[7].0 == "make"@ && "make"@[0] != words[0]);
    lemma_no_match(command, words, list[7], 0);
    assert(list[8].0 == "prettier"@ && "prettier"@[1] != words[1]);
    lemma_no_match(command, words, list[8], 1);
    assert(list[9].0 == "npx prettier"@ && "npx prettier"@[0] != words[0]);
    lemma_no_match(command, words, list[9], 0);
    assert(list[10] == ("pytest"@, "rtk pytest"@));
    assert forall|j: int| 0 <= j < 10 implies !p(#[trigger] list[j]) by {
        assert(j == 0 || j == 1 || j == 2 || j == 3 || j == 4 || j == 5 || j == 6 || j == 7
            || j == 8 || j == 9);
    }
    if rest.len() > 0 {
        assert(command[words.len() as int] == rest[0]);
    }
    assert(command.skip(words.len() as int) =~= rest);
    text::lemma_index_where(list, p, 10);
    let word = "pytest"@;
    assert forall|i: int| 0 <= i < word.len() implies !text::is_white(#[trigger] word[i]) by {
        assert(i == 0 || i == 1 || i == 2 || i == 3 || i == 4 || i == 5);
    }
    lemma_first_word(word, rest);
    lemma_no_reader(word);
}

/// The rule of `python -m pytest`.
proof fn lemma_rule_12(rest: Seq<char>)
    requires
        rest.len() > 0 ==> text::is_white(rest[0]),
    ensures
        registry::rewrite_simple("python -m pytest"@ + rest) == Some("rtk pytest"@ + rest),
{
    reveal_strlit("rtk");
    reveal_strlit("cargo");
    reveal_strlit("diff");
    reveal_strlit("git");
    reveal_strlit("grep");
    reveal_strlit("rg");
    reveal_strlit("ls");
    reveal_strlit("make");
    reveal_strlit("prettier");
    reveal_strlit("npx prettier");
    reveal_strlit("pytest");
    reveal_strlit("python -m pytest");
    reveal_strlit("python");
    let words = "python -m pytest"@;
    let command = words + rest;
    let list = registry::rules();
    let p = |rule: (Seq<char>, Seq<char>)| registry::apply_rule(command, rule) is Some;
    assert(command.subrange(0, words.len() as int) =~= words);
    assert(list[0].0 == "rtk"@ && "rtk"@[0] != words[0]);
    lemma_no_match(command, words, list[0], 0);
    assert(list[1].0 == "cargo"@ && "cargo"@[0] != words[0]);
    lemma_no_match(command, words, list[1], 0);
    assert(list[2].0 == "diff"@ && "diff"@[0] != words[0]);
    lemma_no_match(command, words, list[2], 0);
    assert(list[3].0 == "git"@ && "git"@[0] != words[0]);
    lemma_no_match(command, words, list[3], 0);
    assert(list[4].0 == "grep"@ && "grep"@[0] != words[0]);
    lemma_no_match(command, words, list[4], 0);
    assert(list[5].0 == "rg"@ && "rg"@[0] != words[0]);
    lemma_no_match(command, words, list[5], 0);
    assert(list[6].0 == "ls"@ && "ls"@[0] != words[0]);
    lemma_no_match(command, words, list[6], 0);
    assert(list[7].0 == "make"@ && "make"@[0] != words[0]);
    lemma_no_match(command, words, list[7], 0);
    assert(list[8].0 == "prettier"@ && "prettier"@[1] != words[1]);
    lemma_no_match(command, words, list[8], 1);
    assert(list[9].0 == "npx prettier"@ && "npx prettier"@[0] != words[0]);
    lemma_no_match(command, words, list[9], 0);
    assert(list[10].0 == "pytest"@ && "pytest"@[3] != words[3]);
    lemma_no_match(command, words, list[10], 3);
    assert(list[11] == ("python -m pytest"@, "rtk pytest"@));
    assert forall|j: int| 0 <= j < 11 implies !p(#[trigger] list[j]) by {
        assert(j == 0 || j == 1 || j == 2 || j == 3 || j == 4 || j == 5 || j == 6 || j == 7
            || j == 8 || j == 9 || j == 10);
    }
    if rest.len() > 0 {
        assert(command[words.len() as int] == rest[0]);
    }
    assert(command.skip(words.len() as int) =~= rest);
    text::lemma_index_where(list, p, 11);
    let word = "python"@;
    assert forall|i: int| 0 <= i < word.len() implies !text::is_white(#[trigger] word[i]) by {
        assert(i == 0 || i == 1 || i == 2 || i == 3 || i == 4 || i == 5);
    }
    lemma_first_word(word, words.skip(6) + rest);
    assert(word + (words.skip(6) + rest) =~= command);
    lemma_no_reader(word);
}

/// The rule of `python3 -m pytest`.
proof fn lemma_rule_13(rest: Seq<char>)
    requires
        rest.len() > 0 ==> text::is_white(rest[0]),
    ensures
        registry::rewrite_simple("python3 -m pytest"@ + rest) == Some("rtk pytest"@ + rest),
{
    reveal_strlit("rtk");
    reveal_strlit("cargo");
    reveal_strlit("diff");
    reveal_strlit("git");
    reveal_strlit("grep");
    reveal_strlit("rg");
    reveal_strlit("ls");
    reveal_strlit("make");
    reveal_strlit("prettier");
    reveal_strlit("npx prettier");
    reveal_strlit("pytest");
    reveal_strlit("python -m pytest");
    reveal_strlit("python3 -m pytest");
    reveal_strlit("python3");
    let words = "python3 -m pytest"@;
    let command = words + rest;
    let list = registry::rules();
    let p = |rule: (Seq<char>, Seq<char>)| registry::apply_rule(command, rule) is Some;
    assert(command.subrange(0, words.len() as int) =~= words);
    assert(list[0].0 == "rtk"@ && "rtk"@[0] != words[0]);
    lemma_no_match(command, words, list[0], 0);
    assert(list[1].0 == "cargo"@ && "cargo"@[0] != words[0]);
    lemma_no_match(command, words, list[1], 0);
    assert(list[2].0 == "diff"@ && "diff"@[0] != words[0]);
    lemma_no_match(command, words, list[2], 0);
    assert(list[3].0 == "git"@ && "git"@[0] != words[0]);
    lemma_no_match(command, words, list[3], 0);
    assert(list[4].0 == "grep"@ && "grep"@[0] != words[0]);
    lemma_no_match(command, words, list[4], 0);
    assert(list[5].0 == "rg"@ && "rg"@[0] != words[0]);
    lemma_no_match(command, words, list[5], 0);
    assert(list[6].0 == "ls"@ && "ls"@[0] != words[0]);
    lemma_no_match(command, words, list[6], 0);
    assert(list[7].0 == "make"@ && "make"@[0] != words[0]);
    lemma_no_match(command, words, list[7], 0);
    assert(list[8].0 == "prettier"@ && "prettier"@[1] != words[1]);
    lemma_no_match(command, words, list[8], 1);
    assert(list[9].0 == "npx prettier"@ && "npx prettier"@[0] != words[0]);
    lemma_no_match(command, words, list[9], 0);
    assert(list[10].0 == "pytest"@ && "pytest"@[3] != words[3]);
    lemma_no_match(command, words, list[10], 3);
    assert(list[11].0 == "python -m pytest"@ && "python -m pytest"@[6] != words[6]);
    lemma_no_match(command, words, list[11], 6);
    assert(list[12] == ("python3 -m pytest"@, "rtk pytest"@));
    assert forall|j: int| 0 <= j < 12 implies !p(#[trigger] list[j]) by {
        assert(j == 0 || j == 1 || j == 2 || j == 3 || j == 4 || j == 5 || j == 6 || j == 7
            || j == 8 || j == 9 || j == 10 || j == 11);
    }
    if rest.len() > 0 {
        assert(command[words.len() as int] == rest[0]);
    }
    assert(command.skip(words.len() as int) =~= rest);
    text::lemma_index_where(list, p, 12);
    let word = "python3"@;
    assert forall|i: int| 0 <= i < word.len() implies !text::is_white(#[trigger] word[i]) by {
        assert(i == 0 || i == 1 || i == 2 || i == 3 || i == 4 || i == 5 || i == 6);
    }
    lemma_first_word(word, words.skip(7) + rest);
    assert(word + (words.skip(7) + rest) =~= command);
    lemma_no_reader(word);
}

/// The rule of `ruff`.
proof fn lemma_rule_14(rest: Seq<char>)
    requires
        rest.len() > 0 ==> text::is_white(rest[0]),
    ensures
        registry::rewrite_simple("ruff"@ + rest) == Some("rtk ruff"@ + rest),
{
    reveal_strlit("rtk");
    reveal_strlit("cargo");
    reveal_strlit("diff");
    reveal_strlit("git");
    reveal_strlit("grep");
    reveal_strlit("rg");
    reveal_strlit("ls");
    reveal_strlit("make");
    reveal_strlit("prettier");
    reveal_strlit("npx prettier");
    reveal_strlit("pytest");
    reveal_strlit("python -m pytest");
    reveal_strlit("python3 -m pytest");
    reveal_strlit("ruff");
    let words = "ruff"@;
    let command = words + rest;
    let list = registry::rules();
    let p = |rule: (Seq<char>, Seq<char>)| registry::apply_rule(command, rule) is Some;
    assert(command.subrange(0, words.len() as int) =~= words);
    assert(list[0].0 == "rtk"@ && "rtk"@[1] != words[1]);
    lemma_no_match(command, words, list[0], 1);
    assert(list[1].0 == "cargo"@ && "cargo"@[0] != words[0]);
    lemma_no_match(command, words, list[1], 0);
    assert(list[2].0 == "diff"@ && "diff"@[0] != words[0]);
    lemma_no_match(command, words, list[2], 0);
    assert(list[3].0 == "git"@ && "git"@[0] != words[0]);
    lemma_no_match(command, words, list[3], 0);
    assert(list[4].0 == "grep"@ && "grep"@[0] != words[0]);
    lemma_no_match(command, words, list[4], 0);
    assert(list[5].0 == "rg"@ && "rg"@[1] != words[1]);
    lemma_no_match(command, words, list[5], 1);
    assert(list[6].0 == "ls"@ && "ls"@[0] != words[0]);
    lemma_no_match(command, words, list[6], 0);
    assert(list[7].0 == "make"@ && "make"@[0] != words[0]);
    lemma_no_match(command, words, list[7], 0);
    assert(list[8].0 == "prettier"@ && "prettier"@[0] != words[0]);
    lemma_no_match(command, words, list[8], 0);
    assert(list[9].0 == "npx prettier"@ && "npx prettier"@[0] != words[0]);
    lemma_no_match(command, words, list[9], 0);
    assert(list[10].0 == "pytest"@ && "pytest"@[0] != words[0]);
    lemma_no_match(command, words, list[10], 0);
    assert(list[11].0 == "python -m pytest"@ && "python -m pytest"@[0] != words[0]);
    lemma_no_match(command, words, list[11], 0);
    assert(list[12].0 == "python3 -m pytest"@ && "python3 -m pytest"@[0] != words[0]);
    lemma_no_match(command, words, list[12], 0);
    assert(list[13] == ("ruff"@, "rtk ruff"@));
    assert forall|j: int| 0 <= j < 13 implies !p(#[trigger] list[j]) by {
        assert(j == 0 || j == 1 || j == 2 || j == 3 || j == 4 || j == 5 || j == 6 || j == 7
            || j == 8 || j == 9 || j == 10 || j == 11 || j == 12);
    }
    if rest.len() > 0 {
        assert(command[words.len() as int] == rest[0]);
    }
    assert(command.skip(words.len() as int) =~= rest);
    text::lemma_index_where(list, p, 13);
    let word = "ruff"@;
    assert forall|i: int| 0 <= i < word.len() implies !text::is_white(#[trigger] word[i]) by {
        assert(i == 0 || i == 1 || i == 2 || i == 3);
    }
    lemma_first_word(word, rest);
    lemma_no_reader(word);
}

/// The rule of `tree`.
#[verifier::rlimit(30)]
proof fn lemma_rule_15(rest: Seq<char>)
    requires
        rest.len() > 0 ==> text::is_white(rest[0]),
    ensures
        registry::rewrite_simple("tree"@ + rest) == Some("rtk tree"@ + rest),
{
    reveal_strlit("rtk");
    reveal_strlit("cargo");
    reveal_strlit("diff");
    reveal_strlit("git");
    reveal_strlit("grep");
    reveal_strlit("rg");
    reveal_strlit("ls");
    reveal_strlit("make");
    reveal_strlit("prettier");
    reveal_strlit("npx prettier");
    reveal_strlit("pytest");
    reveal_strlit("python -m pytest");
    reveal_strlit("python3 -m pytest");
    reveal_strlit("ruff");
    reveal_strlit("tree");
    let words = "tree"@;
    let command = words + rest;
    let list = registry::rules();
    let p = |rule: (Seq<char>, Seq<char>)| registry::apply_rule(command, rule) is Some;
    assert(command.subrange(0, words.len() as int) =~= words);
    assert(list[0].0 == "rtk"@ && "rtk"@[0] != words[0]);
    lemma_no_match(command, words, list[0], 0);
    assert(list[1].0 == "cargo"@ && "cargo"@[0] != words[0]);
    lemma_no_match(command, words, list[1], 0);
    assert(list[2].0 == "diff"@ && "diff"@[0] != words[0]);
    lemma_no_match(command, words, list[2], 0);
    assert(list[3].0 == "git"@ && "git"@[0] != words[0]);
    lemma_no_match(command, words, list[3], 0);
    assert(list[4].0 == "grep"@ && "grep"@[0] != words[0]);
    lemma_no_match(command, words, list[4], 0);
    assert(list[5].0 == "rg"@ && "rg"@[0] != words[0]);
    lemma_no_match(command, words, list[5], 0);
    assert(list[6].0 == "ls"@ && "ls"@[0] != words[0]);
    lemma_no_match(command, words, list[6], 0);
    assert(list[7].0 == "make"@ && "make"@[0] != words[0]);
    lemma_no_match(command, words, list[7], 0);
    assert(list[8].0 == "prettier"@ && "prettier"@[0] != words[0]);
    lemma_no_match(command, words, list[8], 0);
    assert(list[9].0 == "npx prettier"@ && "npx prettier"@[0] != words[0]);
    lemma_no_match(command, words, list[9], 0);
    assert(list[10].0 == "pytest"@ && "pytest"@[0] != words[0]);
    lemma_no_match(command, words, list[10], 0);
    assert(list[11].0 == "python -m pytest"@ && "python -m pytest"@[0] != words[0]);
    lemma_no_match(command, words, list[11], 0);
    assert(list[12].0 == "python3 -m pytest"@ && "python3 -m pytest"@[0] != words[0]);
    lemma_no_match(command, words, list[12], 0);
    assert(list[13].0 == "ruff"@ && "ruff"@[0] != words[0]);
    lemma_no_match(command, words, list[13], 0);
    assert(list[14] == ("tree"@, "rtk tree"@));
    assert forall|j: int| 0 <= j < 14 implies !p(#[trigger] list[j]) by {
        assert(j == 0 || j == 1 || j == 2 || j == 3 || j == 4 || j == 5 || j == 6 || j == 7
            || j == 8 || j == 9 || j == 10 || j == 11 || j == 12 || j == 13);
    }
    if rest.len() > 0 {
        assert(command[words.len() as int] == rest[0]);
    }
    assert(command.skip(words.len() as int) =~= rest);
    text::lemma_index_where(list, p, 14);
    let word = "tree"@;
    assert forall|i: int| 0 <= i < word.len() implies !text::is_white(#[trigger] word[i]) by {
        assert(i == 0 || i == 1 || i == 2 || i == 3);
    }
    lemma_first_word(word, rest);
    lemma_no_reader(word);
}

/// The rule of `tsc`.
#[verifier::rlimit(30)]
proof fn lemma_rule_16(rest: Seq<char>)
    requires
        rest.len() > 0 ==> text::is_white(rest[0]),
    ensures
        registry::rewrite_simple("tsc"@ + rest) == Some("rtk tsc"@ + rest),
{
    reveal_strlit("rtk");
    reveal_strlit("cargo");
    reveal_strlit("diff");
    reveal_strlit("git");
    reveal_strlit("grep");
    reveal_strlit("rg");
    reveal_strlit("ls");
    reveal_strlit("make");
    reveal_strlit("prettier");
    reveal_strlit("npx prettier");
    reveal_strlit("pytest");
    reveal_strlit("python -m pytest");
    reveal_strlit("python3 -m pytest");
    reveal_strlit("ruff");
    reveal_strlit("tree");
    reveal_strlit("tsc");
    let words = "tsc"@;
    let command = words + rest;
    let list = registry::rules();
    let p = |rule: (Seq<char>, Seq<char>)| registry::apply_rule(command, rule) is Some;
    assert(command.subrange(0, words.len() as int) =~= words);
    assert(list[0].0 == "rtk"@ && "rtk"@[0] != words[0]);
    lemma_no_match(command, words, list[0], 0);
    assert(list[1].0 == "cargo"@ && "cargo"@[0] != words[0]);
    lemma_no_match(command, words, list[1], 0);
    assert(list[2].0 == "diff"@ && "diff"@[0] != words[0]);
    lemma_no_match(command, words, list[2], 0);
    assert(list[3].0 == "git"@ && "git"@[0] != words[0]);
    lemma_no_match(command, words, list[3], 0);
    assert(list[4].0 == "grep"@ && "grep"@[0] != words[0]);
    lemma_no_match(command, words, list[4], 0);
    assert(list[5].0 == "rg"@ && "rg"@[0] != words[0]);
    lemma_no_match(command, words, list[5], 0);
    assert(list[6].0 == "ls"@ && "ls"@[0] != words[0]);
    lemma_no_match(command, words, list[6], 0);
    assert(list[7].0 == "make"@ && "make"@[0] != words[0]);
    lemma_no_match(command, words, list[7], 0);
    assert(list[8].0 == "prettier"@ && "prettier"@[0] != words[0]);
    lemma_no_match(command, words, list[8], 0);
    assert(list[9].0 == "npx prettier"@ && "npx prettier"@[0] != words[0]);
    lemma_no_match(command, words, list[9], 0);
    assert(list[10].0 == "pytest"@ && "pytest"@[0] != words[0]);
    lemma_no_match(command, words, list[10], 0);
    assert(list[11].0 == "python -m pytest"@ && "python -m pytest"@[0] != words[0]);
    lemma_no_match(command, words, list[11], 0);
    assert(list[12].0 == "python3 -m pytest"@ && "python3 -m pytest"@[0] != words[0]);
    lemma_no_match(command, words, list[12], 0);
    assert(list[13].0 == "ruff"@ && "ruff"@[0] != words[0]);
    lemma_no_match(command, words, list[13], 0);
    assert(list[14].0 == "tree"@ && "tree"@[1] != words[1]);
    lemma_no_match(command, words, list[14], 1);
    assert(list[15] == ("tsc"@, "rtk tsc"@));
    assert forall|j: int| 0 <= j < 15 implies !p(#[trigger] list[j]) by {
        assert(j == 0 || j == 1 || j == 2 || j == 3 || j == 4 || j == 5 || j == 6 || j == 7
            || j == 8 || j == 9 || j == 10 || j == 11 || j == 12 || j == 13 || j == 14);
    }
    if rest.len() > 0 {
        assert(command[words.len() as int] == rest[0]);
    }
    assert(command.skip(words.len() as int) =~= rest);
    text::lemma_index_where(list, p, 15);
    let word = "tsc"@;
    assert forall|i: int| 0 <= i < word.len() implies !text::is_white(#[trigger] word[i]) by {
        assert(i == 0 || i == 1 || i == 2);
    }
    lemma_first_word(word, rest);
    lemma_no_reader(word);
}

/// The rule of `npx tsc`.
#[verifier::rlimit(30)]
proof fn lemma_rule_17(rest: Seq<char>)
    requires
        rest.len() > 0 ==> text::is_white(rest[0]),
    ensures
        registry::rewrite_simple("npx tsc"@ + rest) == Some("rtk tsc"@ + rest),
{
    reveal_strlit("rtk");
    reveal_strlit("cargo");
    reveal_strlit("diff");
    reveal_strlit("git");
    reveal_strlit("grep");
    reveal_strlit("rg");
    reveal_strlit("ls");
    reveal_strlit("make");
    reveal_strlit("prettier");
    reveal_strlit("npx prettier");
    reveal_strlit("pytest");
    reveal_strlit("python -m pytest");
    reveal_strlit("python3 -m pytest");
    reveal_strlit("ruff");
    reveal_strlit("tree");
    reveal_strlit("tsc");
    reveal_strlit("npx tsc");
    reveal_strlit("npx");
    let words = "npx tsc"@;
    let command = words + rest;
    let list = registry::rules();
    let p = |rule: (Seq<char>, Seq<char>)| registry::apply_rule(command, rule) is Some;
    assert(command.subrange(0, words.len() as int) =~= words);
    assert(list[0].0 == "rtk"@ && "rtk"@[0] != words[0]);
    lemma_no_match(command, words, list[0], 0);
    assert(list[1].0 == "cargo"@ && "cargo"@[0] != words[0]);
    lemma_no_match(command, words, list[1], 0);
    assert(list[2].0 == "diff"@ && "diff"@[0] != words[0]);
    lemma_no_match(command, words, list[2], 0);
    assert(list[3].0 == "git"@ && "git"@[0] != words[0]);
    lemma_no_match(command, words, list[3], 0);
    assert(list[4].0 == "grep"@ && "grep"@[0] != words[0]);
    lemma_no_match(command, words, list[4], 0);
    assert(list[5].0 == "rg"@ && "rg"@[0] != words[0]);
    lemma_no_match(command, words, list[5], 0);
    assert(list[6].0 == "ls"@ && "ls"@[0] != words[0]);
    lemma_no_match(command, words, list[6], 0);
    assert(list[7].0 == "make"@ && "make"@[0] != words[0]);
    lemma_no_match(command, words, list[7], 0);
    assert(list[8].0 == "prettier"@ && "prettier"@[0] != words[0]);
    lemma_no_match(command, words, list[8], 0);
    assert(list[9].0 == "npx prettier"@ && "npx prettier"@[4] != words[4]);
    lemma_no_match(command, words, list[9], 4);
    assert(list[10].0 == "pytest"@ && "pytest"@[0] != words[0]);
    lemma_no_match(command, words, list[10], 0);
    assert(list[11].0 == "python -m pytest"@ && "python -m pytest"@[0] != words[0]);
    lemma_no_match(command, words, list[11], 0);
    assert(list[12].0 == "python3 -m pytest"@ && "python3 -m pytest"@[0] != words[0]);
    lemma_no_match(command, words, list[12], 0);
    assert(list[13].0 == "ruff"@ && "ruff"@[0] != words[0]);
    lemma_no_match(command, words, list[13], 0);
    assert(list[14].0 == "tree"@ && "tree"@[0] != words[0]);
    lemma_no_match(command, words, list[14], 0);
    assert(list[15].0 == "tsc"@ && "tsc"@[0] != words[0]);
    lemma_no_match(command, words, list[15], 0);
    assert(list[16] == ("npx tsc"@, "rtk tsc"@));
    assert forall|j: int| 0 <= j < 16 implies !p(#[trigger] list[j]) by {
        assert(j == 0 || j == 1 || j == 2 || j == 3 || j == 4 || j == 5 || j == 6 || j == 7
            || j == 8 || j == 9 || j == 10 || j == 11 || j == 12 || j == 13 || j == 14
            || j == 15);
    }
    if rest.len() > 0 {
        assert(command[words.len() as int] == rest[0]);
    }
    assert(command.skip(words.len() as int) =~= rest);
    text::lemma_index_where(list, p, 16);
    let word = "npx"@;
    assert forall|i: int| 0 <= i < word.len() implies !text::is_white(#[trigger] word[i]) by {
        assert(i == 0 || i == 1 || i == 2);
    }
    lemma_first_word(word, words.skip(3) + rest);
    assert(word + (words.skip(3) + rest) =~= command);
    lemma_no_reader(word);
}

/// Each known tool, called by the words that it is called by, becomes the command of `rtk` for
/// it, with the same arguments behind it.
pub proof fn law_tools_are_rewritten(words: Seq<char>, replacement: Seq<char>, rest: Seq<char>)
    requires
        (words == "rtk"@ && replacement == "rtk"@)
            || (words == "cargo"@ && replacement == "rtk cargo"@)
            || (words == "diff"@ && replacement == "rtk diff"@)
            || (words == "git"@ && replacement == "rtk git"@)
            || (words == "grep"@ && replacement == "rtk grep"@)
            || (words == "rg"@ && replacement == "rtk grep"@)
            || (words == "ls"@ && replacement == "rtk ls"@)
            || (words == "make"@ && replacement == "rtk make"@)
            || (words == "prettier"@ && replacement == "rtk prettier"@)
            || (words == "npx prettier"@ && replacement == "rtk prettier"@)
            || (words == "pytest"@ && replacement == "rtk pytest"@)
            || (words == "python -m pytest"@ && replacement == "rtk pytest"@)
            || (words == "python3 -m pytest"@ && replacement == "rtk pytest"@)
            || (words == "ruff"@ && replacement == "rtk ruff"@)
            || (words == "tree"@ && replacement == "rtk tree"@)
            || (words == "tsc"@ && replacement == "rtk tsc"@)
            || (words == "npx tsc"@ && replacement == "rtk tsc"@),
        rest.len() > 0 ==> text::is_white(rest[0]),
    ensures
        registry::rewrite_simple(words + rest) == Some(replacement + rest),
{
    lemma_rule_1(rest);
    lemma_rule_2(rest);
    lemma_rule_3(rest);
    lemma_rule_4(rest);
    lemma_rule_5(rest);
    lemma_rule_6(rest);
    lemma_rule_7(rest);
    lemma_rule_8(rest);
    lemma_rule_9(rest);
    lemma_rule_10(rest);
    lemma_rule_11(rest);
    lemma_rule_12(rest);
    lemma_rule_13(rest);
    lemma_rule_14(rest);
    lemma_rule_15(rest);
    lemma_rule_16(rest);
    lemma_rule_17(rest);
}

/// A command that prints a file is read as such.
pub proof fn law_readers_are_rewritten(word: Seq<char>, rest: Seq<char>)
    requires
        word == "cat"@ || word == "head"@ || word == "tail"@,
        rest.len() > 0 ==> text::is_white(rest[0]),
    ensures
        registry::rewrite_simple(word + rest) == registry::rewrite_reader(word + rest),
{
    reveal_strlit("cat");
    reveal_strlit("head");
    reveal_strlit("tail");
    assert forall|i: int| 0 <= i < word.len() implies !text::is_white(#[trigger] word[i]) by {
        assert(i == 0 || i == 1 || i == 2 || i == 3);
    }
    lemma_first_word(word, rest);
}

/// A command that prints one file shows it. With a number of lines, which may be written in
/// three ways, `head` shows as many of the first, and `tail` as many of the last.
pub proof fn law_files_are_read(
    command: Seq<char>,
    word: Seq<char>,
    count: Seq<char>,
    file: Seq<char>,
)
    requires
        word == "cat"@ || word == "head"@ || word == "tail"@,
    ensures
        text::words(command) == seq![word, file] && (file.len() == 0 || file[0] != '-')
            ==> registry::rewrite_reader(command) == Some("rtk read "@ + file),
        count.len() > 0
            && (forall|i: int| 0 <= i < count.len() ==> '0' <= #[trigger] count[i] <= '9')
            && (text::words(command) == seq![word, "-"@ + count, file] || text::words(command)
            == seq![word, "--lines="@ + count, file] || text::words(command) == seq![
            word,
            "-n"@,
            count,
            file,
        ]) ==> {
            &&& word == "head"@ ==> registry::rewrite_reader(command) == Some(
                "rtk read "@ + file + " --max-lines "@ + count,
            )
            &&& word == "tail"@ ==> registry::rewrite_reader(command) == Some(
                "rtk read "@ + file + " --tail-lines "@ + count,
            )
            &&& word == "cat"@ ==> registry::rewrite_reader(command) is None
        },
        word == "cat"@ && text::words(command).len() != 2 && text::words(command).len() > 0
            && text::words(command)[0] == word ==> registry::rewrite_reader(command) is None,
{
    let w = text::words(command);
    reveal_strlit("cat");
    reveal_strlit("head");
    reveal_strlit("tail");
    reveal_strlit("-");
    reveal_strlit("-n");
    reveal_strlit("--lines=");
    assert("cat"@[0] == 'c' && "head"@[0] == 'h' && "tail"@[0] == 't');
    let a = "-"@ + count;
    let b = "--lines="@ + count;
    assert(a[0] == '-' && a.skip(1) =~= count);
    assert(b[0] == '-' && b.skip(8) =~= count && b.skip(1)[0] == '-');
    assert(b.subrange(0, 8) =~= "--lines="@);
    assert(!number::is_digit(b.skip(1)[0]));
    if count.len() > 0 && forall|i: int|
        0 <= i < count.len() ==> '0' <= #[trigger] count[i] <= '9' {
        assert(number::is_digits(count));
        if w == seq![word, a, file] {
            assert(w[0] == word && w[1] == a && w[2] == file);
        } else if w == seq![word, b, file] {
            assert(w[0] == word && w[1] == b && w[2] == file);
        } else if w == seq![word, "-n"@, count, file] {
            assert(w[0] == word && w[1] == "-n"@ && w[2] == count && w[3] == file);
        }
    }
    if w == seq![word, file] {
        assert(w[0] == word && w[1] == file);
    }
}

} // verus!
