use rtk::shell_words::{join, quote, split};

fn list(words: &[&str]) -> Vec<String> {
    words.iter().map(|w| w.to_string()).collect()
}

#[test]
fn splits_at_spaces_and_tabs() {
    assert_eq!(split("git  log\t-n 5"), list(&["git", "log", "-n", "5"]));
    assert_eq!(split("  a  "), list(&["a"]));
    assert_eq!(split(""), list(&[]));
    assert_eq!(split(" \t "), list(&[]));
}

#[test]
fn splits_at_no_other_white_space() {
    assert_eq!(split("a\nb"), list(&["a\nb"]));
    assert_eq!(split("a\u{a0}b"), list(&["a\u{a0}b"]));
}

#[test]
fn quotation_marks_hold_words_together() {
    assert_eq!(split("git commit -m 'one two'"), list(&["git", "commit", "-m", "one two"]));
    assert_eq!(split("say \"it's\""), list(&["say", "it's"]));
    assert_eq!(split("say 'a \"b\" c'"), list(&["say", "a \"b\" c"]));
    assert_eq!(split("a'b'c\"d\"e"), list(&["abcde"]));
}

#[test]
fn open_quotation_ends_at_the_end() {
    assert_eq!(split("a 'b c"), list(&["a", "b c"]));
}

#[test]
fn empty_quotation_leaves_no_token() {
    assert_eq!(split("a '' b"), list(&["a", "b"]));
    assert_eq!(split("a \"\" b"), list(&["a", "b"]));
}

#[test]
fn backslash_is_an_ordinary_character() {
    assert_eq!(split("a\\ b"), list(&["a\\", "b"]));
}

#[test]
fn plain_values_stand_for_themselves() {
    assert_eq!(quote("src/main_2.rs:10-x"), "src/main_2.rs:10-x");
}

#[test]
fn other_values_are_quoted() {
    assert_eq!(quote("a b"), "'a b'");
    assert_eq!(quote(""), "''");
    assert_eq!(quote("é"), "'é'");
    assert_eq!(quote("$HOME"), "'$HOME'");
}

#[test]
fn single_quotation_marks_are_escaped() {
    assert_eq!(quote("it's"), "'it'\\''s'");
    assert_eq!(quote("'"), "''\\'''");
}

#[test]
fn joins_with_spaces() {
    assert_eq!(join(&list(&["grep", "-n", "a b", "."])), "grep -n 'a b' .");
    assert_eq!(join(&list(&[])), "");
}

#[test]
fn splitting_undoes_joining() {
    let values = list(&["a", "b c", "d\"e", "-x", "tab\there", "é"]);
    assert_eq!(split(&join(&values)), values);
}

#[test]
fn splitting_undoes_quoting() {
    assert_eq!(split(&quote("two words")), list(&["two words"]));
}

#[test]
fn splitting_does_not_undo_an_escaped_mark() {
    assert_eq!(split(&quote("it's")), list(&["it\\s"]));
    assert_eq!(split(&quote("")), list(&[]));
}

#[test]
fn splitting_does_not_undo_joining_of_escaped_marks() {
    assert_eq!(split(&join(&list(&["a", "b'c", "d"]))), list(&["a", "b\\c d"]));
    assert_eq!(split(&join(&list(&["a", "", "d"]))), list(&["a", "d"]));
}

#[test]
fn tokens_meet_in_a_space() {
    let mut both = split("git log");
    both.extend(split("-S 'a b' \"c"));
    assert_eq!(split("git log -S 'a b' \"c"), both);
}

#[test]
fn tokens_meet_in_a_tab_behind_closed_quotations() {
    let mut both = split("say 'a b'\"c\" x");
    both.extend(split("\"d e\" 'f"));
    assert_eq!(split("say 'a b'\"c\" x\t\"d e\" 'f"), both);
    assert_eq!(split("say 'a b'\"c\" x \"d e\" 'f"), both);
}

#[test]
fn tokens_do_not_meet_inside_a_quotation() {
    assert_eq!(split("'a b"), list(&["a b"]));
    assert_eq!(split("'a\tb"), list(&["a\tb"]));
}

#[test]
fn tokens_keep_what_is_no_mark_and_no_blank_between_them() {
    assert_eq!(split(" a 'b c' \"it's\"\td\"\"").concat(), "ab cit'sd");
    assert_eq!(split("'' \"\"").concat(), "");
}

#[test]
fn text_without_a_blank_between_tokens_is_one_token() {
    assert_eq!(split("a'b c'\" \"d"), list(&["ab c d"]));
    assert_eq!(split("''\"\""), list(&[]));
}

#[test]
fn quoting_tells_values_apart() {
    let values = ["", "'", "''", "\\", "'\\''", "a", "'a'", "a'", "'a", "a b", "a' 'b", " ", "\""];
    for (i, a) in values.iter().enumerate() {
        for (j, b) in values.iter().enumerate() {
            assert_eq!(quote(a) == quote(b), i == j, "{a} {b}");
        }
    }
}

#[test]
fn joining_tells_lists_apart() {
    let lists = [
        list(&[]), list(&[""]), list(&["", ""]), list(&["a b"]), list(&["a", "b"]), list(&["a' 'b"]),
        list(&["a'", "'b"]), list(&[" "]),
    ];
    for (i, x) in lists.iter().enumerate() {
        for (j, y) in lists.iter().enumerate() {
            assert_eq!(join(x) == join(y), i == j, "{i} {j}");
        }
    }
}

#[test]
fn no_token_is_empty() {
    for line in ["", "''", " '' \"\" ", "a '' 'b' ''c"] {
        assert!(split(line).iter().all(|t| !t.is_empty()));
    }
}
