//! What a shell and the splitter read, character by character.
use vstd::prelude::*;
use crate::shell_words;
use crate::shell_words::Quoting;

verus! {

/// A value is written without quotation marks if and only if it has characters, all of them
/// ASCII letters, digits, or one of `_`, `-`, `.`, `/` and `:`.
pub proof fn law_bare_values(v: Seq<char>)
    ensures
        shell_words::quoted(v) == v <==> v.len() > 0 && forall|i: int|
            0 <= i < v.len() ==> ('a' <= #[trigger] v[i] <= 'z' || 'A' <= v[i] <= 'Z' || '0' <= v[i]
                <= '9' || v[i] == '_' || v[i] == '-' || v[i] == '.' || v[i] == '/' || v[i] == ':'),
{
    if shell_words::is_plain(v) {
        assert forall|i: int| 0 <= i < v.len() implies ('a' <= #[trigger] v[i] <= 'z' || 'A' <= v[i]
            <= 'Z' || '0' <= v[i] <= '9' || v[i] == '_' || v[i] == '-' || v[i] == '.' || v[i] == '/'
            || v[i] == ':') by {
            assert(shell_words::is_plain_char(v[i]));
        }
    } else {
        shell_words::lemma_escape_grows(v);
    }
}

/// A value with a character that means something to a shell, or with white space, is written
/// between single quotation marks.
pub proof fn law_special_values_are_quoted(v: Seq<char>, i: int)
    requires
        0 <= i < v.len(),
        v[i] == '*' || v[i] == '?' || v[i] == '[' || v[i] == ']' || v[i] == '$' || v[i] == '`'
            || v[i] == '"' || v[i] == '\'' || v[i] == '\\' || v[i] == ';' || v[i] == '&' || v[i]
            == '|' || v[i] == '<' || v[i] == '>' || v[i] == '(' || v[i] == ')' || v[i] == '{' || v[i]
            == '}' || v[i] == '~' || v[i] == '#' || v[i] == '!' || v[i] == '=' || v[i] == '%' || v[i]
            == '^' || v[i] == ',' || v[i] == '@' || v[i] == '+' || v[i] == ' ' || v[i] == '\t' || v[i]
            == '\n' || v[i] == '\r' || v[i] as u32 >= 0x80,
    ensures
        shell_words::quoted(v).len() >= 2,
        shell_words::quoted(v)[0] == '\'',
        shell_words::quoted(v).last() == '\'',
{
    assert(!shell_words::is_plain_char(v[i]));
}

/// How a shell reads a command line: between single quotation marks every character is
/// itself, behind a backslash the next one is, a space ends a word, and letters, digits and
/// `_`, `-`, `.`, `/` and `:` are themselves. Everything else has a meaning of its own, and a
/// line with it is not read here.
pub open spec fn shell_reads(s: Seq<char>, current: Option<Seq<char>>, single: bool) -> Option<
    Seq<Seq<char>>,
>
    decreases s.len(),
{
    let word = match current {
        Some(w) => w,
        None => seq![],
    };
    if s.len() == 0 {
        if single {
            None
        } else if current is Some {
            Some(seq![word])
        } else {
            Some(seq![])
        }
    } else if s[0] == '\'' {
        shell_reads(s.drop_first(), Some(word), !single)
    } else if single {
        shell_reads(s.drop_first(), Some(word.push(s[0])), true)
    } else if s[0] == '\\' {
        if s.len() == 1 {
            None
        } else {
            shell_reads(s.skip(2), Some(word.push(s[1])), false)
        }
    } else if s[0] == ' ' {
        match shell_reads(s.drop_first(), None, false) {
            Some(rest) => if current is Some {
                Some(seq![word] + rest)
            } else {
                Some(rest)
            },
            None => None,
        }
    } else if 'a' <= s[0] <= 'z' || 'A' <= s[0] <= 'Z' || '0' <= s[0] <= '9' || s[0] == '_' || s[0]
        == '-' || s[0] == '.' || s[0] == '/' || s[0] == ':' {
        shell_reads(s.drop_first(), Some(word.push(s[0])), false)
    } else {
        None
    }
}

/// A shell reads what is escaped as it was.
proof fn lemma_shell_reads_escape(v: Seq<char>, t: Seq<char>, word: Seq<char>)
    ensures
        shell_reads(shell_words::escape(v) + t, Some(word), true) == shell_reads(
            t,
            Some(word + v),
            true,
        ),
    decreases v.len(),
{
    if v.len() == 0 {
        assert(shell_words::escape(v) + t =~= t);
        assert(word + v =~= word);
    } else {
        let c = v[0];
        let rest = v.drop_first();
        shell_words::lemma_escape_first(v);
        shell_words::lemma_escape_one(c);
        let tail = shell_words::escape(rest) + t;
        let whole = shell_words::escape(v) + t;
        lemma_shell_reads_escape(rest, t, word.push(c));
        assert(word.push(c) + rest =~= word + v);
        if c == '\'' {
            let x = seq!['\\', '\'', '\''] + tail;
            let y = seq!['\''] + tail;
            assert(whole[0] == '\'' && whole.drop_first() =~= x);
            assert(x[0] == '\\' && x[1] == '\'' && x.skip(2) =~= y);
            assert(y[0] == '\'' && y.drop_first() =~= tail);
            assert(shell_reads(whole, Some(word), true) == shell_reads(x, Some(word), false));
            assert(shell_reads(x, Some(word), false) == shell_reads(
                y,
                Some(word.push('\'')),
                false,
            ));
        } else {
            assert(whole[0] == c && whole.drop_first() =~= tail);
        }
    }
}

/// A shell reads bare characters as they are.
proof fn lemma_shell_reads_bare(v: Seq<char>, t: Seq<char>, current: Option<Seq<char>>)
    requires
        v.len() > 0,
        forall|i: int| 0 <= i < v.len() ==> shell_words::is_plain_char(#[trigger] v[i]),
    ensures
        shell_reads(v + t, current, false) == shell_reads(
            t,
            Some(
                (match current {
                    Some(w) => w,
                    None => seq![],
                }) + v,
            ),
            false,
        ),
    decreases v.len(),
{
    let word = match current {
        Some(w) => w,
        None => seq![],
    };
    let c = v[0];
    let rest = v.drop_first();
    assert(shell_words::is_plain_char(c));
    assert((v + t)[0] == c && (v + t).drop_first() =~= rest + t);
    if rest.len() == 0 {
        assert(rest + t =~= t);
        assert(word.push(c) =~= word + v);
    } else {
        assert forall|i: int| 0 <= i < rest.len() implies shell_words::is_plain_char(
            #[trigger] rest[i],
        ) by {
            assert(rest[i] == v[i + 1]);
        }
        lemma_shell_reads_bare(rest, t, Some(word.push(c)));
        assert(word.push(c) + rest =~= word + v);
    }
}

/// A shell reads a quoted value as the value.
proof fn lemma_shell_reads_quoted(v: Seq<char>, t: Seq<char>)
    ensures
        shell_reads(shell_words::quoted(v) + t, None, false) == shell_reads(t, Some(v), false),
{
    if shell_words::is_plain(v) {
        lemma_shell_reads_bare(v, t, None);
        assert(Seq::<char>::empty() + v =~= v);
    } else {
        let close = seq!['\''] + t;
        let whole = shell_words::quoted(v) + t;
        assert(whole[0] == '\'');
        assert(whole.drop_first() =~= shell_words::escape(v) + close);
        lemma_shell_reads_escape(v, close, seq![]);
        assert(Seq::<char>::empty() + v =~= v);
        assert(close[0] == '\'' && close.drop_first() =~= t);
    }
}

/// A shell reads a command line of any values, whatever characters they have or have not, as
/// these values.
pub proof fn law_shells_read_values_back(values: Seq<Seq<char>>)
    ensures
        shell_reads(shell_words::command_line(values), None, false) == Some(values),
    decreases values.len(),
{
    if values.len() == 0 {
        assert(shell_words::command_line(values) =~= Seq::<char>::empty());
        assert(values =~= Seq::<Seq<char>>::empty());
    } else {
        let t = shell_words::behind_first(values);
        let rest = values.drop_first();
        shell_words::lemma_command_line_first(values);
        lemma_shell_reads_quoted(values[0], t);
        if values.len() == 1 {
            assert(values =~= seq![values[0]]);
        } else {
            law_shells_read_values_back(rest);
            assert(t[0] == ' ' && t.drop_first() =~= shell_words::command_line(rest));
            assert(seq![values[0]] + rest =~= values);
        }
    }
}

/// The text as the only token, or no token if it is empty.
pub open spec fn alone(s: Seq<char>) -> Seq<Seq<char>> {
    if s.len() == 0 {
        seq![]
    } else {
        seq![s]
    }
}

/// Characters that are neither blanks nor marks join the token.
proof fn lemma_bare_run(v: Seq<char>, t: Seq<char>, current: Seq<char>)
    requires
        forall|i: int|
            0 <= i < v.len() ==> (#[trigger] v[i]) != ' ' && v[i] != '\t' && v[i] != '\'' && v[i]
                != '"',
    ensures
        shell_words::tokens_from(v + t, current, Quoting::Off) == shell_words::tokens_from(
            t,
            current + v,
            Quoting::Off,
        ),
    decreases v.len(),
{
    if v.len() == 0 {
        assert(v + t =~= t);
        assert(current + v =~= current);
    } else {
        let rest = v.drop_first();
        let c = v[0];
        assert(c != ' ' && c != '\t' && c != '\'' && c != '"');
        assert((v + t)[0] == c && (v + t).drop_first() =~= rest + t);
        assert forall|i: int| 0 <= i < rest.len() implies (#[trigger] rest[i]) != ' ' && rest[i]
            != '\t' && rest[i] != '\'' && rest[i] != '"' by {
            assert(rest[i] == v[i + 1]);
        }
        lemma_bare_run(rest, t, current.push(c));
        assert(current.push(c) + rest =~= current + v);
    }
}

/// Between quotation marks of one kind everything but that mark joins the token.
proof fn lemma_quotation_run(mark: char, x: Seq<char>, t: Seq<char>, current: Seq<char>)
    requires
        mark == '\'' || mark == '"',
        forall|i: int| 0 <= i < x.len() ==> (#[trigger] x[i]) != mark,
    ensures
        ({
            let q = if mark == '\'' {
                Quoting::Single
            } else {
                Quoting::Double
            };
            shell_words::tokens_from(x + t, current, q) == shell_words::tokens_from(
                t,
                current + x,
                q,
            )
        }),
    decreases x.len(),
{
    if x.len() == 0 {
        assert(x + t =~= t);
        assert(current + x =~= current);
    } else {
        let rest = x.drop_first();
        let c = x[0];
        assert(c != mark);
        assert((x + t)[0] == c && (x + t).drop_first() =~= rest + t);
        assert forall|i: int| 0 <= i < rest.len() implies (#[trigger] rest[i]) != mark by {
            assert(rest[i] == x[i + 1]);
        }
        lemma_quotation_run(mark, rest, t, current.push(c));
        assert(current.push(c) + rest =~= current + x);
    }
}

/// A closed quotation joins the token.
proof fn lemma_closed_quotation_run(mark: char, x: Seq<char>, t: Seq<char>, current: Seq<char>)
    requires
        mark == '\'' || mark == '"',
        forall|i: int| 0 <= i < x.len() ==> (#[trigger] x[i]) != mark,
    ensures
        shell_words::tokens_from(seq![mark] + x + seq![mark] + t, current, Quoting::Off)
            == shell_words::tokens_from(t, current + x, Quoting::Off),
{
    let whole = seq![mark] + x + seq![mark] + t;
    let close = seq![mark] + t;
    assert(whole[0] == mark && whole.drop_first() =~= x + close);
    assert(close[0] == mark && close.drop_first() =~= t);
    lemma_quotation_run(mark, x, close, current);
}

/// A text without spaces, tabs and quotation marks is one token, if it has characters. No
/// other character ends a token.
pub proof fn law_plain_text_is_one_token(s: Seq<char>)
    requires
        forall|i: int|
            0 <= i < s.len() ==> (#[trigger] s[i]) != ' ' && s[i] != '\t' && s[i] != '\'' && s[i]
                != '"',
    ensures
        shell_words::tokens(s) == alone(s),
{
    lemma_bare_run(s, seq![], seq![]);
    assert(s + Seq::<char>::empty() =~= s);
    assert(Seq::<char>::empty() + s =~= s);
}

/// What stands between two quotation marks of one kind, with no such mark inside, belongs to
/// the token as it is: blanks and marks of the other kind too. The quotation is part of the
/// token that it touches, and one that is not closed goes on to the end.
pub proof fn law_quotations_are_kept_whole(
    before: Seq<char>,
    mark: char,
    inside: Seq<char>,
    behind: Seq<char>,
)
    requires
        mark == '\'' || mark == '"',
        forall|i: int| 0 <= i < inside.len() ==> (#[trigger] inside[i]) != mark,
        forall|i: int|
            0 <= i < before.len() ==> (#[trigger] before[i]) != ' ' && before[i] != '\t' && before[i]
                != '\'' && before[i] != '"',
        forall|i: int|
            0 <= i < behind.len() ==> (#[trigger] behind[i]) != ' ' && behind[i] != '\t' && behind[i]
                != '\'' && behind[i] != '"',
    ensures
        shell_words::tokens(before + (seq![mark] + inside + seq![mark] + behind)) == alone(
            before + inside + behind,
        ),
        shell_words::tokens(before + (seq![mark] + inside)) == alone(before + inside),
        shell_words::is_closed(before + (seq![mark] + inside + seq![mark] + behind)),
{
    let e = Seq::<char>::empty();
    lemma_bare_run(before, seq![mark] + inside + seq![mark] + behind, e);
    assert(e + before =~= before);
    lemma_closed_quotation_run(mark, inside, behind, before);
    lemma_bare_run(behind, e, before + inside);
    assert(behind + e =~= behind);
    let open = seq![mark] + inside;
    lemma_bare_run(before, open, e);
    assert(open[0] == mark && open.drop_first() =~= inside);
    lemma_quotation_run(mark, inside, e, before);
    assert(inside + e =~= inside);
    lemma_open_bare(before, Quoting::Off);
    lemma_open_bare(behind, Quoting::Off);
    let q = if mark == '\'' {
        Quoting::Single
    } else {
        Quoting::Double
    };
    lemma_open_inside(mark, inside, q);
    let close = seq![mark] + behind;
    let third = inside + close;
    let whole = seq![mark] + inside + seq![mark] + behind;
    assert(whole[0] == mark && whole.drop_first() =~= third);
    assert(close[0] == mark && close.drop_first() =~= behind);
    lemma_open_meets(inside, close, q);
    lemma_open_meets(before, whole, Quoting::Off);
}

/// Text without marks opens nothing.
proof fn lemma_open_bare(s: Seq<char>, q: Quoting)
    requires
        forall|i: int| 0 <= i < s.len() ==> (#[trigger] s[i]) != '\'' && s[i] != '"',
    ensures
        shell_words::open_after(s, q) == q,
    decreases s.len(),
{
    if s.len() > 0 {
        let rest = s.drop_first();
        assert(s[0] != '\'' && s[0] != '"');
        assert forall|i: int| 0 <= i < rest.len() implies (#[trigger] rest[i]) != '\'' && rest[i]
            != '"' by {
            assert(rest[i] == s[i + 1]);
        }
        lemma_open_bare(rest, q);
    }
}

/// Text without the mark that is open closes nothing.
proof fn lemma_open_inside(mark: char, s: Seq<char>, q: Quoting)
    requires
        q == Quoting::Single && mark == '\'' || q == Quoting::Double && mark == '"',
        forall|i: int| 0 <= i < s.len() ==> (#[trigger] s[i]) != mark,
    ensures
        shell_words::open_after(s, q) == q,
    decreases s.len(),
{
    if s.len() > 0 {
        let rest = s.drop_first();
        assert(s[0] != mark);
        assert forall|i: int| 0 <= i < rest.len() implies (#[trigger] rest[i]) != mark by {
            assert(rest[i] == s[i + 1]);
        }
        lemma_open_inside(mark, rest, q);
    }
}

/// What is open behind two texts is what the second leaves open of what the first did.
proof fn lemma_open_meets(a: Seq<char>, b: Seq<char>, q: Quoting)
    ensures
        shell_words::open_after(a + b, q) == shell_words::open_after(
            b,
            shell_words::open_after(a, q),
        ),
    decreases a.len(),
{
    if a.len() == 0 {
        assert(a + b =~= b);
    } else {
        assert((a + b)[0] == a[0] && (a + b).drop_first() =~= a.drop_first() + b);
        lemma_open_meets(a.drop_first(), b, shell_words::turned(a[0], q));
    }
}

/// A text without quotation marks closes its quotations, one with a single mark does not, and
/// two texts that close theirs do so together.
pub proof fn law_closed_texts(a: Seq<char>, b: Seq<char>)
    ensures
        (forall|i: int| 0 <= i < a.len() ==> (#[trigger] a[i]) != '\'' && a[i] != '"')
            ==> shell_words::is_closed(a),
        (forall|i: int| 0 <= i < a.len() ==> (#[trigger] a[i]) != '\'') ==> !shell_words::is_closed(
            seq!['\''] + a,
        ),
        (forall|i: int| 0 <= i < a.len() ==> (#[trigger] a[i]) != '"') ==> !shell_words::is_closed(
            seq!['"'] + a,
        ),
        shell_words::is_closed(a) && shell_words::is_closed(b) ==> shell_words::is_closed(a + b),
{
    if forall|i: int| 0 <= i < a.len() ==> (#[trigger] a[i]) != '\'' && a[i] != '"' {
        lemma_open_bare(a, Quoting::Off);
    }
    let x = seq!['\''] + a;
    let y = seq!['"'] + a;
    assert(x[0] == '\'' && x.drop_first() =~= a && y[0] == '"' && y.drop_first() =~= a);
    if forall|i: int| 0 <= i < a.len() ==> (#[trigger] a[i]) != '\'' {
        lemma_open_inside('\'', a, Quoting::Single);
    }
    if forall|i: int| 0 <= i < a.len() ==> (#[trigger] a[i]) != '"' {
        lemma_open_inside('"', a, Quoting::Double);
    }
    lemma_open_meets(a, b, Quoting::Off);
}

/// Behind a text that closes its quotations, what is read alike is read alike.
proof fn lemma_read_alike(a: Seq<char>, s: Seq<char>, t: Seq<char>, current: Seq<char>, q: Quoting)
    requires
        shell_words::open_after(a, q) == Quoting::Off,
        forall|w: Seq<char>|
            #![trigger shell_words::tokens_from(s, w, Quoting::Off)]
            shell_words::tokens_from(s, w, Quoting::Off) == shell_words::tokens_from(
                t,
                w,
                Quoting::Off,
            ),
    ensures
        shell_words::tokens_from(a + s, current, q) == shell_words::tokens_from(a + t, current, q),
    decreases a.len(),
{
    if a.len() == 0 {
        assert(a + s =~= s && a + t =~= t);
    } else {
        let c = a[0];
        let rest = a.drop_first();
        assert((a + s)[0] == c && (a + s).drop_first() =~= rest + s);
        assert((a + t)[0] == c && (a + t).drop_first() =~= rest + t);
        if shell_words::is_mark(c, q) {
            lemma_read_alike(rest, s, t, current, shell_words::turned(c, q));
        } else if shell_words::is_separator(c, q) {
            lemma_read_alike(rest, s, t, seq![], q);
        } else {
            lemma_read_alike(rest, s, t, current.push(c), q);
        }
    }
}

/// Wherever a quotation starts, its kind makes no difference to a text without marks; and
/// around a text without blanks it makes no difference whether there are marks at all.
pub proof fn law_quotation_marks_are_alike(a: Seq<char>, x: Seq<char>, b: Seq<char>)
    requires
        shell_words::is_closed(a),
        forall|i: int| 0 <= i < x.len() ==> (#[trigger] x[i]) != '\'' && x[i] != '"',
    ensures
        shell_words::tokens(a + (seq!['\''] + x + seq!['\''] + b)) == shell_words::tokens(
            a + (seq!['"'] + x + seq!['"'] + b),
        ),
        (forall|i: int| 0 <= i < x.len() ==> (#[trigger] x[i]) != ' ' && x[i] != '\t')
            ==> shell_words::tokens(a + (seq!['\''] + x + seq!['\''] + b)) == shell_words::tokens(
            a + (x + b),
        ),
{
    let s = seq!['\''] + x + seq!['\''] + b;
    let d = seq!['"'] + x + seq!['"'] + b;
    assert forall|w: Seq<char>|
        #![trigger shell_words::tokens_from(s, w, Quoting::Off)]
        shell_words::tokens_from(s, w, Quoting::Off) == shell_words::tokens_from(
            d,
            w,
            Quoting::Off,
        ) by {
        lemma_closed_quotation_run('\'', x, b, w);
        lemma_closed_quotation_run('"', x, b, w);
    }
    lemma_read_alike(a, s, d, seq![], Quoting::Off);
    if forall|i: int| 0 <= i < x.len() ==> (#[trigger] x[i]) != ' ' && x[i] != '\t' {
        assert forall|w: Seq<char>|
            #![trigger shell_words::tokens_from(s, w, Quoting::Off)]
            shell_words::tokens_from(s, w, Quoting::Off) == shell_words::tokens_from(
                x + b,
                w,
                Quoting::Off,
            ) by {
            lemma_closed_quotation_run('\'', x, b, w);
            lemma_bare_run(x, b, w);
        }
        lemma_read_alike(a, s, x + b, seq![], Quoting::Off);
    }
}

/// A command line is its values, each quoted, with a space between each two.
pub proof fn law_values_are_joined_by_spaces(x: Seq<Seq<char>>, v: Seq<char>)
    ensures
        shell_words::command_line(Seq::<Seq<char>>::empty()) == Seq::<char>::empty(),
        shell_words::command_line(seq![v]) == shell_words::quoted(v),
        x.len() > 0 ==> shell_words::command_line(x.push(v)) == shell_words::command_line(x)
            + seq![' '] + shell_words::quoted(v),
{
    let e = Seq::<Seq<char>>::empty();
    assert(shell_words::command_line(e) =~= Seq::<char>::empty());
    assert(shell_words::command_line(seq![v]) == shell_words::quoted(v));
    if x.len() > 0 {
        shell_words::lemma_command_lines_meet(x, seq![v]);
        assert(x.push(v) =~= x + seq![v]);
        assert(shell_words::command_line(x) + (seq![' '] + shell_words::quoted(v))
            =~= shell_words::command_line(x) + seq![' '] + shell_words::quoted(v));
    }
}

} // verus!
