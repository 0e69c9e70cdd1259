//! Splitting a command line into words and quoting words back into one.
pub mod reading;

use std::borrow::Cow;
use vstd::prelude::*;
use crate::text;

verus! {

/// Which quotation marks are open.
#[derive(Clone, Copy, PartialEq, Eq, Structural, Debug)]
pub enum Quoting {
    Off,
    Single,
    Double,
}

/// Whether `c` opens or closes a quotation: a mark does, unless it stands inside the other
/// kind.
pub open spec fn is_mark(c: char, q: Quoting) -> bool {
    (c == '\'' && q != Quoting::Double) || (c == '"' && q != Quoting::Single)
}

/// Whether `c` stands between tokens: a space or a tab does, outside quotation marks.
pub open spec fn is_separator(c: char, q: Quoting) -> bool {
    (c == ' ' || c == '\t') && q == Quoting::Off
}

/// The quotation marks that are open behind `c`.
pub open spec fn turned(c: char, q: Quoting) -> Quoting {
    if !is_mark(c, q) {
        q
    } else if q != Quoting::Off {
        Quoting::Off
    } else if c == '\'' {
        Quoting::Single
    } else {
        Quoting::Double
    }
}

/// The quotation marks that are open behind `s`.
pub open spec fn open_after(s: Seq<char>, q: Quoting) -> Quoting
    decreases s.len(),
{
    if s.len() == 0 {
        q
    } else {
        open_after(s.drop_first(), turned(s[0], q))
    }
}

/// Whether each quotation in `s` is closed there.
pub open spec fn is_closed(s: Seq<char>) -> bool {
    open_after(s, Quoting::Off) == Quoting::Off
}

/// `s` without the blanks outside quotation marks and without the marks that open or close.
pub open spec fn kept_from(s: Seq<char>, q: Quoting) -> Seq<char>
    decreases s.len(),
{
    if s.len() == 0 {
        seq![]
    } else {
        (if is_mark(s[0], q) || is_separator(s[0], q) {
            seq![]
        } else {
            seq![s[0]]
        }) + kept_from(s.drop_first(), turned(s[0], q))
    }
}

/// The characters of a command line that belong to its tokens.
pub open spec fn kept(s: Seq<char>) -> Seq<char> {
    kept_from(s, Quoting::Off)
}

/// Whether none of the characters of `s` stands between tokens.
pub open spec fn is_one_piece(s: Seq<char>) -> bool {
    forall|i: int|
        0 <= i < s.len() ==> !is_separator(#[trigger] s[i], open_after(s.take(i), Quoting::Off))
}

/// The tokens of `s`, read with `current` already collected and the quotation
/// marks `q` open.
///
/// Marks that open or close do not belong to the token. Tokens without characters are
/// dropped, and a quotation that is still open at the end closes there.
pub open spec fn tokens_from(s: Seq<char>, current: Seq<char>, q: Quoting) -> Seq<Seq<char>>
    decreases s.len(),
{
    if s.len() == 0 {
        if current.len() > 0 {
            seq![current]
        } else {
            seq![]
        }
    } else {
        let c = s[0];
        let rest = s.drop_first();
        if is_mark(c, q) {
            tokens_from(rest, current, turned(c, q))
        } else if !is_separator(c, q) {
            tokens_from(rest, current.push(c), q)
        } else if current.len() > 0 {
            seq![current] + tokens_from(rest, seq![], q)
        } else {
            tokens_from(rest, seq![], q)
        }
    }
}

/// The tokens of a command line.
pub open spec fn tokens(s: Seq<char>) -> Seq<Seq<char>> {
    tokens_from(s, seq![], Quoting::Off)
}

/// The characters that need no quotation.
pub open spec fn is_plain_char(c: char) -> bool {
    ||| 'a' <= c <= 'z'
    ||| 'A' <= c <= 'Z'
    ||| '0' <= c <= '9'
    ||| c == '_'
    ||| c == '-'
    ||| c == '.'
    ||| c == '/'
    ||| c == ':'
}

/// The values that stand for themselves on a command line.
pub open spec fn is_plain(s: Seq<char>) -> bool {
    s.len() > 0 && forall|i: int| 0 <= i < s.len() ==> is_plain_char(#[trigger] s[i])
}

/// A single quotation mark written inside single quotation marks: close, an
/// escaped mark, open again.
pub open spec fn escaped_mark() -> Seq<char> {
    seq!['\'', '\\', '\'', '\'']
}

/// `s` with each single quotation mark escaped.
pub open spec fn escape(s: Seq<char>) -> Seq<char>
    decreases s.len(),
{
    if s.len() == 0 {
        seq![]
    } else if s.last() == '\'' {
        escape(s.drop_last()) + escaped_mark()
    } else {
        escape(s.drop_last()).push(s.last())
    }
}

/// `s` as one word of a command line.
pub open spec fn quoted(s: Seq<char>) -> Seq<char> {
    if is_plain(s) {
        s
    } else {
        seq!['\''] + escape(s) + seq!['\'']
    }
}

/// The values as the words of one command line.
pub open spec fn command_line(values: Seq<Seq<char>>) -> Seq<char> {
    text::join(values.map_values(|v: Seq<char>| quoted(v)), seq![' '])
}

/// Split a string into shell-like tokens, respecting single and double quotes.
pub fn split(input: &str) -> (r: Vec<String>)
    ensures
        text::views(r@) == tokens(input@),
{
    let mut list: Vec<String> = Vec::new();
    let mut current = String::new();
    let mut q = Quoting::Off;
    proof {
        assert(input@.skip(0) == input@);
        assert(text::views(list@) + tokens(input@) == tokens(input@));
    }
    for c in it: input.chars()
        invariant
            it.seq() == input@,
            tokens(input@) == text::views(list@) + tokens_from(
                input@.skip(it.index() as int),
                current@,
                q,
            ),
    {
        let ghost here = input@.skip(it.index() as int);
        assert(here.drop_first() == input@.skip(it.index() + 1));
        if c == '\'' && q != Quoting::Double {
            q = if q == Quoting::Single {
                Quoting::Off
            } else {
                Quoting::Single
            };
        } else if c == '"' && q != Quoting::Single {
            q = if q == Quoting::Double {
                Quoting::Off
            } else {
                Quoting::Double
            };
        } else if (c == ' ' || c == '\t') && q == Quoting::Off {
            if !current.as_str().is_empty() {
                let ghost rest = tokens_from(input@.skip(it.index() + 1), seq![], q);
                proof {
                    text::lemma_views_push(list@, current);
                    assert(text::views(list@) + (seq![current@] + rest) == text::views(list@).push(current@)
                        + rest);
                }
                list.push(current);
                current = String::new();
            } else {
                assert(current@ == Seq::<char>::empty());
            }
        } else {
            current.push(c);
        }
    }
    if !current.as_str().is_empty() {
        proof {
            text::lemma_views_push(list@, current);
            assert(text::views(list@) + seq![current@] == text::views(list@).push(current@));
        }
        list.push(current);
    } else {
        assert(text::views(list@) + Seq::<Seq<char>>::empty() == text::views(list@));
    }
    list
}

/// Whether `s` stands for itself on a command line.
fn plain(s: &str) -> (r: bool)
    ensures
        r == is_plain(s@),
{
    if s.is_empty() {
        return false;
    }
    let cs = text::chars_of(s);
    let mut i: usize = 0;
    while i < cs.len()
        invariant
            i <= cs@.len(),
            cs@ == s@,
            forall|j: int| 0 <= j < i ==> is_plain_char(#[trigger] cs@[j]),
        decreases cs@.len() - i,
    {
        let c = cs[i];
        if !(('a' <= c && c <= 'z') || ('A' <= c && c <= 'Z') || ('0' <= c && c <= '9') || c == '_'
            || c == '-' || c == '.' || c == '/' || c == ':') {
            assert(!is_plain_char(s@[i as int]));
            return false;
        }
        i += 1;
    }
    true
}

/// Write `value` as one word of a command line.
pub fn quote(value: &str) -> (r: Cow<'_, str>)
    ensures
        r@ == quoted(value@),
        r is Borrowed <==> is_plain(value@),
{
    if plain(value) {
        return Cow::Borrowed(value);
    }
    let cs = text::chars_of(value);
    let mut out = String::new();
    out.push('\'');
    let mut i: usize = 0;
    assert(value@.take(0) == Seq::<char>::empty());
    while i < cs.len()
        invariant
            i <= cs@.len(),
            cs@ == value@,
            out@ == seq!['\''] + escape(value@.take(i as int)),
        decreases cs@.len() - i,
    {
        let c = cs[i];
        proof {
            assert(value@.take(i + 1).drop_last() == value@.take(i as int));
        }
        if c == '\'' {
            out.push('\'');
            out.push('\\');
            out.push('\'');
            out.push('\'');
            assert(out@ == seq!['\''] + (escape(value@.take(i as int)) + escaped_mark()));
        } else {
            out.push(c);
        }
        i += 1;
    }
    assert(value@.take(i as int) == value@);
    out.push('\'');
    Cow::Owned(out)
}

/// Write the values as the words of one command line.
pub fn join(values: &[String]) -> (r: String)
    ensures
        r@ == command_line(text::views(values@)),
{
    let mut list: Vec<String> = Vec::new();
    let ghost all = text::views(values@).map_values(|v: Seq<char>| quoted(v));
    let mut i: usize = 0;
    while i < values.len()
        invariant
            i <= values@.len(),
            all == text::views(values@).map_values(|v: Seq<char>| quoted(v)),
            text::views(list@) == all.take(i as int),
        decreases values@.len() - i,
    {
        let word = match quote(values[i].as_str()) {
            Cow::Borrowed(s) => s.to_owned(),
            Cow::Owned(s) => s,
        };
        proof {
            text::lemma_views_push(list@, word);
            assert(all.take(i + 1) == all.take(i as int).push(word@));
        }
        list.push(word);
        i += 1;
    }
    proof {
        assert(all.take(i as int) == all);
        reveal_strlit(" ");
        assert(" "@ == seq![' ']);
    }
    text::joined(list.as_slice(), " ")
}

/// Characters that are neither marks nor blanks join the token.
proof fn lemma_plain_run(v: Seq<char>, t: Seq<char>, current: Seq<char>)
    requires
        forall|i: int| 0 <= i < v.len() ==> is_plain_char(#[trigger] v[i]),
    ensures
        tokens_from(v + t, current, Quoting::Off) == tokens_from(t, current + v, Quoting::Off),
    decreases v.len(),
{
    if v.len() == 0 {
        assert(v + t == t);
        assert(current + v == current);
    } else {
        let rest = v.drop_first();
        assert(is_plain_char(v[0]));
        assert((v + t).drop_first() == rest + t);
        assert forall|i: int| 0 <= i < rest.len() implies is_plain_char(#[trigger] rest[i]) by {
            assert(rest[i] == v[i + 1]);
        }
        lemma_plain_run(rest, t, current.push(v[0]));
        assert(current.push(v[0]) + rest == current + v);
    }
}

/// Inside single quotation marks everything but the mark joins the token.
proof fn lemma_single_run(v: Seq<char>, t: Seq<char>, current: Seq<char>)
    requires
        !v.contains('\''),
    ensures
        tokens_from(v + t, current, Quoting::Single) == tokens_from(t, current + v, Quoting::Single),
    decreases v.len(),
{
    if v.len() == 0 {
        assert(v + t == t);
        assert(current + v == current);
    } else {
        let rest = v.drop_first();
        assert(v[0] != '\'');
        assert((v + t).drop_first() == rest + t);
        assert(!rest.contains('\'')) by {
            if rest.contains('\'') {
                let k = choose|k: int| 0 <= k < rest.len() && rest[k] == '\'';
                assert(v[k + 1] == '\'');
            }
        }
        lemma_single_run(rest, t, current.push(v[0]));
        assert(current.push(v[0]) + rest == current + v);
    }
}

/// A value without single quotation marks is its own escape.
proof fn lemma_escape_keeps(v: Seq<char>)
    requires
        !v.contains('\''),
    ensures
        escape(v) == v,
    decreases v.len(),
{
    if v.len() > 0 {
        let front = v.drop_last();
        assert(v[v.len() - 1] != '\'');
        assert(!front.contains('\'')) by {
            if front.contains('\'') {
                let k = choose|k: int| 0 <= k < front.len() && front[k] == '\'';
                assert(v[k] == '\'');
            }
        }
        lemma_escape_keeps(front);
        assert(front.push(v.last()) == v);
    }
}

/// Reading a quoted value collects the value.
proof fn lemma_quoted_run(v: Seq<char>, t: Seq<char>)
    requires
        v.len() > 0,
        !v.contains('\''),
    ensures
        tokens_from(quoted(v) + t, seq![], Quoting::Off) == tokens_from(t, v, Quoting::Off),
{
    if is_plain(v) {
        lemma_plain_run(v, t, seq![]);
        assert(Seq::<char>::empty() + v == v);
    } else {
        lemma_escape_keeps(v);
        let close = seq!['\''] + t;
        let whole = quoted(v) + t;
        assert(whole[0] == '\'');
        assert(whole.drop_first() == v + close);
        lemma_single_run(v, close, seq![]);
        assert(Seq::<char>::empty() + v == v);
        assert(close[0] == '\'');
        assert(close.drop_first() == t);
    }
}

/// Reading a command line of quoted values collects all of them, the last one
/// still open.
proof fn lemma_command_line_run(values: Seq<Seq<char>>, t: Seq<char>)
    requires
        values.len() > 0,
        forall|i: int|
            0 <= i < values.len() ==> (#[trigger] values[i]).len() > 0 && !values[i].contains('\''),
    ensures
        tokens_from(command_line(values) + t, seq![], Quoting::Off) == values.drop_last()
            + tokens_from(t, values.last(), Quoting::Off),
    decreases values.len(),
{
    let q = |v: Seq<char>| quoted(v);
    let front = values.drop_last();
    let last = values.last();
    lemma_quoted_run(last, t);
    if values.len() == 1 {
        assert(command_line(values) == quoted(last));
        assert(front + tokens_from(t, last, Quoting::Off) == tokens_from(t, last, Quoting::Off));
    } else {
        let tail = seq![' '] + (quoted(last) + t);
        assert(values.map_values(q).drop_last() == front.map_values(q));
        assert(command_line(values) + t == command_line(front) + tail);
        assert forall|i: int| 0 <= i < front.len() implies (#[trigger] front[i]).len() > 0
            && !front[i].contains('\'') by {
            assert(front[i] == values[i]);
        }
        lemma_command_line_run(front, tail);
        assert(tail[0] == ' ');
        assert(tail.drop_first() == quoted(last) + t);
        assert(front.last().len() > 0) by {
            assert(front.last() == front[front.len() - 1]);
        }
        let rest = tokens_from(t, last, Quoting::Off);
        assert(front.drop_last() + (seq![front.last()] + rest) == front + rest);
    }
}

/// Tokens are dropped unless they have characters.
proof fn lemma_tokens_have_characters(s: Seq<char>, current: Seq<char>, q: Quoting, i: int)
    requires
        0 <= i < tokens_from(s, current, q).len(),
    ensures
        tokens_from(s, current, q)[i].len() > 0,
    decreases s.len(),
{
    if s.len() > 0 {
        let c = s[0];
        let rest = s.drop_first();
        if is_mark(c, q) {
            lemma_tokens_have_characters(rest, current, turned(c, q), i);
        } else if !is_separator(c, q) {
            lemma_tokens_have_characters(rest, current.push(c), q, i);
        } else if current.len() == 0 {
            lemma_tokens_have_characters(rest, seq![], q, i);
        } else if i > 0 {
            lemma_tokens_have_characters(rest, seq![], q, i - 1);
        }
    }
}

/// No token is empty, whatever the command line.
pub proof fn law_tokens_have_characters(s: Seq<char>)
    ensures
        forall|i: int| 0 <= i < tokens(s).len() ==> (#[trigger] tokens(s)[i]).len() > 0,
{
    assert forall|i: int| 0 <= i < tokens(s).len() implies (#[trigger] tokens(s)[i]).len() > 0 by {
        lemma_tokens_have_characters(s, seq![], Quoting::Off, i);
    }
}

/// Escaping two texts one after the other is escaping each.
proof fn lemma_escape_meets(x: Seq<char>, y: Seq<char>)
    ensures
        escape(x + y) == escape(x) + escape(y),
    decreases y.len(),
{
    if y.len() == 0 {
        assert(x + y =~= x);
        assert(escape(x) + escape(y) =~= escape(x));
    } else {
        assert((x + y).drop_last() =~= x + y.drop_last());
        lemma_escape_meets(x, y.drop_last());
        assert(escape(x + y) =~= escape(x) + escape(y));
    }
}

/// What is already collected starts the first token.
proof fn lemma_current_starts_token(s: Seq<char>, current: Seq<char>, q: Quoting)
    requires
        current.len() > 0,
    ensures
        tokens_from(s, current, q).len() > 0,
        current.is_prefix_of(tokens_from(s, current, q)[0]),
    decreases s.len(),
{
    assert(current.subrange(0, current.len() as int) =~= current);
    if s.len() > 0 {
        let c = s[0];
        let rest = s.drop_first();
        if is_mark(c, q) {
            lemma_current_starts_token(rest, current, turned(c, q));
        } else if is_separator(c, q) {
            assert(tokens_from(s, current, q)[0] == current);
        } else {
            lemma_current_starts_token(rest, current.push(c), q);
            let first = tokens_from(s, current, q)[0];
            assert(first.subrange(0, current.len() as int) =~= current.push(c).drop_last());
            assert(current.push(c).drop_last() =~= current);
        }
    }
}

/// Where the first single quotation mark of a value stands.
proof fn lemma_first_mark(v: Seq<char>) -> (k: int)
    requires
        v.contains('\''),
    ensures
        0 <= k < v.len(),
        v[k] == '\'',
        !v.take(k).contains('\''),
{
    let mark = text::only('\'');
    let k = text::index_where(v, mark);
    text::lemma_index_where_bounds(v, mark);
    let m = choose|m: int| 0 <= m < v.len() && v[m] == '\'';
    assert(k < v.len()) by {
        if k == v.len() {
            assert(!mark(v[m]));
        }
    }
    let front = v.take(k);
    if front.contains('\'') {
        let n = choose|n: int| 0 <= n < front.len() && front[n] == '\'';
        assert(!mark(v[n]));
    }
    k
}

/// Escaping one character.
proof fn lemma_escape_one(c: char)
    ensures
        escape(seq![c]) == if c == '\'' {
            escaped_mark()
        } else {
            seq![c]
        },
{
    let alone = seq![c];
    assert(alone.last() == c);
    assert(alone.drop_last() =~= Seq::<char>::empty());
    assert(escape(Seq::<char>::empty()) =~= Seq::<char>::empty());
    assert(escape(alone) =~= if c == '\'' {
        escaped_mark()
    } else {
        seq![c]
    });
}

/// Escaping a value whose first single quotation mark stands at `k`.
proof fn lemma_escape_at_mark(v: Seq<char>, k: int)
    requires
        0 <= k < v.len(),
        v[k] == '\'',
        !v.take(k).contains('\''),
    ensures
        escape(v) == v.take(k) + (escaped_mark() + escape(v.skip(k + 1))),
{
    let back = v.skip(k + 1);
    assert(v =~= v.take(k) + (seq!['\''] + back));
    lemma_escape_meets(v.take(k), seq!['\''] + back);
    lemma_escape_meets(seq!['\''], back);
    lemma_escape_keeps(v.take(k));
    lemma_escape_one('\'');
}

/// Reading an escaped mark inside single quotation marks collects a backslash and leaves
/// nothing open.
proof fn lemma_escaped_mark_run(t: Seq<char>, current: Seq<char>)
    ensures
        tokens_from(escaped_mark() + t, current, Quoting::Single) == tokens_from(
            t,
            current.push('\\'),
            Quoting::Off,
        ),
{
    let a = escaped_mark() + t;
    let b = seq!['\\', '\'', '\''] + t;
    let c = seq!['\'', '\''] + t;
    let d = seq!['\''] + t;
    let more = current.push('\\');
    assert(a[0] == '\'' && a.drop_first() =~= b);
    assert(b[0] == '\\' && b.drop_first() =~= c);
    assert(c[0] == '\'' && c.drop_first() =~= d);
    assert(d[0] == '\'' && d.drop_first() =~= t);
    assert(tokens_from(a, current, Quoting::Single) == tokens_from(b, current, Quoting::Off));
    assert(tokens_from(b, current, Quoting::Off) == tokens_from(c, more, Quoting::Off));
    assert(tokens_from(c, more, Quoting::Off) == tokens_from(d, more, Quoting::Single));
}

/// Reading a quoted value with a single quotation mark gives another token first: a
/// backslash stands where the first mark was.
proof fn lemma_marked_run(v: Seq<char>, t: Seq<char>)
    requires
        v.contains('\''),
    ensures
        tokens_from(quoted(v) + t, seq![], Quoting::Off).len() > 0,
        tokens_from(quoted(v) + t, seq![], Quoting::Off)[0] != v,
{
    let k = lemma_first_mark(v);
    let front = v.take(k);
    let behind = escape(v.skip(k + 1)) + seq!['\''] + t;
    let current = front.push('\\');
    let whole = quoted(v) + t;
    assert(!is_plain(v)) by {
        assert(!is_plain_char(v[k]));
    }
    lemma_escape_at_mark(v, k);
    assert(whole[0] == '\'');
    assert(whole.drop_first() =~= front + (escaped_mark() + behind));
    lemma_single_run(front, escaped_mark() + behind, seq![]);
    assert(Seq::<char>::empty() + front =~= front);
    lemma_escaped_mark_run(behind, front);
    lemma_current_starts_token(behind, current, Quoting::Off);
    let first = tokens_from(behind, current, Quoting::Off)[0];
    assert(first.subrange(0, current.len() as int)[k] == '\\');
    assert(first[k] == '\\');
}

/// A command line of two lists of values is that of the one, a space and that of the other.
proof fn lemma_command_lines_meet(x: Seq<Seq<char>>, y: Seq<Seq<char>>)
    requires
        x.len() > 0,
        y.len() > 0,
    ensures
        command_line(x + y) == command_line(x) + (seq![' '] + command_line(y)),
    decreases y.len(),
{
    let q = |v: Seq<char>| quoted(v);
    let all = x + y;
    assert(all.map_values(q).drop_last() =~= all.drop_last().map_values(q));
    assert(all.drop_last() =~= x + y.drop_last());
    if y.len() == 1 {
        assert(x + y.drop_last() =~= x);
        assert(command_line(y) == quoted(y[0]));
    } else {
        lemma_command_lines_meet(x, y.drop_last());
        assert(y.map_values(q).drop_last() =~= y.drop_last().map_values(q));
    }
    assert(command_line(x + y) =~= command_line(x) + (seq![' '] + command_line(y)));
}

/// Reading a command line whose values have characters, and of which one has a single
/// quotation mark, gives other tokens than the values.
proof fn lemma_marked_command_line(values: Seq<Seq<char>>, i: int)
    requires
        0 <= i < values.len(),
        values[i].contains('\''),
        forall|j: int| 0 <= j < i ==> (#[trigger] values[j]).len() > 0 && !values[j].contains('\''),
    ensures
        tokens(command_line(values)) != values,
{
    let front = values.take(i);
    let here = seq![values[i]];
    let back = values.skip(i + 1);
    let t = if back.len() == 0 {
        seq![]
    } else {
        seq![' '] + command_line(back)
    };
    let rest = quoted(values[i]) + t;
    assert(command_line(here) == quoted(values[i]));
    assert(command_line(here + back) == rest) by {
        if back.len() == 0 {
            assert(here + back =~= here);
            assert(rest =~= quoted(values[i]));
        } else {
            lemma_command_lines_meet(here, back);
        }
    }
    lemma_marked_run(values[i], t);
    let other = tokens(rest);
    if i == 0 {
        assert(values =~= here + back);
        assert(other[0] != values[0]);
    } else {
        assert(values =~= front + (here + back));
        lemma_command_lines_meet(front, here + back);
        let tail = seq![' '] + rest;
        lemma_command_line_run(front, tail);
        assert(tail[0] == ' ' && tail.drop_first() =~= rest);
        assert(front.last().len() > 0) by {
            assert(front.last() == values[i - 1]);
        }
        assert(front.drop_last() + (seq![front.last()] + other) =~= front + other);
        assert((front + other)[i] == other[0]);
    }
}

/// Quoting a value and splitting the result gives the value back, alone, if and only if the
/// value has characters and no single quotation mark among them. A value without characters
/// leaves no token, and one with a mark comes back changed, because the splitter knows no
/// backslash.
pub proof fn law_quote_then_split(v: Seq<char>)
    ensures
        tokens(quoted(v)) == seq![v] <==> v.len() > 0 && !v.contains('\''),
{
    assert(quoted(v) + Seq::<char>::empty() == quoted(v));
    if v.contains('\'') {
        lemma_marked_run(v, seq![]);
        assert(seq![v][0] == v);
    } else if v.len() > 0 {
        lemma_quoted_run(v, seq![]);
    } else {
        law_tokens_have_characters(quoted(v));
        assert(seq![v][0].len() == 0);
    }
}

/// Joining values into a command line and splitting it gives the values back, if and only if
/// each of them has characters and no single quotation mark among them.
pub proof fn law_join_then_split(values: Seq<Seq<char>>)
    ensures
        tokens(command_line(values)) == values <==> forall|i: int|
            0 <= i < values.len() ==> (#[trigger] values[i]).len() > 0 && !values[i].contains('\''),
{
    let bad = |v: Seq<char>| v.len() == 0 || v.contains('\'');
    let i = text::index_where(values, bad);
    text::lemma_index_where_bounds(values, bad);
    if i < values.len() {
        if values[i].contains('\'') {
            assert forall|j: int| 0 <= j < i implies (#[trigger] values[j]).len() > 0
                && !values[j].contains('\'') by {
                assert(!bad(values[j]));
            }
            lemma_marked_command_line(values, i);
        } else {
            law_tokens_have_characters(command_line(values));
        }
    } else {
        assert forall|j: int| 0 <= j < values.len() implies (#[trigger] values[j]).len() > 0
            && !values[j].contains('\'') by {
            assert(!bad(values[j]));
        }
        if values.len() == 0 {
            assert(command_line(values) == Seq::<char>::empty());
            assert(values == Seq::<Seq<char>>::empty());
        } else {
            lemma_command_line_run(values, seq![]);
            assert(command_line(values) + Seq::<char>::empty() == command_line(values));
            assert(values.last().len() > 0) by {
                assert(values.last() == values[values.len() - 1]);
            }
            assert(values.drop_last() + seq![values.last()] == values);
        }
    }
}

/// Whether `t` can follow a word of a command line: it is empty or starts with a space.
spec fn ends_word(t: Seq<char>) -> bool {
    t.len() == 0 || t[0] == ' '
}

/// Quotation marks and what is escaped between them are longer than the value.
proof fn lemma_escape_grows(v: Seq<char>)
    ensures
        escape(v).len() >= v.len(),
    decreases v.len(),
{
    if v.len() > 0 {
        lemma_escape_grows(v.drop_last());
    }
}

/// Two escaped values, each behind an open quotation that closes before the end of a word,
/// are the same only if the values are.
proof fn lemma_escape_tells_apart(a: Seq<char>, s: Seq<char>, b: Seq<char>, t: Seq<char>)
    requires
        ends_word(s),
        ends_word(t),
        escape(a) + (seq!['\''] + s) == escape(b) + (seq!['\''] + t),
    ensures
        a == b,
        s == t,
    decreases a.len() + b.len(),
{
    if a.len() == 0 && b.len() == 0 {
        assert(seq!['\''] + s =~= escape(a) + (seq!['\''] + s));
        assert(seq!['\''] + t =~= escape(b) + (seq!['\''] + t));
        assert((seq!['\''] + s).skip(1) =~= s);
        assert((seq!['\''] + t).skip(1) =~= t);
        assert(a =~= b);
    } else if a.len() == 0 {
        lemma_value_goes_on(b, t, s);
        assert(seq!['\''] + s =~= escape(a) + (seq!['\''] + s));
    } else if b.len() == 0 {
        lemma_value_goes_on(a, s, t);
        assert(seq!['\''] + t =~= escape(b) + (seq!['\''] + t));
    } else {
        let x = escape(seq![a[0]]);
        let y = escape(seq![b[0]]);
        let u = escape(a.drop_first()) + (seq!['\''] + s);
        let v = escape(b.drop_first()) + (seq!['\''] + t);
        lemma_escape_first(a);
        lemma_escape_first(b);
        lemma_escape_one(a[0]);
        lemma_escape_one(b[0]);
        assert(x + u =~= escape(a) + (seq!['\''] + s));
        assert(y + v =~= escape(b) + (seq!['\''] + t));
        assert((x + u)[0] == a[0]);
        assert((y + v)[0] == b[0]);
        assert(x == y);
        assert((x + u).skip(x.len() as int) =~= u);
        assert((y + v).skip(x.len() as int) =~= v);
        lemma_escape_tells_apart(a.drop_first(), s, b.drop_first(), t);
        assert(a =~= seq![a[0]] + a.drop_first());
        assert(b =~= seq![b[0]] + b.drop_first());
    }
}

/// Escaping a value is escaping its first character and then the others.
proof fn lemma_escape_first(v: Seq<char>)
    requires
        v.len() > 0,
    ensures
        escape(v) == escape(seq![v[0]]) + escape(v.drop_first()),
{
    assert(v =~= seq![v[0]] + v.drop_first());
    lemma_escape_meets(seq![v[0]], v.drop_first());
}

/// An escaped value with characters does not look like the end of a word.
proof fn lemma_value_goes_on(v: Seq<char>, t: Seq<char>, s: Seq<char>)
    requires
        v.len() > 0,
        ends_word(s),
    ensures
        escape(v) + (seq!['\''] + t) != seq!['\''] + s,
{
    lemma_escape_first(v);
    lemma_escape_one(v[0]);
    let whole = escape(v) + (seq!['\''] + t);
    assert(whole[0] == v[0]);
    assert((seq!['\''] + s)[0] == '\'');
    if v[0] == '\'' {
        assert(whole[1] == '\\');
        if s.len() > 0 {
            assert((seq!['\''] + s)[1] == ' ');
        }
    }
}

/// Two values that stand for themselves, each before the end of a word, are the same.
proof fn lemma_plain_tells_apart(a: Seq<char>, s: Seq<char>, b: Seq<char>, t: Seq<char>)
    requires
        is_plain(a),
        is_plain(b),
        ends_word(s),
        ends_word(t),
        a + s == b + t,
    ensures
        a == b,
        s == t,
{
    let n = a.len() as int;
    let m = b.len() as int;
    assert(n == m) by {
        if n < m {
            assert(is_plain_char(b[n]));
            assert((b + t)[n] == b[n]);
            assert((a + s)[n] == s[0]);
        } else if m < n {
            assert(is_plain_char(a[m]));
            assert((a + s)[m] == a[m]);
            assert((b + t)[m] == t[0]);
        }
    }
    assert(a =~= (a + s).take(n));
    assert(b =~= (b + t).take(n));
    assert(s =~= (a + s).skip(n));
    assert(t =~= (b + t).skip(n));
}

/// The first words of two command lines that are the same are the same, and so is what
/// follows them.
proof fn lemma_quoted_tells_apart(a: Seq<char>, s: Seq<char>, b: Seq<char>, t: Seq<char>)
    requires
        ends_word(s),
        ends_word(t),
        quoted(a) + s == quoted(b) + t,
    ensures
        a == b,
        s == t,
{
    let x = quoted(a) + s;
    let y = quoted(b) + t;
    if is_plain(a) && is_plain(b) {
        lemma_plain_tells_apart(a, s, b, t);
    } else if is_plain(a) {
        assert(is_plain_char(a[0]));
        assert(x[0] == a[0] && y[0] == '\'');
    } else if is_plain(b) {
        assert(is_plain_char(b[0]));
        assert(x[0] == '\'' && y[0] == b[0]);
    } else {
        assert(x.drop_first() =~= escape(a) + (seq!['\''] + s));
        assert(y.drop_first() =~= escape(b) + (seq!['\''] + t));
        lemma_escape_tells_apart(a, s, b, t);
    }
}

/// Quoting tells values apart: two values that are quoted alike are the same value.
pub proof fn law_quote_tells_values_apart(a: Seq<char>, b: Seq<char>)
    ensures
        quoted(a) == quoted(b) ==> a == b,
{
    if quoted(a) == quoted(b) {
        lemma_quoted_tells_apart(a, seq![], b, seq![]);
    }
}

/// What follows the first word of a command line.
spec fn behind_first(values: Seq<Seq<char>>) -> Seq<char> {
    if values.len() == 1 {
        seq![]
    } else {
        seq![' '] + command_line(values.drop_first())
    }
}

/// A command line is its first word and what follows it.
proof fn lemma_command_line_first(values: Seq<Seq<char>>)
    requires
        values.len() > 0,
    ensures
        command_line(values) == quoted(values[0]) + behind_first(values),
        ends_word(behind_first(values)),
        command_line(values).len() > 0,
{
    let here = seq![values[0]];
    assert(command_line(here) == quoted(values[0]));
    if values.len() == 1 {
        assert(values =~= here);
        assert(quoted(values[0]) + Seq::<char>::empty() =~= quoted(values[0]));
    } else {
        assert(values =~= here + values.drop_first());
        lemma_command_lines_meet(here, values.drop_first());
    }
}

/// Joining tells lists of values apart: two lists with the same command line are the same
/// list.
pub proof fn law_join_tells_lists_apart(x: Seq<Seq<char>>, y: Seq<Seq<char>>)
    ensures
        command_line(x) == command_line(y) ==> x == y,
    decreases x.len(),
{
    if command_line(x) == command_line(y) {
        if x.len() == 0 || y.len() == 0 {
            if x.len() > 0 {
                lemma_command_line_first(x);
            }
            if y.len() > 0 {
                lemma_command_line_first(y);
            }
            assert(x =~= y);
        } else {
            let s = behind_first(x);
            let t = behind_first(y);
            lemma_command_line_first(x);
            lemma_command_line_first(y);
            lemma_quoted_tells_apart(x[0], s, y[0], t);
            if s.len() > 0 {
                assert(s.skip(1) =~= command_line(x.drop_first()));
                assert(t.skip(1) =~= command_line(y.drop_first()));
                law_join_tells_lists_apart(x.drop_first(), y.drop_first());
                assert(x =~= seq![x[0]] + x.drop_first());
                assert(y =~= seq![y[0]] + y.drop_first());
            } else {
                assert(x =~= y);
            }
        }
    }
}

/// Reading a text that closes its quotations, a blank and more text is reading the one and
/// then the other.
proof fn lemma_tokens_meet(a: Seq<char>, blank: char, b: Seq<char>, current: Seq<char>, q: Quoting)
    requires
        open_after(a, q) == Quoting::Off,
        blank == ' ' || blank == '\t',
    ensures
        tokens_from(a + seq![blank] + b, current, q) == tokens_from(a, current, q) + tokens(b),
    decreases a.len(),
{
    let whole = a + seq![blank] + b;
    if a.len() == 0 {
        assert(whole[0] == blank);
        assert(whole.drop_first() =~= b);
        assert(Seq::<Seq<char>>::empty() + tokens(b) =~= tokens(b));
    } else {
        let c = a[0];
        let rest = a.drop_first();
        assert(whole[0] == c);
        assert(whole.drop_first() =~= rest + seq![blank] + b);
        if is_mark(c, q) {
            lemma_tokens_meet(rest, blank, b, current, turned(c, q));
        } else if is_separator(c, q) {
            lemma_tokens_meet(rest, blank, b, seq![], q);
            let more = tokens_from(rest, seq![], q);
            assert(seq![current] + (more + tokens(b)) =~= seq![current] + more + tokens(b));
        } else {
            lemma_tokens_meet(rest, blank, b, current.push(c), q);
        }
    }
}

/// Where a text that closes its quotations and another meet in a space or a tab, the tokens of
/// both are the tokens of each, one after the other.
pub proof fn law_tokens_meet_in_a_blank(a: Seq<char>, b: Seq<char>)
    requires
        is_closed(a),
    ensures
        tokens(a + seq![' '] + b) == tokens(a) + tokens(b),
        tokens(a + seq!['\t'] + b) == tokens(a) + tokens(b),
{
    lemma_tokens_meet(a, ' ', b, seq![], Quoting::Off);
    lemma_tokens_meet(a, '\t', b, seq![], Quoting::Off);
}

/// What is collected and the characters that are kept are the tokens one after the other.
proof fn lemma_tokens_keep_characters(s: Seq<char>, current: Seq<char>, q: Quoting)
    ensures
        tokens_from(s, current, q).flatten() == current + kept_from(s, q),
    decreases s.len(),
{
    if s.len() == 0 {
        if current.len() > 0 {
            seq![current].lemma_flatten_one_element();
        }
        assert(tokens_from(s, current, q).flatten() =~= current + kept_from(s, q));
    } else {
        let c = s[0];
        let rest = s.drop_first();
        if is_mark(c, q) {
            lemma_tokens_keep_characters(rest, current, turned(c, q));
        } else if is_separator(c, q) {
            lemma_tokens_keep_characters(rest, seq![], q);
            let more = tokens_from(rest, seq![], q);
            assert((seq![current] + more).drop_first() =~= more);
        } else {
            lemma_tokens_keep_characters(rest, current.push(c), q);
        }
        assert(tokens_from(s, current, q).flatten() =~= current + kept_from(s, q));
    }
}

/// The tokens one after the other are the command line without the blanks outside quotation
/// marks and without the marks that open or close.
pub proof fn law_tokens_keep_the_characters(s: Seq<char>)
    ensures
        tokens(s).flatten() == kept(s),
{
    lemma_tokens_keep_characters(s, seq![], Quoting::Off);
    assert(Seq::<char>::empty() + kept(s) =~= kept(s));
}

/// Reading a text in which nothing stands between tokens collects all that is kept.
proof fn lemma_piece_run(s: Seq<char>, current: Seq<char>, q: Quoting)
    requires
        forall|i: int|
            0 <= i < s.len() ==> !is_separator(#[trigger] s[i], open_after(s.take(i), q)),
    ensures
        tokens_from(s, current, q) == tokens_from(seq![], current + kept_from(s, q), q),
    decreases s.len(),
{
    if s.len() == 0 {
        assert(current + kept_from(s, q) =~= current);
    } else {
        let c = s[0];
        let rest = s.drop_first();
        let p = turned(c, q);
        assert(s.take(0) =~= Seq::<char>::empty());
        assert(!is_separator(c, q));
        assert forall|i: int| 0 <= i < rest.len() implies !is_separator(
            #[trigger] rest[i],
            open_after(rest.take(i), p),
        ) by {
            assert(rest[i] == s[i + 1]);
            assert(s.take(i + 1).drop_first() =~= rest.take(i));
        }
        if is_mark(c, q) {
            lemma_piece_run(rest, current, p);
            assert(kept_from(s, q) =~= kept_from(rest, p));
        } else {
            lemma_piece_run(rest, current.push(c), p);
            assert(current.push(c) + kept_from(rest, p) =~= current + kept_from(s, q));
        }
    }
}

/// A text in which nothing stands between tokens is one token, what is kept of it; or none, if
/// nothing is kept.
pub proof fn law_one_piece_is_one_token(s: Seq<char>)
    requires
        is_one_piece(s),
    ensures
        tokens(s) == if kept(s).len() == 0 {
            Seq::<Seq<char>>::empty()
        } else {
            seq![kept(s)]
        },
{
    lemma_piece_run(s, seq![], Quoting::Off);
    assert(Seq::<char>::empty() + kept(s) =~= kept(s));
}

/// A value that stands for itself has no marks.
proof fn lemma_plain_is_closed(w: Seq<char>)
    requires
        forall|i: int| 0 <= i < w.len() ==> is_plain_char(#[trigger] w[i]),
    ensures
        is_closed(w),
    decreases w.len(),
{
    if w.len() > 0 {
        assert(is_plain_char(w[0]));
        let rest = w.drop_first();
        assert forall|i: int| 0 <= i < rest.len() implies is_plain_char(#[trigger] rest[i]) by {
            assert(rest[i] == w[i + 1]);
        }
        lemma_plain_is_closed(rest);
    }
}

/// A value that stands for itself is its only token.
pub proof fn lemma_plain_is_one_token(w: Seq<char>)
    requires
        is_plain(w),
    ensures
        is_closed(w),
        tokens(w) == seq![w],
{
    lemma_plain_is_closed(w);
    lemma_plain_run(w, seq![], seq![]);
    assert(w + Seq::<char>::empty() =~= w);
    assert(Seq::<char>::empty() + w =~= w);
}

} // verus!
