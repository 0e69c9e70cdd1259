//! What trimming, splitting, searching and joining do to every text.
use vstd::prelude::*;
use crate::text;

verus! {

/// The characters that are white space: five control characters from the tab on, the space,
/// and the spaces of Unicode; no others.
pub proof fn law_white_space(c: char)
    ensures
        text::is_white(c) <==> c == '\t' || c == '\n' || c as u32 == 11 || c as u32 == 12 || c
            == '\r' || c == ' ' || c as u32 == 0x85 || c as u32 == 0xa0 || c as u32 == 0x1680
            || 0x2000 <= c as u32 <= 0x200a || c as u32 == 0x2028 || c as u32 == 0x2029 || c as u32
            == 0x202f || c as u32 == 0x205f || c as u32 == 0x3000,
{
}

/// Trimming takes white space away at the ends and nothing else.
pub proof fn law_trim(a: Seq<char>, s: Seq<char>, b: Seq<char>)
    requires
        forall|i: int| 0 <= i < a.len() ==> text::is_white(#[trigger] a[i]),
        forall|i: int| 0 <= i < b.len() ==> text::is_white(#[trigger] b[i]),
        s.len() > 0 ==> !text::is_white(s[0]) && !text::is_white(s.last()),
    ensures
        text::trim(a + s + b) == s,
        text::trim_start(a + s) == s,
        text::trim_end(s + b) == s,
{
    let ink = text::ink();
    let all = a + s + b;
    let c = s + b;
    if s.len() > 0 {
        assert forall|i: int| 0 <= i < a.len() implies !ink(#[trigger] all[i]) by {
            assert(all[i] == a[i]);
        }
        assert(all[a.len() as int] == s[0]);
        text::lemma_index_where(all, ink, a.len() as int);
        assert(all.skip(a.len() as int) =~= c);
        let front = a + s;
        assert forall|i: int| 0 <= i < a.len() implies !ink(#[trigger] front[i]) by {
            assert(front[i] == a[i]);
        }
        assert(front[a.len() as int] == s[0]);
        text::lemma_index_where(front, ink, a.len() as int);
        assert(front.skip(a.len() as int) =~= s);
    } else {
        let front = a + s;
        assert(front =~= a);
        text::lemma_index_where(front, ink, a.len() as int);
        assert(front.skip(a.len() as int) =~= s);
        assert forall|i: int| 0 <= i < all.len() implies !ink(#[trigger] all[i]) by {
            if i < a.len() {
                assert(all[i] == a[i]);
            } else {
                assert(all[i] == b[i - a.len()]);
            }
        }
        text::lemma_index_where(all, ink, all.len() as int);
        assert(text::trim_start(all) =~= s);
        text::lemma_end_where(s, ink, 0);
        assert(s.take(0) =~= s);
    }
    assert forall|i: int| s.len() <= i < c.len() implies !ink(#[trigger] c[i]) by {
        assert(c[i] == b[i - s.len()]);
    }
    if s.len() > 0 {
        assert(c[s.len() - 1] == s.last());
    }
    text::lemma_end_where(c, ink, s.len() as int);
    assert(c.take(s.len() as int) =~= s);
}

/// Every text is white space, what trimming leaves of it, and white space; and what is left
/// neither starts nor ends with white space.
pub proof fn law_trim_leaves_the_middle(s: Seq<char>)
    ensures
        exists|i: int, j: int|
            #![trigger s.subrange(i, j)]
            0 <= i <= j <= s.len() && text::trim(s) == s.subrange(i, j) && (forall|k: int|
                0 <= k < i || j <= k < s.len() ==> text::is_white(#[trigger] s[k])),
        text::trim(s).len() > 0 ==> !text::is_white(text::trim(s)[0]) && !text::is_white(
            text::trim(s).last(),
        ),
{
    let ink = text::ink();
    let i = text::index_where(s, ink);
    text::lemma_index_where_bounds(s, ink);
    let u = text::trim_start(s);
    let e = text::end_where(u, ink);
    text::lemma_end_where_bounds(u, ink);
    let j = i + e;
    assert(u.take(e) =~= s.subrange(i, j));
    assert forall|k: int| 0 <= k < i || j <= k < s.len() implies text::is_white(
        #[trigger] s[k],
    ) by {
        if k < i {
            assert(!ink(s[k]));
        } else {
            assert(u[k - i] == s[k]);
            assert(!ink(u[k - i]));
        }
    }
    if e > 0 {
        assert(u[0] == s[i]);
        assert(ink(s[i]));
        assert(ink(u[e - 1]));
    }
}

/// A line ends at a line feed, which does not belong to it, nor does a carriage return right
/// before it. What is behind the last line feed is a line if it has characters.
pub proof fn law_lines(line: Seq<char>, rest: Seq<char>)
    requires
        forall|i: int| 0 <= i < line.len() ==> (#[trigger] line[i]) != '\n',
    ensures
        line.len() > 0 && line.last() == '\r' ==> text::lines(line + seq!['\n'] + rest) == seq![
            line.drop_last(),
        ] + text::lines(rest),
        line.len() == 0 || line.last() != '\r' ==> text::lines(line + seq!['\n'] + rest) == seq![
            line,
        ] + text::lines(rest),
        line.len() > 0 ==> text::lines(line) == seq![line],
        line.len() == 0 ==> text::lines(line) == Seq::<Seq<char>>::empty(),
{
    let s = line + seq!['\n'] + rest;
    let n = line.len() as int;
    let p = text::only('\n');
    assert forall|i: int| 0 <= i < n implies !p(#[trigger] s[i]) by {
        assert(s[i] == line[i]);
    }
    assert(s[n] == '\n');
    text::lemma_index_where(s, p, n);
    assert(s.take(n) =~= line && s.skip(n + 1) =~= rest);
    text::lemma_index_where(line, p, n);
}

/// The lines of a text that ends in a line feed, and of what follows, are the lines of each.
pub proof fn law_lines_meet(a: Seq<char>, b: Seq<char>)
    ensures
        text::lines(a + seq!['\n'] + b) == text::lines(a + seq!['\n']) + text::lines(b),
    decreases a.len(),
{
    let p = text::only('\n');
    let n = text::index_where(a, p);
    text::lemma_index_where_bounds(a, p);
    let line = a.take(n);
    assert forall|i: int| 0 <= i < line.len() implies (#[trigger] line[i]) != '\n' by {
        assert(!p(a[i]));
    }
    let e = Seq::<char>::empty();
    if n < a.len() {
        let rest = a.skip(n + 1);
        assert(a[n] == '\n');
        law_lines_meet(rest, b);
        let x = rest + seq!['\n'] + b;
        let y = rest + seq!['\n'];
        law_lines(line, x);
        law_lines(line, y);
        assert(a + seq!['\n'] + b =~= line + seq!['\n'] + x);
        assert(a + seq!['\n'] =~= line + seq!['\n'] + y);
        let cut = text::strip_cr(line);
        assert(seq![cut] + (text::lines(y) + text::lines(b)) =~= seq![cut] + text::lines(y)
            + text::lines(b));
    } else {
        assert(line =~= a);
        law_lines(line, b);
        law_lines(line, e);
        law_lines(e, e);
        assert(a + seq!['\n'] =~= line + seq!['\n'] + e);
        let cut = text::strip_cr(line);
        assert(seq![cut] + Seq::<Seq<char>>::empty() =~= seq![cut]);
    }
}

/// The lines of a text that is empty or ends in a line feed, and of what follows it, are the
/// lines of each.
pub proof fn law_lines_behind(front: Seq<char>, rest: Seq<char>)
    requires
        front.len() == 0 || front.last() == '\n',
    ensures
        text::lines(front + rest) == text::lines(front) + text::lines(rest),
{
    if front.len() == 0 {
        assert(front + rest =~= rest);
        assert(text::lines(front) + text::lines(rest) =~= text::lines(rest));
    } else {
        let a = front.drop_last();
        assert(a + seq!['\n'] =~= front);
        law_lines_meet(a, rest);
    }
}

/// Pieces end at the character that they are split on, which belongs to none.
pub proof fn law_split_on(piece: Seq<char>, c: char, rest: Seq<char>)
    requires
        forall|i: int| 0 <= i < piece.len() ==> (#[trigger] piece[i]) != c,
    ensures
        text::split_on(piece + seq![c] + rest, c) == seq![piece] + text::split_on(rest, c),
        text::split_on(piece, c) == seq![piece],
{
    let s = piece + seq![c] + rest;
    let n = piece.len() as int;
    let p = text::only(c);
    assert forall|i: int| 0 <= i < n implies !p(#[trigger] s[i]) by {
        assert(s[i] == piece[i]);
    }
    assert(s[n] == c);
    text::lemma_index_where(s, p, n);
    assert(s.take(n) =~= piece && s.skip(n + 1) =~= rest);
    text::lemma_index_where(piece, p, n);
}

/// A run of characters without white space is one word; white space has none.
pub proof fn law_words(s: Seq<char>)
    ensures
        s.len() > 0 && (forall|i: int| 0 <= i < s.len() ==> !text::is_white(#[trigger] s[i]))
            ==> text::words(s) == seq![s],
        (forall|i: int| 0 <= i < s.len() ==> text::is_white(#[trigger] s[i])) ==> text::words(s)
            == Seq::<Seq<char>>::empty(),
{
    if s.len() > 0 && (forall|i: int| 0 <= i < s.len() ==> !text::is_white(#[trigger] s[i])) {
        assert(text::ink()(s[0]));
        text::lemma_index_where(s, text::ink(), 0);
        assert(text::trim_start(s) =~= s);
        text::lemma_index_where(s, text::blank(), s.len() as int);
        assert(s.take(s.len() as int) =~= s);
        let e = s.skip(s.len() as int);
        assert(e =~= Seq::<char>::empty());
        text::lemma_empty_has_no_words();
        assert(seq![s] + Seq::<Seq<char>>::empty() =~= seq![s]);
    }
    if forall|i: int| 0 <= i < s.len() ==> text::is_white(#[trigger] s[i]) {
        text::lemma_white_has_no_words(s);
    }
}

/// A text contains another if and only if the other starts the rest of it from some position
/// on.
pub proof fn law_contains(s: Seq<char>, p: Seq<char>)
    ensures
        text::contains(s, p) <==> exists|i: int|
            0 <= i <= s.len() && p.is_prefix_of(#[trigger] s.skip(i)),
{
    if text::contains(s, p) {
        let i = choose|i: int| text::occurs_at(s, p, i);
        assert(s.skip(i).subrange(0, p.len() as int) =~= s.subrange(i, i + p.len()));
        assert(p.is_prefix_of(s.skip(i)));
    }
    if exists|i: int| 0 <= i <= s.len() && p.is_prefix_of(#[trigger] s.skip(i)) {
        let i = choose|i: int| 0 <= i <= s.len() && p.is_prefix_of(#[trigger] s.skip(i));
        assert(s.skip(i).subrange(0, p.len() as int) =~= s.subrange(i, i + p.len()));
        assert(text::occurs_at(s, p, i));
    }
}

/// A text contains whatever it is put together from.
pub proof fn law_contains_parts(a: Seq<char>, p: Seq<char>, b: Seq<char>)
    ensures
        text::contains(a + p + b, p),
{
    assert((a + p + b).subrange(a.len() as int, (a.len() + p.len()) as int) =~= p);
    assert(text::occurs_at(a + p + b, p, a.len() as int));
}

/// What is joined are the parts, with the separator between each two and nowhere else.
pub proof fn law_join(parts: Seq<Seq<char>>, part: Seq<char>, sep: Seq<char>)
    ensures
        text::join(Seq::<Seq<char>>::empty(), sep) == Seq::<char>::empty(),
        text::join(seq![part], sep) == part,
        parts.len() > 0 ==> text::join(parts.push(part), sep) == text::join(parts, sep) + sep + part,
{
    if parts.len() > 0 {
        assert(parts.push(part).drop_last() =~= parts);
        assert(text::join(parts, sep) + (sep + part) =~= text::join(parts, sep) + sep + part);
    }
}

/// A word is a part of its text.
pub proof fn lemma_words_are_parts(s: Seq<char>, i: int)
    requires
        0 <= i < text::words(s).len(),
    ensures
        exists|k: int|
            0 <= k && k + text::words(s)[i].len() <= s.len() && text::words(s)[i]
                == #[trigger] s.subrange(k, k + text::words(s)[i].len()),
    decreases s.len(),
{
    let j = text::index_where(s, text::ink());
    text::lemma_index_where_bounds(s, text::ink());
    let t = text::trim_start(s);
    let n = text::index_where(t, text::blank());
    text::lemma_index_where_bounds(t, text::blank());
    let w = text::words(s)[i];
    if i == 0 {
        assert(w == t.take(n));
        assert(w =~= s.subrange(j, j + w.len()));
    } else {
        let rest = t.skip(n);
        lemma_words_are_parts(rest, i - 1);
        assert(w == text::words(rest)[i - 1]);
        let k = choose|k: int|
            0 <= k && k + w.len() <= rest.len() && w == #[trigger] rest.subrange(k, k + w.len());
        assert(w =~= s.subrange(j + n + k, j + n + k + w.len()));
    }
}

/// What lists of strings hold is what each string holds, in their order.
pub proof fn law_views(list: Seq<String>, slices: Seq<&str>, s: String)
    ensures
        text::views(list).len() == list.len(),
        forall|i: int| 0 <= i < list.len() ==> (#[trigger] text::views(list)[i]) == list[i]@,
        text::str_views(slices).len() == slices.len(),
        forall|i: int| 0 <= i < slices.len() ==> (#[trigger] text::str_views(slices)[i]) == slices[i]@,
        text::opt_view(Some(s)) == Some(s@),
        text::opt_view(None) == None::<Seq<char>>,
{
}

} // verus!
