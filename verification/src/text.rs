//! What strings hold, and the operations on them that the planner needs.
//!
//! A text is a `Seq<char>`, a list of texts a `Seq<Seq<char>>`. The spec
//! functions say what trimming, splitting, searching and joining mean on those;
//! the executable functions below them compute the same on `str` and `String`.
pub mod laws;

use vstd::prelude::*;

verus! {

/// `String::push` of std: the character goes to the end of the string, and
/// nothing else changes.
pub assume_specification[ String::push ](s: &mut String, c: char)
    ensures
        final(s)@ == old(s)@.push(c),
;

/// The texts that a list of strings holds.
pub open spec fn views(v: Seq<String>) -> Seq<Seq<char>> {
    v.map_values(|s: String| s@)
}

/// The text that an optional string holds.
pub open spec fn opt_view(s: Option<String>) -> Option<Seq<char>> {
    match s {
        Some(v) => Some(v@),
        None => None,
    }
}

/// The texts that a list of string slices holds.
pub open spec fn str_views(v: Seq<&str>) -> Seq<Seq<char>> {
    v.map_values(|s: &str| s@)
}

/// The position of the first element that satisfies `p`, or the length when
/// none does.
pub open spec fn index_where<A>(s: Seq<A>, p: spec_fn(A) -> bool) -> int
    decreases s.len(),
{
    if s.len() == 0 || p(s[0]) {
        0
    } else {
        1 + index_where(s.drop_first(), p)
    }
}

/// How many elements are left when those behind the last one that satisfies
/// `p` are dropped.
pub open spec fn end_where<A>(s: Seq<A>, p: spec_fn(A) -> bool) -> int
    decreases s.len(),
{
    if s.len() == 0 || p(s.last()) {
        s.len() as int
    } else {
        end_where(s.drop_last(), p)
    }
}

/// The characters with Unicode's `White_Space` property.
pub open spec fn is_white(c: char) -> bool {
    let n = c as u32;
    ||| 0x09 <= n <= 0x0d
    ||| n == 0x20
    ||| n == 0x85
    ||| n == 0xa0
    ||| n == 0x1680
    ||| 0x2000 <= n <= 0x200a
    ||| n == 0x2028
    ||| n == 0x2029
    ||| n == 0x202f
    ||| n == 0x205f
    ||| n == 0x3000
}

/// The characters that trimming keeps at the ends.
pub open spec fn ink() -> spec_fn(char) -> bool {
    |c: char| !is_white(c)
}

/// The characters that end a word.
pub open spec fn blank() -> spec_fn(char) -> bool {
    |c: char| is_white(c)
}

/// The characters equal to `c`.
pub open spec fn only(c: char) -> spec_fn(char) -> bool {
    |x: char| x == c
}

/// `s` without the white space at its start.
pub open spec fn trim_start(s: Seq<char>) -> Seq<char> {
    s.skip(index_where(s, ink()))
}

/// `s` without the white space at its end.
pub open spec fn trim_end(s: Seq<char>) -> Seq<char> {
    s.take(end_where(s, ink()))
}

/// `s` without the white space at both ends.
pub open spec fn trim(s: Seq<char>) -> Seq<char> {
    trim_end(trim_start(s))
}

/// A line without the carriage return that ends it.
pub open spec fn strip_cr(s: Seq<char>) -> Seq<char> {
    if s.len() > 0 && s.last() == '\r' {
        s.drop_last()
    } else {
        s
    }
}

/// The lines of `s`: each ends at a line feed, or at a carriage return and a
/// line feed, neither of which belongs to it. What follows the last line feed is
/// a line only if it is not empty.
pub open spec fn lines(s: Seq<char>) -> Seq<Seq<char>>
    decreases s.len(),
{
    let n = index_where(s, only('\n'));
    if 0 <= n < s.len() {
        seq![strip_cr(s.take(n))] + lines(s.skip(n + 1))
    } else if s.len() > 0 {
        seq![s]
    } else {
        seq![]
    }
}

/// The pieces of `s` between the occurrences of `c`: always one more than there
/// are occurrences.
pub open spec fn split_on(s: Seq<char>, c: char) -> Seq<Seq<char>>
    decreases s.len(),
{
    let n = index_where(s, only(c));
    if 0 <= n < s.len() {
        seq![s.take(n)] + split_on(s.skip(n + 1), c)
    } else {
        seq![s]
    }
}

/// The maximal runs of characters of `s` that are not white space.
pub open spec fn words(s: Seq<char>) -> Seq<Seq<char>>
    decreases s.len(),
{
    let t = trim_start(s);
    let n = index_where(t, blank());
    if 0 < n <= t.len() <= s.len() {
        seq![t.take(n)] + words(t.skip(n))
    } else {
        seq![]
    }
}

/// Whether `p` stands in `s` at position `i`.
pub open spec fn occurs_at(s: Seq<char>, p: Seq<char>, i: int) -> bool {
    0 <= i && i + p.len() <= s.len() && s.subrange(i, i + p.len()) == p
}

/// Whether `p` stands anywhere in `s`.
pub open spec fn contains(s: Seq<char>, p: Seq<char>) -> bool {
    exists|i: int| occurs_at(s, p, i)
}

/// The parts one after the other, with `sep` between each two.
pub open spec fn join(parts: Seq<Seq<char>>, sep: Seq<char>) -> Seq<char>
    decreases parts.len(),
{
    if parts.len() == 0 {
        seq![]
    } else if parts.len() == 1 {
        parts[0]
    } else {
        join(parts.drop_last(), sep) + (sep + parts.last())
    }
}

/// The characters of `s` that are not among `dropped`.
pub open spec fn without(s: Seq<char>, dropped: Seq<char>) -> Seq<char> {
    s.filter(|c: char| !dropped.contains(c))
}

/// `s` without `p` at its start, where it starts with it.
pub open spec fn strip_prefix(s: Seq<char>, p: Seq<char>) -> Seq<char> {
    if p.is_prefix_of(s) {
        s.skip(p.len() as int)
    } else {
        s
    }
}

/// `index_where` is the one position that has no match before it and that is
/// either a match or the end.
pub proof fn lemma_index_where<A>(s: Seq<A>, p: spec_fn(A) -> bool, n: int)
    requires
        0 <= n <= s.len(),
        forall|j: int| 0 <= j < n ==> !p(#[trigger] s[j]),
        n < s.len() ==> p(s[n]),
    ensures
        index_where(s, p) == n,
    decreases s.len(),
{
    if n > 0 {
        let t = s.drop_first();
        assert forall|j: int| 0 <= j < n - 1 implies !p(#[trigger] t[j]) by {
            assert(t[j] == s[j + 1]);
        }
        assert(!p(s[0]));
        lemma_index_where(t, p, n - 1);
    }
}

/// What `index_where` says of the elements up to the position it gives.
pub proof fn lemma_index_where_bounds<A>(s: Seq<A>, p: spec_fn(A) -> bool)
    ensures
        0 <= index_where(s, p) <= s.len(),
        forall|j: int| 0 <= j < index_where(s, p) ==> !p(#[trigger] s[j]),
        index_where(s, p) < s.len() ==> p(s[index_where(s, p)]),
    decreases s.len(),
{
    if s.len() > 0 && !p(s[0]) {
        let t = s.drop_first();
        lemma_index_where_bounds(t, p);
        assert forall|j: int| 0 <= j < index_where(s, p) implies !p(#[trigger] s[j]) by {
            if j > 0 {
                assert(s[j] == t[j - 1]);
            }
        }
    }
}

/// `end_where` is the one length that has no match behind it and that either
/// ends in a match or is zero.
pub proof fn lemma_end_where<A>(s: Seq<A>, p: spec_fn(A) -> bool, n: int)
    requires
        0 <= n <= s.len(),
        forall|j: int| n <= j < s.len() ==> !p(#[trigger] s[j]),
        n > 0 ==> p(s[n - 1]),
    ensures
        end_where(s, p) == n,
    decreases s.len(),
{
    if n < s.len() {
        let t = s.drop_last();
        assert forall|j: int| n <= j < t.len() implies !p(#[trigger] t[j]) by {
            assert(t[j] == s[j]);
        }
        assert(!p(s[s.len() - 1]));
        lemma_end_where(t, p, n);
    }
}

/// What `end_where` says of the elements behind the length it gives.
pub proof fn lemma_end_where_bounds<A>(s: Seq<A>, p: spec_fn(A) -> bool)
    ensures
        0 <= end_where(s, p) <= s.len(),
        forall|j: int| end_where(s, p) <= j < s.len() ==> !p(#[trigger] s[j]),
        end_where(s, p) > 0 ==> p(s[end_where(s, p) - 1]),
    decreases s.len(),
{
    if s.len() > 0 && !p(s.last()) {
        let t = s.drop_last();
        lemma_end_where_bounds(t, p);
        assert forall|j: int| end_where(s, p) <= j < s.len() implies !p(#[trigger] s[j]) by {
            if j < t.len() {
                assert(s[j] == t[j]);
            }
        }
    }
}

/// One more string in the list is one more text at its end.
pub proof fn lemma_views_push(v: Seq<String>, s: String)
    ensures
        views(v.push(s)) == views(v).push(s@),
{
    assert(views(v.push(s)) =~= views(v).push(s@));
}

/// Trimming leaves nothing to trim.
pub proof fn lemma_trim_twice(s: Seq<char>)
    ensures
        trim(trim(s)) == trim(s),
{
    let u = trim_start(s);
    let v = trim(s);
    lemma_index_where_bounds(s, ink());
    lemma_end_where_bounds(u, ink());
    if v.len() > 0 {
        assert(v[0] == u[0]);
        assert(ink()(u[0])) by {
            assert(u[0] == s[index_where(s, ink())]);
        }
        assert(ink()(v[v.len() - 1]));
        assert(v.skip(0) == v);
        assert(v.take(v.len() as int) == v);
    } else {
        assert(v == Seq::<char>::empty());
        assert(v.skip(0) == v);
        assert(v.take(0) == v);
    }
}

/// A text with a character that is not white space has a word.
pub proof fn lemma_ink_has_word(s: Seq<char>, i: int)
    requires
        0 <= i < s.len(),
        !is_white(s[i]),
    ensures
        words(s).len() > 0,
{
    lemma_index_where_bounds(s, ink());
    let k = index_where(s, ink());
    let t = trim_start(s);
    assert(k <= i) by {
        if k > i {
            assert(ink()(s[i]));
        }
    }
    assert(t[0] == s[k]);
    assert(ink()(s[k]));
    lemma_index_where_bounds(t, blank());
}

/// White space has no words.
proof fn lemma_white_has_no_words(s: Seq<char>)
    requires
        forall|i: int| 0 <= i < s.len() ==> is_white(#[trigger] s[i]),
    ensures
        words(s) == Seq::<Seq<char>>::empty(),
{
    lemma_index_where(s, ink(), s.len() as int);
    assert(trim_start(s) =~= Seq::<char>::empty());
}

/// Nothing has no words.
pub proof fn lemma_empty_has_no_words()
    ensures
        words(Seq::<char>::empty()) == Seq::<Seq<char>>::empty(),
{
    lemma_white_has_no_words(Seq::<char>::empty());
}

/// A space has no words.
pub proof fn lemma_space_has_no_words()
    ensures
        words(seq![' ']) == Seq::<Seq<char>>::empty(),
{
    lemma_white_has_no_words(seq![' ']);
}

/// Trimming the end keeps the words.
proof fn lemma_trim_end_keeps_words(s: Seq<char>)
    ensures
        words(trim_end(s)) == words(s),
{
    let e = end_where(s, ink());
    lemma_end_where_bounds(s, ink());
    let back = s.skip(e);
    assert forall|i: int| 0 <= i < back.len() implies is_white(#[trigger] back[i]) by {
        assert(back[i] == s[i + e]);
        assert(!ink()(s[i + e]));
    }
    lemma_white_has_no_words(back);
    law_words_meet_in_white_space(s.take(e), back);
    assert(s.take(e) + back =~= s);
    assert(words(s.take(e)) + words(back) =~= words(s.take(e)));
}

/// A text with a character that is not white space is not empty when it is trimmed.
pub proof fn lemma_ink_survives_trim(s: Seq<char>, i: int)
    requires
        0 <= i < s.len(),
        !is_white(s[i]),
    ensures
        trim(s).len() > 0,
{
    let k = index_where(s, ink());
    lemma_index_where_bounds(s, ink());
    assert(k <= i) by {
        if k > i {
            assert(ink()(s[i]));
        }
    }
    let t = trim_start(s);
    assert(t[0] == s[k]);
    lemma_end_where_bounds(t, ink());
    assert(ink()(t[0]));
}

/// Whether `c` has Unicode's `White_Space` property.
pub fn white(c: char) -> (r: bool)
    ensures
        r == is_white(c),
{
    let n: u32 = c as u32;
    (0x09 <= n && n <= 0x0d) || n == 0x20 || n == 0x85 || n == 0xa0 || n == 0x1680 || (0x2000 <= n
        && n <= 0x200a) || n == 0x2028 || n == 0x2029 || n == 0x202f || n == 0x205f || n == 0x3000
}

/// The characters of `s`, in order.
pub fn chars_of(s: &str) -> (r: Vec<char>)
    ensures
        r@ == s@,
{
    let mut r: Vec<char> = Vec::new();
    for c in it: s.chars()
        invariant
            it.seq() == s@,
            r@ == it.seq().take(it.index() as int),
    {
        r.push(c);
    }
    r
}

/// The string made of the characters `cs[from..to]`.
pub fn string_of(cs: &[char], from: usize, to: usize) -> (r: String)
    requires
        from <= to <= cs@.len(),
    ensures
        r@ == cs@.subrange(from as int, to as int),
{
    let mut r = String::new();
    let mut i: usize = from;
    while i < to
        invariant
            from <= i <= to <= cs@.len(),
            r@ == cs@.subrange(from as int, i as int),
        decreases to - i,
    {
        r.push(cs[i]);
        i += 1;
    }
    r
}

/// Whether the two strings hold the same characters.
pub fn same(a: &str, b: &str) -> (r: bool)
    ensures
        r == (a@ == b@),
{
    let x = a.as_bytes();
    let y = b.as_bytes();
    if x.len() != y.len() {
        return false;
    }
    let mut i: usize = 0;
    while i < x.len()
        invariant
            i <= x@.len() == y@.len(),
            x@ == vstd::utf8::encode_utf8(a@),
            y@ == vstd::utf8::encode_utf8(b@),
            forall|j: int| 0 <= j < i ==> x@[j] == y@[j],
        decreases x@.len() - i,
    {
        if x[i] != y[i] {
            return false;
        }
        i += 1;
    }
    proof {
        assert(x@ == y@);
        vstd::utf8::encode_utf8_decode_utf8(a@);
        vstd::utf8::encode_utf8_decode_utf8(b@);
    }
    true
}

/// `s` without the white space at both ends.
pub fn trimmed(s: &str) -> (r: String)
    ensures
        r@ == trim(s@),
{
    let cs = chars_of(s);
    let mut i: usize = 0;
    while i < cs.len() && white(cs[i])
        invariant
            i <= cs@.len(),
            forall|j: int| 0 <= j < i ==> is_white(#[trigger] cs@[j]),
        decreases cs@.len() - i,
    {
        i += 1;
    }
    proof {
        lemma_index_where(cs@, ink(), i as int);
    }
    let ghost t = cs@.skip(i as int);
    let mut k: usize = cs.len();
    while k > i && white(cs[k - 1])
        invariant
            i <= k <= cs@.len(),
            t == cs@.skip(i as int),
            forall|j: int| k <= j < cs@.len() ==> is_white(#[trigger] cs@[j]),
        decreases k,
    {
        k -= 1;
    }
    proof {
        assert forall|j: int| k - i <= j < t.len() implies !ink()(#[trigger] t[j]) by {
            assert(t[j] == cs@[j + i]);
        }
        lemma_end_where(t, ink(), k - i);
        assert(t.take(k - i) == cs@.subrange(i as int, k as int));
    }
    string_of(cs.as_slice(), i, k)
}

/// `s` without the white space at its start.
pub fn trimmed_start(s: &str) -> (r: String)
    ensures
        r@ == trim_start(s@),
{
    let cs = chars_of(s);
    let mut i: usize = 0;
    while i < cs.len() && white(cs[i])
        invariant
            i <= cs@.len(),
            forall|j: int| 0 <= j < i ==> is_white(#[trigger] cs@[j]),
        decreases cs@.len() - i,
    {
        i += 1;
    }
    proof {
        lemma_index_where(cs@, ink(), i as int);
    }
    string_of(cs.as_slice(), i, cs.len())
}

/// `s` without the white space at its end.
pub fn trimmed_end(s: &str) -> (r: String)
    ensures
        r@ == trim_end(s@),
{
    let cs = chars_of(s);
    let mut k: usize = cs.len();
    while k > 0 && white(cs[k - 1])
        invariant
            k <= cs@.len(),
            forall|j: int| k <= j < cs@.len() ==> is_white(#[trigger] cs@[j]),
        decreases k,
    {
        k -= 1;
    }
    proof {
        lemma_end_where(cs@, ink(), k as int);
    }
    string_of(cs.as_slice(), 0, k)
}

/// The lines of `s`.
pub fn line_list(s: &str) -> (r: Vec<String>)
    ensures
        views(r@) == lines(s@),
{
    let cs = chars_of(s);
    let mut r: Vec<String> = Vec::new();
    let mut start: usize = 0;
    let mut i: usize = 0;
    assert(cs@.skip(0) == cs@);
    while i < cs.len()
        invariant
            start <= i <= cs@.len(),
            forall|j: int| start <= j < i ==> cs@[j] != '\n',
            lines(cs@) == views(r@) + lines(cs@.skip(start as int)),
        decreases cs@.len() - i,
    {
        if cs[i] == '\n' {
            let end: usize = if start < i && cs[i - 1] == '\r' {
                i - 1
            } else {
                i
            };
            let line = string_of(cs.as_slice(), start, end);
            proof {
                let rest = cs@.skip(start as int);
                lemma_index_where(rest, only('\n'), i - start);
                assert(rest.take(i - start) == cs@.subrange(start as int, i as int));
                assert(strip_cr(rest.take(i - start)) == line@);
                assert(rest.skip(i - start + 1) == cs@.skip(i + 1));
                lemma_views_push(r@, line);
                assert(views(r@) + (seq![line@] + lines(cs@.skip(i + 1))) == views(r@).push(line@)
                    + lines(cs@.skip(i + 1)));
            }
            r.push(line);
            start = i + 1;
        }
        i += 1;
    }
    proof {
        lemma_index_where(cs@.skip(start as int), only('\n'), i - start);
    }
    if start < cs.len() {
        let line = string_of(cs.as_slice(), start, cs.len());
        proof {
            lemma_views_push(r@, line);
            assert(line@ == cs@.skip(start as int));
            assert(views(r@) + seq![line@] == views(r@).push(line@));
        }
        r.push(line);
    } else {
        assert(lines(cs@.skip(start as int)) == Seq::<Seq<char>>::empty());
        assert(lines(cs@) == views(r@));
    }
    r
}

/// The pieces of `s` between the occurrences of `c`.
pub fn pieces(s: &str, c: char) -> (r: Vec<String>)
    ensures
        views(r@) == split_on(s@, c),
{
    let cs = chars_of(s);
    let mut r: Vec<String> = Vec::new();
    let mut start: usize = 0;
    let mut i: usize = 0;
    assert(cs@.skip(0) == cs@);
    while i < cs.len()
        invariant
            start <= i <= cs@.len(),
            forall|j: int| start <= j < i ==> cs@[j] != c,
            split_on(cs@, c) == views(r@) + split_on(cs@.skip(start as int), c),
        decreases cs@.len() - i,
    {
        if cs[i] == c {
            let piece = string_of(cs.as_slice(), start, i);
            proof {
                let rest = cs@.skip(start as int);
                lemma_index_where(rest, only(c), i - start);
                assert(rest.take(i - start) == piece@);
                assert(rest.skip(i - start + 1) == cs@.skip(i + 1));
                lemma_views_push(r@, piece);
                assert(views(r@) + (seq![piece@] + split_on(cs@.skip(i + 1), c)) == views(r@).push(
                    piece@,
                ) + split_on(cs@.skip(i + 1), c));
            }
            r.push(piece);
            start = i + 1;
        }
        i += 1;
    }
    let piece = string_of(cs.as_slice(), start, cs.len());
    proof {
        lemma_index_where(cs@.skip(start as int), only(c), i - start);
        lemma_views_push(r@, piece);
        assert(piece@ == cs@.skip(start as int));
        assert(views(r@) + seq![piece@] == views(r@).push(piece@));
    }
    r.push(piece);
    r
}

/// The words of `s`.
pub fn word_list(s: &str) -> (r: Vec<String>)
    ensures
        views(r@) == words(s@),
{
    let cs = chars_of(s);
    let mut r: Vec<String> = Vec::new();
    let mut i: usize = 0;
    assert(cs@.skip(0) == cs@);
    loop
        invariant
            i <= cs@.len(),
            cs@ == s@,
            words(cs@) == views(r@) + words(cs@.skip(i as int)),
        decreases cs@.len() - i,
    {
        let mut start: usize = i;
        while start < cs.len() && white(cs[start])
            invariant
                i <= start <= cs@.len(),
                forall|j: int| i <= j < start ==> is_white(#[trigger] cs@[j]),
            decreases cs@.len() - start,
        {
            start += 1;
        }
        let mut end: usize = start;
        while end < cs.len() && !white(cs[end])
            invariant
                start <= end <= cs@.len(),
                forall|j: int| start <= j < end ==> !is_white(#[trigger] cs@[j]),
            decreases cs@.len() - end,
        {
            end += 1;
        }
        let ghost rest = cs@.skip(i as int);
        let ghost t = cs@.skip(start as int);
        proof {
            assert forall|j: int| 0 <= j < start - i implies !ink()(#[trigger] rest[j]) by {
                assert(rest[j] == cs@[j + i]);
            }
            lemma_index_where(rest, ink(), start - i);
            assert(rest.skip(start - i) == t);
            assert forall|j: int| 0 <= j < end - start implies !blank()(#[trigger] t[j]) by {
                assert(t[j] == cs@[j + start]);
            }
            lemma_index_where(t, blank(), end - start);
        }
        if start == end {
            assert(views(r@) + words(rest) == views(r@));
            return r;
        }
        let word = string_of(cs.as_slice(), start, end);
        proof {
            assert(t.take(end - start) == word@);
            assert(t.skip(end - start) == cs@.skip(end as int));
            lemma_views_push(r@, word);
            assert(views(r@) + (seq![word@] + words(cs@.skip(end as int))) == views(r@).push(word@)
                + words(cs@.skip(end as int)));
        }
        r.push(word);
        i = end;
    }
}

/// Whether `p` stands in `s` at position `i`.
pub fn stands_at(s: &[char], p: &[char], i: usize) -> (r: bool)
    ensures
        r == occurs_at(s@, p@, i as int),
{
    if i > s.len() || p.len() > s.len() - i {
        return false;
    }
    let mut k: usize = 0;
    while k < p.len()
        invariant
            i + p@.len() <= s@.len() <= usize::MAX,
            k <= p@.len(),
            forall|j: int| 0 <= j < k ==> s@[i + j] == #[trigger] p@[j],
        decreases p@.len() - k,
    {
        if s[i + k] != p[k] {
            assert(s@.subrange(i as int, i + p@.len())[k as int] != p@[k as int]);
            return false;
        }
        k += 1;
    }
    assert(s@.subrange(i as int, i + p@.len()) == p@);
    true
}

/// Whether `p` stands anywhere in `s`.
pub fn has(s: &str, p: &str) -> (r: bool)
    ensures
        r == contains(s@, p@),
{
    let cs = chars_of(s);
    let ps = chars_of(p);
    if ps.len() > cs.len() {
        return false;
    }
    let last: usize = cs.len() - ps.len();
    let mut i: usize = 0;
    loop
        invariant
            i <= last,
            last == cs@.len() - ps@.len(),
            cs@ == s@,
            ps@ == p@,
            forall|j: int| 0 <= j < i ==> !occurs_at(s@, p@, j),
        decreases last - i,
    {
        if stands_at(cs.as_slice(), ps.as_slice(), i) {
            return true;
        }
        if i == last {
            assert forall|j: int| !occurs_at(s@, p@, j) by {}
            return false;
        }
        i += 1;
    }
}

/// Whether `c` stands anywhere in `s`.
pub fn has_char(s: &str, c: char) -> (r: bool)
    ensures
        r == s@.contains(c),
{
    let cs = chars_of(s);
    let mut i: usize = 0;
    while i < cs.len()
        invariant
            i <= cs@.len(),
            cs@ == s@,
            forall|j: int| 0 <= j < i ==> cs@[j] != c,
        decreases cs@.len() - i,
    {
        if cs[i] == c {
            assert(s@[i as int] == c);
            return true;
        }
        i += 1;
    }
    false
}

/// Whether `s` starts with `p`.
pub fn starts_with(s: &str, p: &str) -> (r: bool)
    ensures
        r == p@.is_prefix_of(s@),
{
    let cs = chars_of(s);
    let ps = chars_of(p);
    stands_at(cs.as_slice(), ps.as_slice(), 0)
}

/// Whether `s` ends with `p`.
pub fn ends_with(s: &str, p: &str) -> (r: bool)
    ensures
        r == p@.is_suffix_of(s@),
{
    let cs = chars_of(s);
    let ps = chars_of(p);
    if ps.len() > cs.len() {
        return false;
    }
    stands_at(cs.as_slice(), ps.as_slice(), cs.len() - ps.len())
}

/// The two strings one after the other.
pub fn cat(a: &str, b: &str) -> (r: String)
    ensures
        r@ == a@ + b@,
{
    let mut r = a.to_owned();
    r.append(b);
    r
}

/// The strings one after the other, with `sep` between each two.
pub fn joined(parts: &[String], sep: &str) -> (r: String)
    ensures
        r@ == join(views(parts@), sep@),
{
    let ghost all = views(parts@);
    let mut r = String::new();
    let mut i: usize = 0;
    assert(all.take(0) == Seq::<Seq<char>>::empty());
    while i < parts.len()
        invariant
            i <= parts@.len(),
            all == views(parts@),
            r@ == join(all.take(i as int), sep@),
        decreases parts@.len() - i,
    {
        if i > 0 {
            r.append(sep);
        }
        r.append(parts[i].as_str());
        proof {
            let more = all.take(i + 1);
            assert(more.drop_last() == all.take(i as int));
            assert(more.last() == parts@[i as int]@);
            if i > 0 {
                assert(r@ == join(all.take(i as int), sep@) + (sep@ + more.last()));
            } else {
                assert(r@ == more[0]);
            }
        }
        i += 1;
    }
    assert(all.take(i as int) == all);
    r
}

/// Whether one of the strings in `list` holds the characters of `w`.
pub fn listed(list: &[String], w: &str) -> (r: bool)
    ensures
        r == views(list@).contains(w@),
{
    let mut i: usize = 0;
    while i < list.len()
        invariant
            i <= list@.len(),
            forall|j: int| 0 <= j < i ==> #[trigger] views(list@)[j] != w@,
        decreases list@.len() - i,
    {
        if same(list[i].as_str(), w) {
            assert(views(list@)[i as int] == w@);
            return true;
        }
        i += 1;
    }
    false
}

/// The characters of `s` that are not among `dropped`.
pub fn without_chars(s: &str, dropped: &str) -> (r: String)
    ensures
        r@ == without(s@, dropped@),
{
    let cs = chars_of(s);
    let ghost p = |c: char| !dropped@.contains(c);
    let mut r = String::new();
    let mut i: usize = 0;
    proof {
        reveal(Seq::filter);
        assert(cs@.take(0) == Seq::<char>::empty());
    }
    while i < cs.len()
        invariant
            i <= cs@.len(),
            cs@ == s@,
            p == (|c: char| !dropped@.contains(c)),
            r@ == cs@.take(i as int).filter(p),
        decreases cs@.len() - i,
    {
        proof {
            assert(cs@.take(i + 1) == cs@.take(i as int).push(cs@[i as int]));
            cs@.take(i as int).lemma_filter_push(cs@[i as int], p);
        }
        if !has_char(dropped, cs[i]) {
            r.push(cs[i]);
        }
        i += 1;
    }
    assert(cs@.take(i as int) == cs@);
    r
}

/// `s` without its first `n` characters.
pub fn skipped(s: &str, n: usize) -> (r: String)
    requires
        n <= s@.len(),
    ensures
        r@ == s@.skip(n as int),
{
    let cs = chars_of(s);
    string_of(cs.as_slice(), n, cs.len())
}

/// `s` without `p` at its start, where it starts with it.
pub fn prefix_stripped(s: &str, p: &str) -> (r: String)
    ensures
        r@ == strip_prefix(s@, p@),
{
    if starts_with(s, p) {
        skipped(s, chars_of(p).len())
    } else {
        s.to_owned()
    }
}

/// Where two texts meet in white space, the words of both are the words of each, one after
/// the other.
pub proof fn law_words_meet_in_white_space(a: Seq<char>, b: Seq<char>)
    requires
        a.len() == 0 || b.len() == 0 || is_white(a.last()) || is_white(b[0]),
    ensures
        words(a + b) == words(a) + words(b),
    decreases a.len(),
{
    let s = a + b;
    let k = index_where(a, ink());
    lemma_index_where_bounds(a, ink());
    if k == a.len() {
        assert forall|i: int| 0 <= i < a.len() implies is_white(#[trigger] a[i]) by {
            assert(!ink()(a[i]));
        }
        lemma_white_has_no_words(a);
        let m = index_where(b, ink());
        lemma_index_where_bounds(b, ink());
        assert forall|i: int| 0 <= i < a.len() + m implies !ink()(#[trigger] s[i]) by {
            if i >= a.len() {
                assert(s[i] == b[i - a.len()]);
            } else {
                assert(s[i] == a[i]);
            }
        }
        if m < b.len() {
            assert(s[a.len() + m] == b[m]);
        }
        lemma_index_where(s, ink(), a.len() + m);
        assert(trim_start(s) =~= trim_start(b));
        lemma_index_where_bounds(trim_start(b), blank());
        assert(words(a) + words(b) =~= words(b));
    } else {
        let u = a.skip(k);
        assert forall|i: int| 0 <= i < k implies !ink()(#[trigger] s[i]) by {
            assert(s[i] == a[i]);
        }
        assert(s[k] == a[k]);
        lemma_index_where(s, ink(), k);
        assert(trim_start(s) =~= u + b);
        let n = index_where(u, blank());
        lemma_index_where_bounds(u, blank());
        assert(u[0] == a[k]);
        assert forall|i: int| 0 <= i < n implies !blank()(#[trigger] (u + b)[i]) by {
            assert((u + b)[i] == u[i]);
        }
        if n < u.len() {
            assert((u + b)[n] == u[n]);
        } else {
            assert(a.last() == u.last());
            assert(u[n - 1] == u.last());
            assert(!blank()(u[n - 1]));
            if b.len() > 0 {
                assert((u + b)[n] == b[0]);
            }
        }
        lemma_index_where(u + b, blank(), n);
        let rest = u.skip(n);
        assert((u + b).take(n) =~= u.take(n));
        assert((u + b).skip(n) =~= rest + b);
        if rest.len() > 0 {
            assert(rest.last() == a.last());
        }
        law_words_meet_in_white_space(rest, b);
        assert(seq![u.take(n)] + (words(rest) + words(b)) =~= seq![u.take(n)] + words(rest)
            + words(b));
    }
}

/// Trimming keeps the words.
pub proof fn law_trimming_keeps_the_words(s: Seq<char>)
    ensures
        words(trim_end(s)) == words(s),
        words(trim_start(s)) == words(s),
        words(trim(s)) == words(s),
{
    lemma_trim_end_keeps_words(s);
    let k = index_where(s, ink());
    lemma_index_where_bounds(s, ink());
    let front = s.take(k);
    assert forall|i: int| 0 <= i < front.len() implies is_white(#[trigger] front[i]) by {
        assert(!ink()(s[i]));
    }
    lemma_white_has_no_words(front);
    if k > 0 {
        assert(front.last() == front[k - 1]);
    }
    law_words_meet_in_white_space(front, s.skip(k));
    assert(front + s.skip(k) =~= s);
    assert(words(front) + words(s.skip(k)) =~= words(s.skip(k)));
    lemma_trim_end_keeps_words(trim_start(s));
}

} // verus!
