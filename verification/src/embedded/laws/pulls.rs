//! What is shown of a pull, and how what it changed is counted.
use vstd::prelude::*;
use crate::embedded::{GitRenderer, ResultView};
use crate::embedded::git_rendering;
use crate::number;
use crate::text;

verus! {

/// Whether `w` can stand behind a number: it starts with a space, ends in ink, and has no
/// comma, no line feed and no capital `A`.
spec fn is_noun(w: Seq<char>) -> bool {
    w.len() > 1 && w[0] == ' ' && !text::is_white(w.last()) && forall|i: int|
        0 <= i < w.len() ==> (#[trigger] w[i]) != ',' && w[i] != '\n' && w[i] != 'A'
}

/// A text without a character of another does not contain the other.
proof fn lemma_lacks(s: Seq<char>, p: Seq<char>, k: int)
    requires
        0 <= k < p.len(),
        !s.contains(p[k]),
    ensures
        !text::contains(s, p),
{
    if text::contains(s, p) {
        let i = choose|i: int| text::occurs_at(s, p, i);
        assert(s.subrange(i, i + p.len())[k] == s[i + k]);
    }
}

/// A text contains what a part of it contains.
proof fn lemma_contains_behind(a: Seq<char>, s: Seq<char>, b: Seq<char>, p: Seq<char>)
    requires
        text::contains(s, p),
    ensures
        text::contains(a + s + b, p),
{
    let i = choose|i: int| text::occurs_at(s, p, i);
    let all = a + s + b;
    assert(all.subrange(a.len() + i, a.len() + i + p.len()) =~= s.subrange(i, i + p.len()));
    assert(text::occurs_at(all, p, a.len() + i));
}

/// A number has only digits.
proof fn lemma_number_characters(n: nat)
    ensures
        number::decimal(n).len() > 0,
        forall|i: int|
            0 <= i < number::decimal(n).len() ==> '0' <= #[trigger] number::decimal(n)[i] <= '9',
{
    number::lemma_decimal(n);
    let d = number::decimal(n);
    assert forall|i: int| 0 <= i < d.len() implies '0' <= #[trigger] d[i] <= '9' by {
        assert(number::is_digit(d[i]));
    }
}

/// A count is a number and a noun: it starts with the number, and trimming leaves it.
proof fn lemma_count(n: nat, w: Seq<char>)
    requires
        is_noun(w),
        n <= 0x7fff_ffff,
    ensures
        ({
            let c = number::decimal(n) + w;
            &&& c.len() > 0
            &&& git_rendering::leading_number(c) == n
            &&& text::trim(c) == c
            &&& text::trim(seq![' '] + c) == c
            &&& forall|i: int| 0 <= i < c.len() ==> (#[trigger] c[i]) != ',' && c[i] != '\n' && c[i]
                != 'A'
        }),
{
    let d = number::decimal(n);
    let c = d + w;
    lemma_number_characters(n);
    assert forall|i: int| 0 <= i < c.len() implies (#[trigger] c[i]) != ',' && c[i] != '\n' && c[i]
        != 'A' by {
        if i < d.len() {
            assert(c[i] == d[i]);
        } else {
            assert(c[i] == w[i - d.len()]);
        }
    }
    let e = Seq::<char>::empty();
    assert(c[0] == d[0] && c.last() == w.last());
    text::laws::law_trim(e, c, e);
    assert(e + c + e =~= c);
    text::laws::law_trim(seq![' '], c, e);
    assert(seq![' '] + c + e =~= seq![' '] + c);
    assert forall|i: int| 0 <= i < d.len() implies !text::is_white(#[trigger] d[i]) by {}
    text::laws::law_words(d);
    text::law_words_meet_in_white_space(d, w);
    assert(text::words(c)[0] == d);
    number::laws::law_numbers_are_read(n, 0x8000_0000, 0x7fff_ffff);
}

/// A count lacks a letter that its noun lacks.
proof fn lemma_count_lacks(n: nat, w: Seq<char>, c: char)
    requires
        !w.contains(c),
        !('0' <= c <= '9'),
    ensures
        !(number::decimal(n) + w).contains(c),
{
    lemma_number_characters(n);
    let all = number::decimal(n) + w;
    if all.contains(c) {
        let i = choose|i: int| 0 <= i < all.len() && all[i] == c;
        if i >= number::decimal(n).len() {
            assert(w[i - number::decimal(n).len()] == c);
        }
    }
}

/// The characters of a noun.
proof fn lemma_word_file()
    ensures
        is_noun(" file changed"@),
        text::contains(" file changed"@, "file"@),
        text::contains(" file changed"@, "changed"@),
{
    reveal_strlit(" file changed");
    let w = " file changed"@;
    assert forall|i: int| 0 <= i < w.len() implies (#[trigger] w[i]) != ',' && w[i] != 'A'
        && w[i] != '\n' by {
        assert(i == 0 || i == 1 || i == 2 || i == 3 || i == 4 || i == 5 || i == 6 || i == 7
            || i == 8 || i == 9 || i == 10 || i == 11 || i == 12);
    }
    reveal_strlit("file");
    assert(w.subrange(1, 5) =~= "file"@);
    assert(text::occurs_at(w, "file"@, 1));
    reveal_strlit("changed");
    assert(w.subrange(6, 13) =~= "changed"@);
    assert(text::occurs_at(w, "changed"@, 6));
}

/// The characters of a noun.
proof fn lemma_word_files()
    ensures
        is_noun(" files changed"@),
        text::contains(" files changed"@, "file"@),
        text::contains(" files changed"@, "changed"@),
{
    reveal_strlit(" files changed");
    let w = " files changed"@;
    assert forall|i: int| 0 <= i < w.len() implies (#[trigger] w[i]) != ',' && w[i] != 'A'
        && w[i] != '\n' by {
        assert(i == 0 || i == 1 || i == 2 || i == 3 || i == 4 || i == 5 || i == 6 || i == 7
            || i == 8 || i == 9 || i == 10 || i == 11 || i == 12 || i == 13);
    }
    reveal_strlit("file");
    assert(w.subrange(1, 5) =~= "file"@);
    assert(text::occurs_at(w, "file"@, 1));
    reveal_strlit("changed");
    assert(w.subrange(7, 14) =~= "changed"@);
    assert(text::occurs_at(w, "changed"@, 7));
}

/// The characters of a noun.
proof fn lemma_word_insertion()
    ensures
        is_noun(" insertion(+)"@),
        !" insertion(+)"@.contains('f'),
        text::contains(" insertion(+)"@, "insertion"@),
{
    reveal_strlit(" insertion(+)");
    let w = " insertion(+)"@;
    assert forall|i: int| 0 <= i < w.len() implies (#[trigger] w[i]) != ',' && w[i] != 'A'
        && w[i] != '\n' && w[i] != 'f' by {
        assert(i == 0 || i == 1 || i == 2 || i == 3 || i == 4 || i == 5 || i == 6 || i == 7
            || i == 8 || i == 9 || i == 10 || i == 11 || i == 12);
    }
    reveal_strlit("insertion");
    assert(w.subrange(1, 10) =~= "insertion"@);
    assert(text::occurs_at(w, "insertion"@, 1));
}

/// The characters of a noun.
proof fn lemma_word_insertions()
    ensures
        is_noun(" insertions(+)"@),
        !" insertions(+)"@.contains('f'),
        text::contains(" insertions(+)"@, "insertion"@),
{
    reveal_strlit(" insertions(+)");
    let w = " insertions(+)"@;
    assert forall|i: int| 0 <= i < w.len() implies (#[trigger] w[i]) != ',' && w[i] != 'A'
        && w[i] != '\n' && w[i] != 'f' by {
        assert(i == 0 || i == 1 || i == 2 || i == 3 || i == 4 || i == 5 || i == 6 || i == 7
            || i == 8 || i == 9 || i == 10 || i == 11 || i == 12 || i == 13);
    }
    reveal_strlit("insertion");
    assert(w.subrange(1, 10) =~= "insertion"@);
    assert(text::occurs_at(w, "insertion"@, 1));
}

/// The characters of a noun.
proof fn lemma_word_deletion()
    ensures
        is_noun(" deletion(-)"@),
        !" deletion(-)"@.contains('f'),
        !" deletion(-)"@.contains('r'),
        text::contains(" deletion(-)"@, "deletion"@),
{
    reveal_strlit(" deletion(-)");
    let w = " deletion(-)"@;
    assert forall|i: int| 0 <= i < w.len() implies (#[trigger] w[i]) != ',' && w[i] != 'A'
        && w[i] != '\n' && w[i] != 'f' && w[i] != 'r' by {
        assert(i == 0 || i == 1 || i == 2 || i == 3 || i == 4 || i == 5 || i == 6 || i == 7
            || i == 8 || i == 9 || i == 10 || i == 11);
    }
    reveal_strlit("deletion");
    assert(w.subrange(1, 9) =~= "deletion"@);
    assert(text::occurs_at(w, "deletion"@, 1));
}

/// The characters of a noun.
proof fn lemma_word_deletions()
    ensures
        is_noun(" deletions(-)"@),
        !" deletions(-)"@.contains('f'),
        !" deletions(-)"@.contains('r'),
        text::contains(" deletions(-)"@, "deletion"@),
{
    reveal_strlit(" deletions(-)");
    let w = " deletions(-)"@;
    assert forall|i: int| 0 <= i < w.len() implies (#[trigger] w[i]) != ',' && w[i] != 'A'
        && w[i] != '\n' && w[i] != 'f' && w[i] != 'r' by {
        assert(i == 0 || i == 1 || i == 2 || i == 3 || i == 4 || i == 5 || i == 6 || i == 7
            || i == 8 || i == 9 || i == 10 || i == 11 || i == 12);
    }
    reveal_strlit("deletion");
    assert(w.subrange(1, 9) =~= "deletion"@);
    assert(text::occurs_at(w, "deletion"@, 1));
}

/// The count of files.
proof fn lemma_files(n: nat, w: Seq<char>)
    requires
        w == " file changed"@ || w == " files changed"@,
    ensures
        is_noun(w),
        text::contains(number::decimal(n) + w, "file"@),
        text::contains(number::decimal(n) + w, "changed"@),
{
    lemma_word_file();
    lemma_word_files();
    let e = Seq::<char>::empty();
    lemma_contains_behind(number::decimal(n), w, e, "file"@);
    lemma_contains_behind(number::decimal(n), w, e, "changed"@);
    assert(number::decimal(n) + w + e =~= number::decimal(n) + w);
}

/// The count of insertions counts no files.
proof fn lemma_insertions(n: nat, w: Seq<char>)
    requires
        w == " insertion(+)"@ || w == " insertions(+)"@,
    ensures
        is_noun(w),
        !text::contains(number::decimal(n) + w, "file"@),
        text::contains(number::decimal(n) + w, "insertion"@),
{
    lemma_word_insertion();
    lemma_word_insertions();
    let e = Seq::<char>::empty();
    lemma_contains_behind(number::decimal(n), w, e, "insertion"@);
    assert(number::decimal(n) + w + e =~= number::decimal(n) + w);
    reveal_strlit("file");
    lemma_count_lacks(n, w, 'f');
    lemma_lacks(number::decimal(n) + w, "file"@, 0);
}

/// The count of deletions counts neither files nor insertions.
proof fn lemma_deletions(n: nat, w: Seq<char>)
    requires
        w == " deletion(-)"@ || w == " deletions(-)"@,
    ensures
        is_noun(w),
        !text::contains(number::decimal(n) + w, "file"@),
        !text::contains(number::decimal(n) + w, "insertion"@),
        text::contains(number::decimal(n) + w, "deletion"@),
{
    lemma_word_deletion();
    lemma_word_deletions();
    let e = Seq::<char>::empty();
    lemma_contains_behind(number::decimal(n), w, e, "deletion"@);
    assert(number::decimal(n) + w + e =~= number::decimal(n) + w);
    reveal_strlit("file");
    reveal_strlit("insertion");
    lemma_count_lacks(n, w, 'f');
    lemma_count_lacks(n, w, 'r');
    lemma_lacks(number::decimal(n) + w, "file"@, 0);
    lemma_lacks(number::decimal(n) + w, "insertion"@, 4);
}

/// The counts as git writes them behind each other.
spec fn listed(counts: Seq<Seq<char>>) -> Seq<char>
    decreases counts.len(),
{
    if counts.len() == 0 {
        seq![]
    } else {
        seq![',', ' '] + counts[0] + listed(counts.drop_first())
    }
}

/// Splitting a line of counts at its commas and trimming the pieces gives the counts.
proof fn lemma_split_counts(piece: Seq<char>, count: Seq<char>, others: Seq<Seq<char>>)
    requires
        text::trim(piece) == count,
        forall|i: int| 0 <= i < piece.len() ==> (#[trigger] piece[i]) != ',',
        forall|k: int|
            0 <= k < others.len() ==> text::trim(seq![' '] + #[trigger] others[k]) == others[k]
                && !others[k].contains(','),
    ensures
        text::split_on(piece + listed(others), ',').map_values(|p: Seq<char>| text::trim(p))
            == seq![count] + others,
    decreases others.len(),
{
    let f = |p: Seq<char>| text::trim(p);
    if others.len() == 0 {
        assert(piece + listed(others) =~= piece);
        text::laws::law_split_on(piece, ',', seq![]);
        assert(seq![piece].map_values(f) =~= seq![count] + others);
    } else {
        let next = seq![' '] + others[0];
        let rest = others.drop_first();
        text::laws::law_split_on(piece, ',', next + listed(rest));
        assert(piece + listed(others) =~= piece + seq![','] + (next + listed(rest)));
        assert forall|i: int| 0 <= i < next.len() implies (#[trigger] next[i]) != ',' by {
            if i > 0 {
                assert(next[i] == others[0][i - 1]);
            }
        }
        assert forall|k: int| 0 <= k < rest.len() implies text::trim(
            seq![' '] + #[trigger] rest[k],
        ) == rest[k] && !rest[k].contains(',') by {
            assert(rest[k] == others[k + 1]);
        }
        lemma_split_counts(next, others[0], rest);
        let tail = text::split_on(next + listed(rest), ',');
        assert((seq![piece] + tail).map_values(f) =~= seq![count] + tail.map_values(f));
        assert(seq![count] + (seq![others[0]] + rest) =~= seq![count] + others);
    }
}

/// Lines that count nothing give no parts.
proof fn lemma_no_counts(list: Seq<Seq<char>>)
    requires
        forall|i: int|
            0 <= i < list.len() ==> !(text::contains(#[trigger] list[i], "file"@) && text::contains(
                list[i],
                "changed"@,
            )),
    ensures
        git_rendering::all_count_parts(list) == Seq::<Seq<char>>::empty(),
    decreases list.len(),
{
    let f = |line: Seq<char>| git_rendering::count_parts(line);
    if list.len() == 0 {
        assert(list.flat_map(f) =~= Seq::<Seq<char>>::empty());
    } else {
        let front = list.drop_last();
        assert forall|i: int| 0 <= i < front.len() implies !(text::contains(
            #[trigger] front[i],
            "file"@,
        ) && text::contains(front[i], "changed"@)) by {
            assert(front[i] == list[i]);
        }
        lemma_no_counts(front);
        front.lemma_flat_map_push(f, list.last());
        assert(front.push(list.last()) =~= list);
        assert(list.last() == list[list.len() - 1]);
        assert(git_rendering::count_parts(list.last()) =~= Seq::<Seq<char>>::empty());
        assert(list.flat_map(f) =~= Seq::<Seq<char>>::empty());
    }
}

/// What the counts in a list of parts are: the first part counts files, and behind it may
/// stand one that counts insertions and one that counts deletions.
proof fn lemma_last_counts(
    files: Seq<char>,
    insertions: Option<Seq<char>>,
    deletions: Option<Seq<char>>,
)
    requires
        text::contains(files, "file"@),
        insertions matches Some(p) ==> !text::contains(p, "file"@) && text::contains(
            p,
            "insertion"@,
        ),
        deletions matches Some(p) ==> !text::contains(p, "file"@) && !text::contains(
            p,
            "insertion"@,
        ) && text::contains(p, "deletion"@),
    ensures
        ({
            let parts = seq![files] + optional(insertions) + optional(deletions);
            &&& git_rendering::last_count(parts, git_rendering::counts_files())
                == git_rendering::leading_number(files)
            &&& git_rendering::last_count(parts, git_rendering::counts_insertions()) == match insertions {
                Some(p) => git_rendering::leading_number(p),
                None => 0,
            }
            &&& git_rendering::last_count(parts, git_rendering::counts_deletions()) == match deletions {
                Some(p) => git_rendering::leading_number(p),
                None => 0,
            }
        }),
{
    let parts = seq![files] + optional(insertions) + optional(deletions);
    assert(parts[0] == files);
    if insertions is Some {
        assert(parts[1] == insertions->0);
    }
    if deletions is Some {
        assert(parts[parts.len() - 1] == deletions->0);
    }
    text::lemma_end_where(parts, git_rendering::counts_files(), 1);
    text::lemma_end_where(
        parts,
        git_rendering::counts_insertions(),
        if insertions is Some {
            2
        } else {
            0
        },
    );
    text::lemma_end_where(
        parts,
        git_rendering::counts_deletions(),
        if deletions is Some {
            parts.len() as int
        } else {
            0
        },
    );
}

/// A part that may be missing.
spec fn optional(p: Option<Seq<char>>) -> Seq<Seq<char>> {
    match p {
        Some(s) => seq![s],
        None => seq![],
    }
}

/// What follows the count of files in a line of counts: a comma, a space and the count, or
/// nothing.
spec fn follows(count: Option<Seq<char>>) -> Seq<char> {
    match count {
        Some(c) => seq![',', ' '] + c,
        None => seq![],
    }
}

/// The parts of a line of counts.
proof fn lemma_line_of_counts(
    files: Seq<char>,
    insertions: Option<Seq<char>>,
    deletions: Option<Seq<char>>,
)
    requires
        text::contains(files, "file"@),
        text::contains(files, "changed"@),
        text::trim(files) == files,
        !files.contains(','),
        insertions matches Some(p) ==> text::trim(seq![' '] + p) == p && !p.contains(','),
        deletions matches Some(p) ==> text::trim(seq![' '] + p) == p && !p.contains(','),
    ensures
        git_rendering::count_parts(files + follows(insertions) + follows(deletions)) == seq![files]
            + optional(insertions) + optional(deletions),
{
    let e = Seq::<char>::empty();
    let line = files + follows(insertions) + follows(deletions);
    let others = optional(insertions) + optional(deletions);
    lemma_contains_behind(e, files, follows(insertions) + follows(deletions), "file"@);
    lemma_contains_behind(e, files, follows(insertions) + follows(deletions), "changed"@);
    assert(e + files + (follows(insertions) + follows(deletions)) =~= line);
    reveal_with_fuel(listed, 3);
    assert(follows(insertions) + follows(deletions) =~= listed(others)) by {
        if insertions is Some && deletions is Some {
            assert(others[0] == insertions->0 && others.drop_first() =~= seq![deletions->0]);
            assert(seq![deletions->0].drop_first() =~= Seq::<Seq<char>>::empty());
        } else if others.len() == 1 {
            assert(others.drop_first() =~= Seq::<Seq<char>>::empty());
        }
    }
    assert(files + listed(others) =~= line);
    lemma_split_counts(files, files, others);
    assert(seq![files] + others =~= seq![files] + optional(insertions) + optional(deletions));
}

/// Whether `s` has neither a line feed nor a capital `A`, and does not end in a carriage
/// return.
spec fn is_clear(s: Seq<char>) -> bool {
    (s.len() > 0 ==> s.last() != '\r') && forall|k: int|
        0 <= k < s.len() ==> (#[trigger] s[k]) != '\n' && s[k] != 'A'
}

/// Clear texts are clear together.
proof fn lemma_clear(a: Seq<char>, b: Seq<char>)
    requires
        is_clear(a),
        is_clear(b),
    ensures
        is_clear(a + b),
{
    let s = a + b;
    assert forall|k: int| 0 <= k < s.len() implies (#[trigger] s[k]) != '\n' && s[k] != 'A' by {
        if k < a.len() {
            assert(s[k] == a[k]);
        } else {
            assert(s[k] == b[k - a.len()]);
        }
    }
    if b.len() > 0 {
        assert(s.last() == b.last());
    } else if a.len() > 0 {
        assert(s.last() == a.last());
    }
}

/// A count is clear and has no comma.
proof fn lemma_count_is_clear(n: nat, w: Seq<char>)
    requires
        is_noun(w),
        n <= 0x7fff_ffff,
    ensures
        is_clear(number::decimal(n) + w),
        !(number::decimal(n) + w).contains(','),
{
    lemma_count(n, w);
    let c = number::decimal(n) + w;
    assert(c.last() == w.last());
    if c.contains(',') {
        let k = choose|k: int| 0 <= k < c.len() && c[k] == ',';
        assert(c[k] != ',');
    }
}

/// A count behind a comma and a space.
proof fn lemma_follows(n: nat, w: Seq<char>, s: Seq<char>)
    requires
        is_noun(w),
        n <= 0x7fff_ffff,
        s == ", "@ + number::decimal(n) + w,
    ensures
        follows(Some(number::decimal(n) + w)) == s,
        is_clear(s),
{
    reveal_strlit(", ");
    assert(", "@ =~= seq![',', ' ']);
    let c = number::decimal(n) + w;
    assert(seq![',', ' '] + c =~= s);
    lemma_count_is_clear(n, w);
    assert(is_clear(seq![',', ' '])) by {
        assert(seq![',', ' '].last() == ' ');
    }
    lemma_clear(seq![',', ' '], c);
}

/// The count of insertions in a line of counts.
proof fn lemma_insertion_count(n: nat, s: Seq<char>) -> (c: Option<Seq<char>>)
    requires
        n <= 0x7fff_ffff,
        s == ", "@ + number::decimal(n) + " insertion(+)"@ || s == ", "@ + number::decimal(n)
            + " insertions(+)"@ || (s.len() == 0 && n == 0),
    ensures
        follows(c) == s,
        is_clear(s),
        c is None ==> n == 0,
        c matches Some(p) ==> text::trim(seq![' '] + p) == p && !p.contains(',')
            && git_rendering::leading_number(p) == n && !text::contains(p, "file"@)
            && text::contains(p, "insertion"@),
{
    if s.len() == 0 {
        assert(follows(None) =~= s);
        None
    } else {
        let w = if s == ", "@ + number::decimal(n) + " insertion(+)"@ {
            " insertion(+)"@
        } else {
            " insertions(+)"@
        };
        lemma_insertions(n, w);
        lemma_count(n, w);
        lemma_count_is_clear(n, w);
        lemma_follows(n, w, s);
        Some(number::decimal(n) + w)
    }
}

/// The count of deletions in a line of counts.
proof fn lemma_deletion_count(n: nat, s: Seq<char>) -> (c: Option<Seq<char>>)
    requires
        n <= 0x7fff_ffff,
        s == ", "@ + number::decimal(n) + " deletion(-)"@ || s == ", "@ + number::decimal(n)
            + " deletions(-)"@ || (s.len() == 0 && n == 0),
    ensures
        follows(c) == s,
        is_clear(s),
        c is None ==> n == 0,
        c matches Some(p) ==> text::trim(seq![' '] + p) == p && !p.contains(',')
            && git_rendering::leading_number(p) == n && !text::contains(p, "file"@)
            && !text::contains(p, "insertion"@) && text::contains(p, "deletion"@),
{
    if s.len() == 0 {
        assert(follows(None) =~= s);
        None
    } else {
        let w = if s == ", "@ + number::decimal(n) + " deletion(-)"@ {
            " deletion(-)"@
        } else {
            " deletions(-)"@
        };
        lemma_deletions(n, w);
        lemma_count(n, w);
        lemma_count_is_clear(n, w);
        lemma_follows(n, w, s);
        Some(number::decimal(n) + w)
    }
}

/// A line of counts gives its three numbers, and has no line feed and no capital `A`.
proof fn lemma_counts(
    f: nat,
    files: Seq<char>,
    i: nat,
    insertions: Seq<char>,
    d: nat,
    deletions: Seq<char>,
)
    requires
        0 < f <= i32::MAX,
        i <= i32::MAX,
        d <= i32::MAX,
        files == " file changed"@ || files == " files changed"@,
        insertions == ", "@ + number::decimal(i) + " insertion(+)"@ || insertions == ", "@
            + number::decimal(i) + " insertions(+)"@ || (insertions.len() == 0 && i == 0),
        deletions == ", "@ + number::decimal(d) + " deletion(-)"@ || deletions == ", "@
            + number::decimal(d) + " deletions(-)"@ || (deletions.len() == 0 && d == 0),
    ensures
        ({
            let line = number::decimal(f) + files + insertions + deletions;
            let parts = git_rendering::count_parts(line);
            &&& line.len() > 0
            &&& line.last() != '\r'
            &&& forall|k: int|
                0 <= k < line.len() ==> (#[trigger] line[k]) != '\n' && line[k] != 'A'
            &&& git_rendering::last_count(parts, git_rendering::counts_files()) == f
            &&& git_rendering::last_count(parts, git_rendering::counts_insertions()) == i
            &&& git_rendering::last_count(parts, git_rendering::counts_deletions()) == d
        }),
{
    let a = number::decimal(f) + files;
    lemma_files(f, files);
    lemma_count(f, files);
    lemma_count_is_clear(f, files);
    let b = lemma_insertion_count(i, insertions);
    let c = lemma_deletion_count(d, deletions);
    lemma_line_of_counts(a, b, c);
    lemma_last_counts(a, b, c);
    lemma_clear(a, insertions);
    lemma_clear(a + insertions, deletions);
}

/// What has no capital `A` does not say that it is up to date.
proof fn lemma_not_already(front: Seq<char>, line: Seq<char>, tail: Seq<char>)
    requires
        !front.contains('A'),
        !tail.contains('A'),
        forall|k: int| 0 <= k < line.len() ==> (#[trigger] line[k]) != 'A',
    ensures
        !text::contains(front + line + tail, "Already up to date"@),
        !text::contains(front + line + tail, "Already up-to-date"@),
{
    let t = front + line + tail;
    assert(!t.contains('A')) by {
        if t.contains('A') {
            let k = choose|k: int| 0 <= k < t.len() && t[k] == 'A';
            if k < front.len() {
                assert(front[k] == 'A');
            } else if k < front.len() + line.len() {
                assert(line[k - front.len()] == 'A');
            } else {
                assert(tail[k - front.len() - line.len()] == 'A');
            }
        }
    }
    reveal_strlit("Already up to date");
    reveal_strlit("Already up-to-date");
    lemma_lacks(t, "Already up to date"@, 0);
    lemma_lacks(t, "Already up-to-date"@, 0);
}

/// What a pull changed is shown by three numbers: of the files, of the insertions and of the
/// deletions, as they stand in the line that counts them, which may stand among other lines.
/// The nouns may be singular or plural, and a number that is left out is zero.
pub proof fn law_pulls_are_counted(
    front: Seq<char>,
    f: nat,
    files: Seq<char>,
    i: nat,
    insertions: Seq<char>,
    d: nat,
    deletions: Seq<char>,
    tail: Seq<char>,
    output: Seq<char>,
)
    requires
        0 < f <= i32::MAX,
        i <= i32::MAX,
        d <= i32::MAX,
        files == " file changed"@ || files == " files changed"@,
        insertions == ", "@ + number::decimal(i) + " insertion(+)"@ || insertions == ", "@
            + number::decimal(i) + " insertions(+)"@ || (insertions.len() == 0 && i == 0),
        deletions == ", "@ + number::decimal(d) + " deletion(-)"@ || deletions == ", "@
            + number::decimal(d) + " deletions(-)"@ || (deletions.len() == 0 && d == 0),
        text::trim(output) == front + (number::decimal(f) + files + insertions + deletions) + tail,
        front.len() == 0 || front.last() == '\n',
        tail.len() == 0 || tail[0] == '\n',
        !front.contains('A'),
        !tail.contains('A'),
        forall|k: int|
            0 <= k < text::lines(tail).len() ==> !(text::contains(
                #[trigger] text::lines(tail)[k],
                "file"@,
            ) && text::contains(text::lines(tail)[k], "changed"@)),
        forall|k: int|
            0 <= k < text::lines(front).len() ==> !(text::contains(
                #[trigger] text::lines(front)[k],
                "file"@,
            ) && text::contains(text::lines(front)[k], "changed"@)),
    ensures
        git_rendering::git_shown(
            GitRenderer::Pull,
            seq![ResultView { output, succeeded: true }],
        ) == "ok ✓ "@ + number::decimal(f) + " files +"@ + number::decimal(i) + " -"@
            + number::decimal(d),
{
    let line = number::decimal(f) + files + insertions + deletions;
    lemma_counts(f, files, i, insertions, d, deletions);
    lemma_pull_lines(front, line, tail);
    lemma_not_already(front, line, tail);
}

/// The parts of lines that count nothing and of a line of counts among them are those of the
/// line.
proof fn lemma_pull_lines(front: Seq<char>, line: Seq<char>, tail: Seq<char>)
    requires
        front.len() == 0 || front.last() == '\n',
        tail.len() == 0 || tail[0] == '\n',
        line.len() > 0,
        line.last() != '\r',
        forall|k: int| 0 <= k < line.len() ==> (#[trigger] line[k]) != '\n',
        forall|k: int|
            0 <= k < text::lines(front).len() ==> !(text::contains(
                #[trigger] text::lines(front)[k],
                "file"@,
            ) && text::contains(text::lines(front)[k], "changed"@)),
        forall|k: int|
            0 <= k < text::lines(tail).len() ==> !(text::contains(
                #[trigger] text::lines(tail)[k],
                "file"@,
            ) && text::contains(text::lines(tail)[k], "changed"@)),
    ensures
        git_rendering::all_count_parts(text::lines(front + line + tail))
            == git_rendering::count_parts(line),
{
    let f = |l: Seq<char>| git_rendering::count_parts(l);
    let list = text::lines(front);
    let e = Seq::<char>::empty();
    assert(front + line + tail =~= front + (line + tail));
    text::laws::law_lines_behind(front, line + tail);
    lemma_no_counts(list);
    list.lemma_flat_map_push(f, line);
    assert(list.push(line) =~= list + seq![line]);
    assert(Seq::<Seq<char>>::empty() + git_rendering::count_parts(line)
        =~= git_rendering::count_parts(line));
    if tail.len() == 0 {
        assert(line + tail =~= line);
        text::laws::law_lines(line, e);
    } else {
        let rest = tail.drop_first();
        assert(line + tail =~= line + seq!['\n'] + rest);
        text::laws::law_lines(line, rest);
        text::laws::law_lines(e, rest);
        assert(e + seq!['\n'] + rest =~= tail);
        let more = text::lines(rest);
        assert forall|k: int| 0 <= k < more.len() implies !(text::contains(
            #[trigger] more[k],
            "file"@,
        ) && text::contains(more[k], "changed"@)) by {
            assert(more[k] == text::lines(tail)[k + 1]);
        }
        lemma_more_lines(list.push(line), more);
        assert(list + (seq![line] + more) =~= list.push(line) + more);
    }
}

/// Lines that count nothing change no parts.
proof fn lemma_more_lines(list: Seq<Seq<char>>, more: Seq<Seq<char>>)
    requires
        forall|i: int|
            0 <= i < more.len() ==> !(text::contains(#[trigger] more[i], "file"@) && text::contains(
                more[i],
                "changed"@,
            )),
    ensures
        git_rendering::all_count_parts(list + more) == git_rendering::all_count_parts(list),
    decreases more.len(),
{
    let f = |line: Seq<char>| git_rendering::count_parts(line);
    if more.len() == 0 {
        assert(list + more =~= list);
    } else {
        let front = more.drop_last();
        assert forall|i: int| 0 <= i < front.len() implies !(text::contains(
            #[trigger] front[i],
            "file"@,
        ) && text::contains(front[i], "changed"@)) by {
            assert(front[i] == more[i]);
        }
        lemma_more_lines(list, front);
        let whole = list + front;
        whole.lemma_flat_map_push(f, more.last());
        assert(whole.push(more.last()) =~= list + more);
        assert(more.last() == more[more.len() - 1]);
        assert(git_rendering::count_parts(more.last()) =~= Seq::<Seq<char>>::empty());
        assert(whole.flat_map(f) + Seq::<Seq<char>>::empty() =~= whole.flat_map(f));
    }
}

/// A pull that found nothing new says so; one without a line of counts says only that it
/// succeeded.
pub proof fn law_pulls_without_counts(output: Seq<char>)
    ensures
        ({
            let t = text::trim(output);
            let shown = git_rendering::git_shown(
                GitRenderer::Pull,
                seq![ResultView { output, succeeded: true }],
            );
            &&& text::contains(t, "Already up to date"@) || text::contains(t, "Already up-to-date"@)
                ==> shown == "ok (up-to-date)"@
            &&& !text::contains(t, "Already up to date"@) && !text::contains(
                t,
                "Already up-to-date"@,
            ) && (forall|k: int|
                0 <= k < text::lines(t).len() ==> !(text::contains(
                    #[trigger] text::lines(t)[k],
                    "file"@,
                ) && text::contains(text::lines(t)[k], "changed"@))) ==> shown == "ok ✓"@
        }),
{
    let list = text::lines(text::trim(output));
    if forall|k: int|
        0 <= k < list.len() ==> !(text::contains(#[trigger] list[k], "file"@) && text::contains(
            list[k],
            "changed"@,
        )) {
        lemma_no_counts(list);
    }
}

/// The line of counts is split at its commas; a line that does not speak of files that changed
/// has no parts, and those of several lines stand in their order.
pub proof fn law_parts_of_counts(line: Seq<char>, list: Seq<Seq<char>>)
    ensures
        text::contains(line, "file"@) && text::contains(line, "changed"@)
            ==> git_rendering::count_parts(line) == text::split_on(line, ',').map_values(
            |p: Seq<char>| text::trim(p),
        ),
        !text::contains(line, "file"@) || !text::contains(line, "changed"@)
            ==> git_rendering::count_parts(line) == Seq::<Seq<char>>::empty(),
        git_rendering::all_count_parts(Seq::<Seq<char>>::empty()) == Seq::<Seq<char>>::empty(),
        git_rendering::all_count_parts(list.push(line)) == git_rendering::all_count_parts(list)
            + git_rendering::count_parts(line),
{
    let f = |l: Seq<char>| git_rendering::count_parts(l);
    list.lemma_flat_map_push(f, line);
    assert(Seq::<Seq<char>>::empty().flat_map(f) =~= Seq::<Seq<char>>::empty());
}

/// Whether the last of the parts from `k` on that `counts` is the one at `k`; or, where `k` is
/// below zero, whether there is none.
spec fn is_last(parts: Seq<Seq<char>>, counts: spec_fn(Seq<char>) -> bool, k: int) -> bool {
    k < parts.len() && (k >= 0 ==> counts(parts[k])) && forall|j: int|
        0 <= j < parts.len() && j > k ==> !counts(#[trigger] parts[j])
}

/// What a part writes first.
proof fn lemma_last(parts: Seq<Seq<char>>, counts: spec_fn(Seq<char>) -> bool, k: int)
    requires
        is_last(parts, counts, k),
        k >= -1,
    ensures
        k >= 0 ==> git_rendering::last_count(parts, counts) == git_rendering::leading_number(parts[k]),
        k < 0 ==> git_rendering::last_count(parts, counts) == 0,
{
    text::lemma_end_where(parts, counts, k + 1);
}

/// Where counts stand in several parts, the last that speaks of files, the last other that
/// speaks of insertions and the last other that speaks of deletions are shown; a number that
/// no part gives is zero. Nothing is shown where no files changed.
pub proof fn law_last_counts_are_shown(output: Seq<char>, f: int, i: int, d: int)
    requires
        ({
            let t = text::trim(output);
            let parts = git_rendering::all_count_parts(text::lines(t));
            &&& !text::contains(t, "Already up to date"@)
            &&& !text::contains(t, "Already up-to-date"@)
            &&& 0 <= f < parts.len() && -1 <= i < parts.len() && -1 <= d < parts.len()
            &&& text::contains(parts[f], "file"@)
            &&& i >= 0 ==> !text::contains(parts[i], "file"@) && text::contains(
                parts[i],
                "insertion"@,
            )
            &&& d >= 0 ==> !text::contains(parts[d], "file"@) && !text::contains(
                parts[d],
                "insertion"@,
            ) && text::contains(parts[d], "deletion"@)
            &&& forall|j: int| f < j < parts.len() ==> !text::contains(#[trigger] parts[j], "file"@)
            &&& forall|j: int|
                0 <= j < parts.len() && j > i ==> text::contains(#[trigger] parts[j], "file"@)
                    || !text::contains(parts[j], "insertion"@)
            &&& forall|j: int|
                0 <= j < parts.len() && j > d ==> text::contains(#[trigger] parts[j], "file"@)
                    || text::contains(parts[j], "insertion"@) || !text::contains(
                    parts[j],
                    "deletion"@,
                )
        }),
    ensures
        ({
            let parts = git_rendering::all_count_parts(text::lines(text::trim(output)));
            let number = |k: int|
                if k >= 0 {
                    git_rendering::leading_number(parts[k])
                } else {
                    0
                };
            git_rendering::git_shown(
                GitRenderer::Pull,
                seq![ResultView { output, succeeded: true }],
            ) == if number(f) > 0 {
                "ok ✓ "@ + number::integer_text(number(f)) + " files +"@ + number::integer_text(
                    number(i),
                ) + " -"@ + number::integer_text(number(d))
            } else {
                "ok ✓"@
            }
        }),
{
    let parts = git_rendering::all_count_parts(text::lines(text::trim(output)));
    lemma_last(parts, git_rendering::counts_files(), f);
    lemma_last(parts, git_rendering::counts_insertions(), i);
    lemma_last(parts, git_rendering::counts_deletions(), d);
}

/// The number that a part starts with is that of its first word, within the bounds of 32 bits;
/// it is zero where that word is no such number.
pub proof fn law_leading_numbers(p: Seq<char>)
    ensures
        text::words(p).len() == 0 ==> git_rendering::leading_number(p) == 0,
        text::words(p).len() > 0 ==> git_rendering::leading_number(p) == match number::parse_signed(
            text::words(p)[0],
            0x8000_0000,
            0x7fff_ffff,
        ) {
            Some(n) => n,
            None => 0,
        },
{
}

} // verus!
