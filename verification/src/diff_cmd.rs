//! Comparing files.
use vstd::prelude::*;
use crate::compact;
use crate::compact::LineFilter;
use crate::number;
use crate::text;

verus! {

/// How many changes of a file are shown.
pub const SHOWN_CHANGES: usize = 10;

/// The lines that name the new version of a file, and so start its part of a diff.
pub open spec fn starts_file() -> spec_fn(Seq<char>) -> bool {
    |line: Seq<char>| "+++ "@.is_prefix_of(line)
}

/// A line that adds a line.
pub open spec fn added_line(line: Seq<char>) -> Option<Seq<char>> {
    if "+"@.is_prefix_of(line) && !"+++"@.is_prefix_of(line) {
        Some(line)
    } else {
        None
    }
}

/// A line that removes a line.
pub open spec fn removed_line(line: Seq<char>) -> Option<Seq<char>> {
    if "-"@.is_prefix_of(line) && !"---"@.is_prefix_of(line) {
        Some(line)
    } else {
        None
    }
}

/// A change as it is shown.
pub open spec fn shown_change(line: Seq<char>) -> Option<Seq<char>> {
    if added_line(line) is Some || removed_line(line) is Some {
        Some("  "@ + line)
    } else {
        None
    }
}

/// The file that a line which starts a file names: up to a tab, behind which the time
/// stands.
pub open spec fn file_named(line: Seq<char>) -> Seq<char> {
    let rest = text::strip_prefix(line, "+++ "@);
    text::strip_prefix(rest.take(text::index_where(rest, text::only('\t'))), "b/"@)
}

/// The name of a file, and how many lines were added and removed.
pub open spec fn heading(line: Seq<char>, body: Seq<Seq<char>>) -> Seq<char> {
    "📄 "@ + file_named(line) + " (+"@ + number::decimal(
        body.filter_map(|l: Seq<char>| added_line(l)).len(),
    ) + " -"@ + number::decimal(body.filter_map(|l: Seq<char>| removed_line(l)).len()) + ")"@
}

/// What is shown of one file.
pub open spec fn file_section(line: Seq<char>, body: Seq<Seq<char>>) -> Seq<Seq<char>> {
    seq![heading(line, body)] + compact::cap(
        body.filter_map(|l: Seq<char>| shown_change(l)),
        SHOWN_CHANGES as nat,
        "  ..."@,
    )
}

/// What is shown of all files. The part of a file goes on to the line that starts the
/// next.
pub open spec fn sections(list: Seq<Seq<char>>) -> Seq<Seq<char>>
    decreases list.len(),
{
    let n = text::index_where(list, starts_file());
    if 0 <= n < list.len() {
        let rest = list.skip(n + 1);
        file_section(list[n], rest.take(text::index_where(rest, starts_file()))) + sections(rest)
    } else {
        seq![]
    }
}

/// The diff as it is shown. What is no diff is shown as it is.
pub open spec fn condensed(diff: Seq<char>) -> Seq<char> {
    compact::lines_or(sections(text::lines(diff)), text::trim(diff))
}

/// Picks the lines that add.
struct Added;

impl LineFilter for Added {
    closed spec fn shows(&self, line: Seq<char>) -> Option<Seq<char>> {
        added_line(line)
    }

    fn show(&self, line: &str) -> (r: Option<String>) {
        if text::starts_with(line, "+") && !text::starts_with(line, "+++") {
            Some(line.to_owned())
        } else {
            None
        }
    }
}

/// Picks the lines that remove.
struct Removed;

impl LineFilter for Removed {
    closed spec fn shows(&self, line: Seq<char>) -> Option<Seq<char>> {
        removed_line(line)
    }

    fn show(&self, line: &str) -> (r: Option<String>) {
        if text::starts_with(line, "-") && !text::starts_with(line, "---") {
            Some(line.to_owned())
        } else {
            None
        }
    }
}

/// Shows the lines that add or remove.
struct Shown;

impl LineFilter for Shown {
    closed spec fn shows(&self, line: Seq<char>) -> Option<Seq<char>> {
        shown_change(line)
    }

    fn show(&self, line: &str) -> (r: Option<String>) {
        if Added.show(line).is_some() || Removed.show(line).is_some() {
            Some(text::cat("  ", line))
        } else {
            None
        }
    }
}

/// The file that a line which starts a file names.
fn name_in(line: &str) -> (r: String)
    ensures
        r@ == file_named(line@),
{
    let rest = text::prefix_stripped(line, "+++ ");
    let cs = text::chars_of(rest.as_str());
    let mut i: usize = 0;
    while i < cs.len() && cs[i] != '\t'
        invariant
            i <= cs@.len(),
            forall|j: int| 0 <= j < i ==> !text::only('\t')(#[trigger] cs@[j]),
        decreases cs@.len() - i,
    {
        i += 1;
    }
    proof {
        text::lemma_index_where(cs@, text::only('\t'), i as int);
    }
    let name = text::string_of(cs.as_slice(), 0, i);
    text::prefix_stripped(name.as_str(), "b/")
}

/// What is shown of one file.
fn section_of(line: &str, body: &[String]) -> (r: Vec<String>)
    ensures
        text::views(r@) == file_section(line@, text::views(body@)),
{
    let added = compact::show_lines(&Added, body);
    let removed = compact::show_lines(&Removed, body);
    let shown = compact::show_lines(&Shown, body);
    proof {
        assert((|l: Seq<char>| Added.shows(l)) =~= (|l: Seq<char>| added_line(l)));
        assert((|l: Seq<char>| Removed.shows(l)) =~= (|l: Seq<char>| removed_line(l)));
        assert((|l: Seq<char>| Shown.shows(l)) =~= (|l: Seq<char>| shown_change(l)));
    }
    let name = name_in(line);
    let mut head = "📄 ".to_owned();
    head.append(name.as_str());
    head.append(" (+");
    head.append(number::decimal_string(added.len() as u64).as_str());
    head.append(" -");
    head.append(number::decimal_string(removed.len() as u64).as_str());
    head.append(")");
    let mut r: Vec<String> = Vec::new();
    r.push(head);
    let mut parts = compact::capped(shown, SHOWN_CHANGES, "  ...".to_owned());
    let ghost p = text::views(parts@);
    r.append(&mut parts);
    assert(text::views(r@) =~= seq![heading(line@, text::views(body@))] + p);
    r
}

/// The position of the next line that starts a file, from `from` on.
fn next_file(list: &[String], from: usize) -> (r: usize)
    requires
        from <= list@.len(),
    ensures
        from <= r <= list@.len(),
        r - from == text::index_where(text::views(list@).skip(from as int), starts_file()),
{
    let ghost rest = text::views(list@).skip(from as int);
    let mut i: usize = from;
    while i < list.len() && !text::starts_with(list[i].as_str(), "+++ ")
        invariant
            from <= i <= list@.len(),
            rest == text::views(list@).skip(from as int),
            forall|j: int| 0 <= j < i - from ==> !starts_file()(#[trigger] rest[j]),
        decreases list@.len() - i,
    {
        assert(rest[i - from] == list@[i as int]@);
        i += 1;
    }
    proof {
        if i < list@.len() {
            assert(rest[i - from] == list@[i as int]@);
        }
        text::lemma_index_where(rest, starts_file(), i - from);
    }
    i
}

/// Shorten a diff between files.
pub fn condense_unified_diff(diff: &str) -> (r: String)
    ensures
        r@ == condensed(diff@),
{
    let list = text::line_list(diff);
    let ghost all = text::views(list@);
    let mut out: Vec<String> = Vec::new();
    let mut i: usize = 0;
    assert(all.skip(0) == all);
    loop
        invariant_except_break
            i <= list@.len(),
            all == text::views(list@),
            sections(all) == text::views(out@) + sections(all.skip(i as int)),
        ensures
            sections(all) == text::views(out@),
        decreases list@.len() - i,
    {
        let start = next_file(list.as_slice(), i);
        if start == list.len() {
            assert(text::views(out@) + sections(all.skip(i as int)) == text::views(out@));
            break;
        }
        let end = next_file(list.as_slice(), start + 1);
        let body = compact::copied(list.as_slice(), start + 1, end);
        let mut part = section_of(list[start].as_str(), body.as_slice());
        proof {
            let here = all.skip(i as int);
            let rest = here.skip(start - i + 1);
            assert(rest == all.skip(start + 1));
            assert(here[start - i] == list@[start as int]@);
            assert(rest.take(end - start - 1) == all.subrange(start + 1, end as int));
            assert(text::views(out@ + part@) =~= text::views(out@) + text::views(part@));
            assert(text::views(out@) + (text::views(part@) + sections(rest)) == text::views(out@)
                + text::views(part@) + sections(rest));
        }
        out.append(&mut part);
        i = start + 1;
    }
    let trimmed = text::trimmed(diff);
    compact::joined_or(out.as_slice(), trimmed.as_str())
}

} // verus!
