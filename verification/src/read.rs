//! Showing a file.
use vstd::prelude::*;
use crate::compact;
use crate::compact::LineFilter;
use crate::filter::FilterLevel;
use crate::number;
use crate::text;

verus! {

/// Whether `name` ends in one of the endings of files whose comments start with two
/// slashes.
pub open spec fn has_slash_comments(name: Seq<char>) -> bool {
    ".rs"@.is_suffix_of(name) || ".js"@.is_suffix_of(name) || ".ts"@.is_suffix_of(name)
        || ".go"@.is_suffix_of(name) || ".java"@.is_suffix_of(name) || ".c"@.is_suffix_of(name)
        || ".cpp"@.is_suffix_of(name) || ".h"@.is_suffix_of(name)
}

/// Whether `name` ends in one of the endings of files whose comments start with a
/// hash sign.
pub open spec fn has_hash_comments(name: Seq<char>) -> bool {
    ".py"@.is_suffix_of(name) || ".sh"@.is_suffix_of(name) || ".rb"@.is_suffix_of(name)
        || ".toml"@.is_suffix_of(name) || ".yaml"@.is_suffix_of(name) || ".yml"@.is_suffix_of(
        name,
    )
}

/// How a comment is written in a file.
#[derive(Clone, Copy, PartialEq, Eq, Structural, Debug)]
pub enum Comments {
    Unknown,
    Slashes,
    Hash,
}

/// How a comment is written in the file with this name.
pub open spec fn comments_in(name: Option<Seq<char>>) -> Comments {
    match name {
        Some(n) => if has_slash_comments(n) {
            Comments::Slashes
        } else if has_hash_comments(n) {
            Comments::Hash
        } else {
            Comments::Unknown
        },
        None => Comments::Unknown,
    }
}

/// Whether a line holds only a comment.
pub open spec fn is_comment(line: Seq<char>, comments: Comments) -> bool {
    let t = text::trim_start(line);
    match comments {
        Comments::Unknown => false,
        Comments::Slashes => "//"@.is_prefix_of(t),
        Comments::Hash => "#"@.is_prefix_of(t) && !"#!"@.is_prefix_of(t),
    }
}

/// Whether a line holds only documentation.
pub open spec fn is_doc(line: Seq<char>, comments: Comments) -> bool {
    let t = text::trim_start(line);
    comments == Comments::Slashes && ("///"@.is_prefix_of(t) || "//!"@.is_prefix_of(t))
}

/// A line of a file as it is shown.
pub open spec fn source_line(
    line: Seq<char>,
    level: FilterLevel,
    comments: Comments,
) -> Option<Seq<char>> {
    let left_out = match level {
        FilterLevel::Whole => false,
        FilterLevel::Minimal => is_comment(line, comments) && !is_doc(line, comments),
        FilterLevel::Aggressive => is_comment(line, comments) || text::trim(line).len() == 0,
    };
    if left_out {
        None
    } else {
        Some(line)
    }
}

/// The lines with their numbers before them.
pub open spec fn numbered(list: Seq<Seq<char>>) -> Seq<Seq<char>> {
    Seq::new(list.len(), |i: int| number::decimal((i + 1) as nat) + " │ "@ + list[i])
}

/// The last lines where their number is given, else the first where theirs is, with a
/// note on how many are missing.
pub open spec fn window(
    list: Seq<Seq<char>>,
    max_lines: Option<usize>,
    tail_lines: Option<usize>,
) -> Seq<Seq<char>> {
    match (tail_lines, max_lines) {
        (Some(n), _) => if list.len() <= n {
            list
        } else {
            list.skip(list.len() - n)
        },
        (None, Some(n)) => compact::cap(
            list,
            n as nat,
            "... ("@ + number::decimal((list.len() - n) as nat) + " more lines)"@,
        ),
        (None, None) => list,
    }
}

/// The file as it is shown.
pub open spec fn file_report(
    output: Seq<char>,
    name: Option<Seq<char>>,
    level: FilterLevel,
    max_lines: Option<usize>,
    tail_lines: Option<usize>,
    line_numbers: bool,
) -> Seq<char> {
    let list = text::lines(output).filter_map(
        |l: Seq<char>| source_line(l, level, comments_in(name)),
    );
    text::join(
        window(
            if line_numbers {
                numbered(list)
            } else {
                list
            },
            max_lines,
            tail_lines,
        ),
        "\n"@,
    )
}

/// The text that an optional slice holds.
pub open spec fn name_view(t: Option<&str>) -> Option<Seq<char>> {
    match t {
        Some(s) => Some(s@),
        None => None,
    }
}

/// How a comment is written in the file with this name.
fn comments_of(name: Option<&str>) -> (r: Comments)
    ensures
        r == comments_in(name_view(name)),
{
    match name {
        Some(n) => {
            if text::ends_with(n, ".rs") || text::ends_with(n, ".js") || text::ends_with(n, ".ts")
                || text::ends_with(n, ".go") || text::ends_with(n, ".java") || text::ends_with(
                n,
                ".c",
            ) || text::ends_with(n, ".cpp") || text::ends_with(n, ".h") {
                Comments::Slashes
            } else if text::ends_with(n, ".py") || text::ends_with(n, ".sh") || text::ends_with(
                n,
                ".rb",
            ) || text::ends_with(n, ".toml") || text::ends_with(n, ".yaml") || text::ends_with(
                n,
                ".yml",
            ) {
                Comments::Hash
            } else {
                Comments::Unknown
            }
        },
        None => Comments::Unknown,
    }
}

/// Shows the lines of a file.
struct Source {
    level: FilterLevel,
    comments: Comments,
}

impl LineFilter for Source {
    closed spec fn shows(&self, line: Seq<char>) -> Option<Seq<char>> {
        source_line(line, self.level, self.comments)
    }

    fn show(&self, line: &str) -> (r: Option<String>) {
        let t = text::trimmed_start(line);
        let comment = match self.comments {
            Comments::Unknown => false,
            Comments::Slashes => text::starts_with(t.as_str(), "//"),
            Comments::Hash => text::starts_with(t.as_str(), "#") && !text::starts_with(
                t.as_str(),
                "#!",
            ),
        };
        let left_out = match self.level {
            FilterLevel::Whole => false,
            FilterLevel::Minimal => comment && !(self.comments == Comments::Slashes && (
            text::starts_with(t.as_str(), "///") || text::starts_with(t.as_str(), "//!"))),
            FilterLevel::Aggressive => comment || text::trimmed(line).as_str().is_empty(),
        };
        if left_out {
            None
        } else {
            Some(line.to_owned())
        }
    }
}

/// The lines with their numbers before them.
fn with_numbers(list: &[String]) -> (r: Vec<String>)
    ensures
        text::views(r@) == numbered(text::views(list@)),
{
    let ghost all = numbered(text::views(list@));
    let mut r: Vec<String> = Vec::new();
    let mut i: usize = 0;
    while i < list.len()
        invariant
            i <= list@.len(),
            all == numbered(text::views(list@)),
            text::views(r@) == all.take(i as int),
        decreases list@.len() - i,
    {
        let mut line = number::decimal_string(i as u64 + 1);
        line.append(" │ ");
        line.append(list[i].as_str());
        proof {
            text::lemma_views_push(r@, line);
            assert(line@ == all[i as int]);
            assert(all.take(i + 1) == all.take(i as int).push(line@));
        }
        r.push(line);
        i += 1;
    }
    assert(all.take(i as int) == all);
    r
}

/// Shorten a file.
pub fn render_read_output(
    output: &str,
    file_name_hint: Option<&str>,
    level: FilterLevel,
    max_lines: Option<usize>,
    tail_lines: Option<usize>,
    line_numbers: bool,
) -> (r: String)
    ensures
        r@ == file_report(
            output@,
            name_view(file_name_hint),
            level,
            max_lines,
            tail_lines,
            line_numbers,
        ),
{
    let all = text::line_list(output);
    let filter = Source { level, comments: comments_of(file_name_hint) };
    let kept = compact::show_lines(&filter, all.as_slice());
    proof {
        assert((|l: Seq<char>| filter.shows(l)) =~= (|l: Seq<char>|
            source_line(l, level, comments_in(name_view(file_name_hint)))));
    }
    let list = if line_numbers {
        with_numbers(kept.as_slice())
    } else {
        kept
    };
    let parts = match (tail_lines, max_lines) {
        (Some(n), _) => {
            if list.len() <= n {
                list
            } else {
                compact::copied(list.as_slice(), list.len() - n, list.len())
            }
        },
        (None, Some(n)) => {
            let mut more = "... (".to_owned();
            if list.len() > n {
                more.append(number::decimal_string((list.len() - n) as u64).as_str());
                more.append(" more lines)");
            }
            compact::capped(list, n, more)
        },
        (None, None) => list,
    };
    text::joined(parts.as_slice(), "\n")
}

} // verus!
