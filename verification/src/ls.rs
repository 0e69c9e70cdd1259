//! Listing directories.
use vstd::prelude::*;
use crate::compact;
use crate::compact::LineFilter;
use crate::shell_words;
use crate::text;

verus! {

/// Whether `arg` is an option.
pub open spec fn is_flag(arg: Seq<char>) -> bool {
    arg.len() > 1 && arg[0] == '-'
}

/// What is left of an option when a long listing of everything is asked for anyway.
pub open spec fn extra_flag(arg: Seq<char>) -> Option<Seq<char>> {
    if !is_flag(arg) || arg == "--all"@ {
        None
    } else if "--"@.is_prefix_of(arg) {
        Some(arg)
    } else {
        let letters = text::without(arg.skip(1), "lah"@);
        if letters.len() == 0 {
            None
        } else {
            Some("-"@ + letters)
        }
    }
}

/// `arg`, if it is a path.
pub open spec fn path_arg(arg: Seq<char>) -> Option<Seq<char>> {
    if is_flag(arg) {
        None
    } else {
        Some(arg)
    }
}

/// The paths that are listed: the current directory if none is named.
pub open spec fn listed_paths(args: Seq<Seq<char>>) -> Seq<Seq<char>> {
    let paths = args.filter_map(|a: Seq<char>| path_arg(a));
    if paths.len() == 0 {
        seq!["."@]
    } else {
        paths
    }
}

/// The words of the listing command: always long and of everything.
pub open spec fn ls_words(args: Seq<Seq<char>>) -> Seq<Seq<char>> {
    seq!["ls"@, "-la"@] + args.filter_map(|a: Seq<char>| extra_flag(a)) + listed_paths(args)
}

/// The names that are shown only when everything is asked for.
pub open spec fn is_hidden(name: Seq<char>) -> bool {
    (name.len() > 0 && name[0] == '.') || name == "node_modules"@ || name == "target"@ || name
        == "__pycache__"@
}

/// What is shown of an entry of a long listing: directories by name, other entries
/// by name and size. Lines with fewer than nine columns are no entries.
pub open spec fn entry(line: Seq<char>, show_all: bool, directories: bool) -> Option<Seq<char>> {
    let w = text::words(line);
    let name = text::join(w.skip(8), " "@);
    if w.len() < 9 || name == "."@ || name == ".."@ || (!show_all && is_hidden(name))
        || directories != "d"@.is_prefix_of(w[0]) {
        None
    } else if directories {
        Some(name + "/"@)
    } else {
        Some(name + " "@ + w[4])
    }
}

/// The listing as it is shown: first the directories, then the other entries.
pub open spec fn listing(output: Seq<char>, show_all: bool) -> Seq<char> {
    let list = text::lines(output);
    compact::lines_or(
        list.filter_map(|l: Seq<char>| entry(l, show_all, true)) + list.filter_map(
            |l: Seq<char>| entry(l, show_all, false),
        ),
        "(empty)"@,
    )
}

/// Picks the options.
struct Flags;

impl LineFilter for Flags {
    closed spec fn shows(&self, line: Seq<char>) -> Option<Seq<char>> {
        extra_flag(line)
    }

    fn show(&self, line: &str) -> (r: Option<String>) {
        let cs = text::chars_of(line);
        if cs.len() < 2 || cs[0] != '-' || text::same(line, "--all") {
            None
        } else if text::starts_with(line, "--") {
            Some(line.to_owned())
        } else {
            let cluster = text::string_of(cs.as_slice(), 1, cs.len());
            let letters = text::without_chars(cluster.as_str(), "lah");
            if letters.as_str().is_empty() {
                None
            } else {
                Some(text::cat("-", letters.as_str()))
            }
        }
    }
}

/// Picks the paths.
struct Paths;

impl LineFilter for Paths {
    closed spec fn shows(&self, line: Seq<char>) -> Option<Seq<char>> {
        path_arg(line)
    }

    fn show(&self, line: &str) -> (r: Option<String>) {
        let cs = text::chars_of(line);
        if cs.len() > 1 && cs[0] == '-' {
            None
        } else {
            Some(line.to_owned())
        }
    }
}

/// Picks the directories, or the other entries.
struct Entries {
    show_all: bool,
    directories: bool,
}

impl LineFilter for Entries {
    closed spec fn shows(&self, line: Seq<char>) -> Option<Seq<char>> {
        entry(line, self.show_all, self.directories)
    }

    fn show(&self, line: &str) -> (r: Option<String>) {
        let w = text::word_list(line);
        if w.len() < 9 {
            return None;
        }
        let tail = compact::copied(w.as_slice(), 8, w.len());
        let name = text::joined(tail.as_slice(), " ");
        let cs = text::chars_of(name.as_str());
        let hidden = (cs.len() > 0 && cs[0] == '.') || text::same(name.as_str(), "node_modules")
            || text::same(name.as_str(), "target") || text::same(name.as_str(), "__pycache__");
        if text::same(name.as_str(), ".") || text::same(name.as_str(), "..") || (!self.show_all
            && hidden) || self.directories != text::starts_with(w[0].as_str(), "d") {
            return None;
        }
        if self.directories {
            Some(text::cat(name.as_str(), "/"))
        } else {
            let front = text::cat(name.as_str(), " ");
            Some(text::cat(front.as_str(), w[4].as_str()))
        }
    }
}

/// Write the listing command for the arguments of an `ls` command.
pub fn build_ls_command(args: &[String]) -> (r: String)
    ensures
        r@ == shell_words::command_line(ls_words(text::views(args@))),
{
    let ghost all = text::views(args@);
    let mut flags = compact::show_lines(&Flags, args);
    let mut paths = compact::show_lines(&Paths, args);
    proof {
        assert((|a: Seq<char>| Flags.shows(a)) =~= (|a: Seq<char>| extra_flag(a)));
        assert((|a: Seq<char>| Paths.shows(a)) =~= (|a: Seq<char>| path_arg(a)));
    }
    let mut list: Vec<String> = Vec::new();
    list.push("ls".to_owned());
    list.push("-la".to_owned());
    list.append(&mut flags);
    if paths.len() == 0 {
        paths.push(".".to_owned());
        assert(text::views(paths@) =~= seq!["."@]);
    }
    list.append(&mut paths);
    assert(text::views(list@) =~= ls_words(all));
    shell_words::join(list.as_slice())
}

/// Shorten a long listing.
pub fn render_ls_output(output: &str, show_all: bool) -> (r: String)
    ensures
        r@ == listing(output@, show_all),
{
    let list = text::line_list(output);
    let d = Entries { show_all, directories: true };
    let f = Entries { show_all, directories: false };
    let mut directories = compact::show_lines(&d, list.as_slice());
    let mut files = compact::show_lines(&f, list.as_slice());
    proof {
        assert((|l: Seq<char>| d.shows(l)) =~= (|l: Seq<char>| entry(l, show_all, true)));
        assert((|l: Seq<char>| f.shows(l)) =~= (|l: Seq<char>| entry(l, show_all, false)));
    }
    let ghost a = text::views(directories@);
    let ghost b = text::views(files@);
    directories.append(&mut files);
    assert(text::views(directories@) =~= a + b);
    compact::joined_or(directories.as_slice(), "(empty)")
}

} // verus!
