//! Making output shorter line by line.
use vstd::prelude::*;
use crate::text;

verus! {

/// What a filter makes of one line.
pub trait LineFilter {
    /// The line as it is shown, or nothing if it is left out.
    spec fn shows(&self, line: Seq<char>) -> Option<Seq<char>>;

    /// The line as it is shown, or nothing if it is left out.
    fn show(&self, line: &str) -> (r: Option<String>)
        ensures
            text::opt_view(r) == self.shows(line@),
    ;
}

/// The lines that `filter` shows, as it shows them.
pub open spec fn shown<F: LineFilter>(
    filter: &F,
    list: Seq<Seq<char>>,
) -> Seq<Seq<char>> {
    list.filter_map(|line: Seq<char>| filter.shows(line))
}

/// `s` cut to at most `n` characters, the last three of which then say that
/// something is missing.
pub open spec fn clip(s: Seq<char>, n: nat) -> Seq<char> {
    if s.len() <= n {
        s
    } else if n < 3 {
        s.take(n as int)
    } else {
        s.take(n - 3) + "..."@
    }
}

/// At most the first `n` parts, and behind them `more` if any are missing.
pub open spec fn cap(parts: Seq<Seq<char>>, n: nat, more: Seq<char>) -> Seq<Seq<char>> {
    if parts.len() <= n {
        parts
    } else {
        parts.take(n as int).push(more)
    }
}

/// The parts as lines of one text, or `otherwise` if there are none.
pub open spec fn lines_or(parts: Seq<Seq<char>>, otherwise: Seq<char>) -> Seq<char> {
    if parts.len() == 0 {
        otherwise
    } else {
        text::join(parts, "\n"@)
    }
}

/// The lines that `filter` shows, as it shows them.
pub fn show_lines<F: LineFilter>(filter: &F, list: &[String]) -> (r: Vec<String>)
    ensures
        text::views(r@) == shown(filter, text::views(list@)),
{
    let ghost all = text::views(list@);
    let ghost f = |line: Seq<char>| filter.shows(line);
    let mut r: Vec<String> = Vec::new();
    let mut i: usize = 0;
    assert(all.take(0) == Seq::<Seq<char>>::empty());
    while i < list.len()
        invariant
            i <= list@.len(),
            all == text::views(list@),
            f == (|line: Seq<char>| filter.shows(line)),
            text::views(r@) == all.take(i as int).filter_map(f),
        decreases list@.len() - i,
    {
        proof {
            all.lemma_filter_map_take_succ(f, i as int);
        }
        match filter.show(list[i].as_str()) {
            Some(line) => {
                proof {
                    text::lemma_views_push(r@, line);
                }
                r.push(line);
            },
            None => {},
        }
        i += 1;
    }
    assert(all.take(i as int) == all);
    r
}

/// `s` cut to at most `n` characters.
pub fn clipped(s: &str, n: usize) -> (r: String)
    ensures
        r@ == clip(s@, n as nat),
{
    let cs = text::chars_of(s);
    if cs.len() <= n {
        s.to_owned()
    } else if n < 3 {
        text::string_of(cs.as_slice(), 0, n)
    } else {
        let front = text::string_of(cs.as_slice(), 0, n - 3);
        text::cat(front.as_str(), "...")
    }
}

/// Copies of the strings `list[from..to]`.
pub fn copied(list: &[String], from: usize, to: usize) -> (r: Vec<String>)
    requires
        from <= to <= list@.len(),
    ensures
        text::views(r@) == text::views(list@).subrange(from as int, to as int),
{
    let mut r: Vec<String> = Vec::new();
    let mut i: usize = from;
    while i < to
        invariant
            from <= i <= to <= list@.len(),
            text::views(r@) == text::views(list@).subrange(from as int, i as int),
        decreases to - i,
    {
        let s = list[i].clone();
        proof {
            text::lemma_views_push(r@, s);
        }
        r.push(s);
        i += 1;
    }
    r
}

/// At most the first `n` parts, and behind them `more` if any are missing.
pub fn capped(parts: Vec<String>, n: usize, more: String) -> (r: Vec<String>)
    ensures
        text::views(r@) == cap(text::views(parts@), n as nat, more@),
{
    if parts.len() <= n {
        return parts;
    }
    let mut r = copied(parts.as_slice(), 0, n);
    proof {
        text::lemma_views_push(r@, more);
    }
    r.push(more);
    r
}

/// The parts as lines of one text, or `otherwise` if there are none.
pub fn joined_or(parts: &[String], otherwise: &str) -> (r: String)
    ensures
        r@ == lines_or(text::views(parts@), otherwise@),
{
    if parts.len() == 0 {
        otherwise.to_owned()
    } else {
        text::joined(parts, "\n")
    }
}

/// The lines that say nothing: the empty ones, those that start with one of
/// `starts` behind their indentation, and those that end in one of `ends`.
pub struct Noise<'a> {
    pub starts: &'a [&'a str],
    pub ends: &'a [&'a str],
}

/// Whether `line` says nothing.
pub open spec fn is_noise(
    line: Seq<char>,
    starts: Seq<Seq<char>>,
    ends: Seq<Seq<char>>,
) -> bool {
    ||| text::trim(line).len() == 0
    ||| exists|i: int|
        0 <= i < starts.len() && (#[trigger] starts[i]).is_prefix_of(text::trim_start(line))
    ||| exists|i: int| 0 <= i < ends.len() && (#[trigger] ends[i]).is_suffix_of(line)
}

/// The lines that are not noise.
pub open spec fn without_noise(
    starts: Seq<Seq<char>>,
    ends: Seq<Seq<char>>,
) -> spec_fn(Seq<char>) -> Option<Seq<char>> {
    |line: Seq<char>|
        if is_noise(line, starts, ends) {
            None
        } else {
            Some(line)
        }
}

/// The output without its noise, or `otherwise` if nothing is left.
pub open spec fn compact(
    output: Seq<char>,
    starts: Seq<Seq<char>>,
    ends: Seq<Seq<char>>,
    otherwise: Seq<char>,
) -> Seq<char> {
    lines_or(text::lines(output).filter_map(without_noise(starts, ends)), otherwise)
}

impl<'a> LineFilter for Noise<'a> {
    open spec fn shows(&self, line: Seq<char>) -> Option<Seq<char>> {
        without_noise(text::str_views(self.starts@), text::str_views(self.ends@))(line)
    }

    fn show(&self, line: &str) -> (r: Option<String>) {
        let ghost starts = text::str_views(self.starts@);
        let ghost ends = text::str_views(self.ends@);
        if text::trimmed(line).as_str().is_empty() {
            return None;
        }
        let body = text::trimmed_start(line);
        let mut i: usize = 0;
        while i < self.starts.len()
            invariant
                i <= self.starts@.len(),
                starts == text::str_views(self.starts@),
                ends == text::str_views(self.ends@),
                body@ == text::trim_start(line@),
                forall|j: int| 0 <= j < i ==> !(#[trigger] starts[j]).is_prefix_of(body@),
            decreases self.starts@.len() - i,
        {
            assert(starts[i as int] == self.starts@[i as int]@);
            if text::starts_with(body.as_str(), self.starts[i]) {
                return None;
            }
            i += 1;
        }
        let mut k: usize = 0;
        while k < self.ends.len()
            invariant
                k <= self.ends@.len(),
                starts == text::str_views(self.starts@),
                ends == text::str_views(self.ends@),
                forall|j: int| 0 <= j < k ==> !(#[trigger] ends[j]).is_suffix_of(line@),
            decreases self.ends@.len() - k,
        {
            assert(ends[k as int] == self.ends@[k as int]@);
            if text::ends_with(line, self.ends[k]) {
                return None;
            }
            k += 1;
        }
        Some(line.to_owned())
    }
}

/// The output without its noise, or `otherwise` if nothing is left.
pub fn compacted(output: &str, starts: &[&str], ends: &[&str], otherwise: &str) -> (r: String)
    ensures
        r@ == compact(output@, text::str_views(starts@), text::str_views(ends@), otherwise@),
{
    let filter = Noise { starts, ends };
    let list = text::line_list(output);
    let kept = show_lines(&filter, list.as_slice());
    proof {
        let f = |line: Seq<char>| filter.shows(line);
        assert(f =~= without_noise(text::str_views(starts@), text::str_views(ends@)));
    }
    joined_or(kept.as_slice(), otherwise)
}

} // verus!
