//! Filters that are data: for a command, which lines to leave out.
use vstd::prelude::*;
use crate::compact;
use crate::discover::registry;
use crate::text;

verus! {

/// A filter for the output of one command.
pub struct TomlFilter {
    /// The first word of the command.
    pub command: &'static str,
    /// How the lines start that are left out.
    pub strip_lines: Vec<&'static str>,
    /// What is shown if no line is left.
    pub on_empty: &'static str,
}

/// What a filter holds.
#[verifier::ext_equal]
pub struct FilterView {
    pub command: Seq<char>,
    pub strip_lines: Seq<Seq<char>>,
    pub on_empty: Seq<char>,
}

impl View for TomlFilter {
    type V = FilterView;

    open spec fn view(&self) -> FilterView {
        FilterView {
            command: self.command@,
            strip_lines: text::str_views(self.strip_lines@),
            on_empty: self.on_empty@,
        }
    }
}

/// The filters that are known.
pub struct TomlFilterRegistry {
    pub filters: Vec<TomlFilter>,
}

/// What the filters of a list hold.
pub open spec fn filter_views(filters: Seq<TomlFilter>) -> Seq<FilterView> {
    filters.map_values(|f: TomlFilter| f@)
}

/// The filters that come with the library.
pub open spec fn builtin_filters() -> Seq<FilterView> {
    seq![
        FilterView { command: "make"@, strip_lines: seq!["make["@], on_empty: "make: ok"@ },
    ]
}

/// Whether a filter is for `command`.
pub open spec fn is_for(command: Seq<char>) -> spec_fn(FilterView) -> bool {
    |f: FilterView| f.command == registry::first_word(text::trim(command))
}

/// The first filter for `command`.
pub open spec fn filter_for(command: Seq<char>, filters: Seq<FilterView>) -> Option<FilterView> {
    let n = text::index_where(filters, is_for(command));
    if 0 <= n < filters.len() {
        Some(filters[n])
    } else {
        None
    }
}

/// The output as the filter shows it.
pub open spec fn filtered(f: FilterView, output: Seq<char>) -> Seq<char> {
    compact::compact(output, f.strip_lines, seq![], f.on_empty)
}

/// What an optional filter holds.
pub open spec fn opt_filter_view(f: Option<&TomlFilter>) -> Option<FilterView> {
    match f {
        Some(v) => Some(v@),
        None => None,
    }
}

impl TomlFilterRegistry {
    /// The filters that come with the library.
    pub fn builtin() -> (r: TomlFilterRegistry)
        ensures
            filter_views(r.filters@) == builtin_filters(),
    {
        let make = TomlFilter {
            command: "make",
            strip_lines: vec!["make["],
            on_empty: "make: ok",
        };
        let filters = vec![make];
        proof {
            assert(filters@[0]@.strip_lines =~= seq!["make["@]);
            assert(filter_views(filters@) =~= builtin_filters());
        }
        TomlFilterRegistry { filters }
    }
}

/// Find the first filter for `command`.
pub fn find_filter_in<'a>(command: &str, filters: &'a [TomlFilter]) -> (r: Option<&'a TomlFilter>)
    ensures
        opt_filter_view(r) == filter_for(command@, filter_views(filters@)),
{
    let ghost all = filter_views(filters@);
    let trimmed = text::trimmed(command);
    let word = registry::base_word(trimmed.as_str());
    let mut i: usize = 0;
    while i < filters.len()
        invariant
            i <= filters@.len(),
            all == filter_views(filters@),
            word@ == registry::first_word(text::trim(command@)),
            forall|j: int| 0 <= j < i ==> !is_for(command@)(#[trigger] all[j]),
        decreases filters@.len() - i,
    {
        assert(all[i as int] == filters@[i as int]@);
        if text::same(filters[i].command, word.as_str()) {
            proof {
                text::lemma_index_where(all, is_for(command@), i as int);
            }
            return Some(&filters[i]);
        }
        i += 1;
    }
    proof {
        text::lemma_index_where(all, is_for(command@), i as int);
    }
    None
}

/// Shorten the output of a command.
pub fn apply_filter(filter: &TomlFilter, output: &str) -> (r: String)
    ensures
        r@ == filtered(filter@, output@),
{
    let ends: Vec<&str> = Vec::new();
    assert(text::str_views(ends@) =~= Seq::<Seq<char>>::empty());
    compact::compacted(output, filter.strip_lines.as_slice(), ends.as_slice(), filter.on_empty)
}

} // verus!
