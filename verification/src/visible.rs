//! The visible-line space of the log pane.
//!
//! A collapsed entry shows one line, an expanded one shows all of its lines.
//! The lines that are shown, numbered from zero in the order of the entries,
//! are what the log pane's selection counts in.

use crate::log_parser::{
    all_lines, all_nonempty, entry_views, lemma_all_lines_concat, EntryView, LogEntry,
};
use std::collections::HashSet;
use vstd::prelude::*;
use vstd::std_specs::hash::*;

verus! {

broadcast use vstd::std_specs::hash::group_hash_axioms;

/// How many lines the entry `e` shows when it stands at position `index`.
pub open spec fn shown(e: EntryView, index: int, expanded: Set<usize>) -> nat {
    if expanded.contains(index as usize) {
        e.lines.len()
    } else {
        1
    }
}

/// How many lines all of `entries` show.
pub open spec fn total_visible(entries: Seq<EntryView>, expanded: Set<usize>) -> nat
    decreases entries.len(),
{
    if entries.len() == 0 {
        0
    } else {
        total_visible(entries.drop_last(), expanded) + shown(
            entries.last(),
            entries.len() - 1,
            expanded,
        )
    }
}

/// The visible line at which the entry at position `index` begins.
pub open spec fn first_line_of(entries: Seq<EntryView>, expanded: Set<usize>, index: int) -> nat {
    total_visible(entries.take(index), expanded)
}

/// The entry at position `index` shows the visible line `line`.
pub open spec fn owns(entries: Seq<EntryView>, expanded: Set<usize>, index: int, line: int) -> bool {
    &&& 0 <= index < entries.len()
    &&& first_line_of(entries, expanded, index) <= line < first_line_of(entries, expanded, index + 1)
}

/// One more entry adds the lines it shows.
pub proof fn lemma_first_line_step(entries: Seq<EntryView>, expanded: Set<usize>, index: int)
    requires
        0 <= index < entries.len(),
    ensures
        first_line_of(entries, expanded, index + 1) == first_line_of(entries, expanded, index)
            + shown(entries[index], index, expanded),
        first_line_of(entries, expanded, 0) == 0,
        first_line_of(entries, expanded, entries.len() as int) == total_visible(entries, expanded),
{
    assert(entries.take(index + 1).drop_last() == entries.take(index));
    assert(entries.take(entries.len() as int) == entries);
}

/// The entries begin at visible lines that do not decrease, and end within
/// the total.
pub proof fn lemma_first_line_monotonic(
    entries: Seq<EntryView>,
    expanded: Set<usize>,
    i: int,
    j: int,
)
    requires
        0 <= i <= j <= entries.len(),
    ensures
        first_line_of(entries, expanded, i) <= first_line_of(entries, expanded, j),
    decreases j - i,
{
    if i < j {
        lemma_first_line_monotonic(entries, expanded, i, j - 1);
        lemma_first_line_step(entries, expanded, j - 1);
    }
}

/// Entries that each hold a line show at least one line each, and no more
/// lines than they hold together.
pub proof fn lemma_total_visible_bounds(entries: Seq<EntryView>, expanded: Set<usize>)
    requires
        all_nonempty(entries),
    ensures
        entries.len() <= total_visible(entries, expanded) <= all_lines(entries).len(),
    decreases entries.len(),
{
    if entries.len() > 0 {
        let rest = entries.drop_last();
        lemma_total_visible_bounds(rest, expanded);
    }
}

/// With nothing expanded, every entry shows one line.
pub proof fn lemma_total_visible_collapsed(entries: Seq<EntryView>)
    ensures
        total_visible(entries, Set::empty()) == entries.len(),
    decreases entries.len(),
{
    if entries.len() > 0 {
        lemma_total_visible_collapsed(entries.drop_last());
    }
}

/// No visible line belongs to two entries.
pub proof fn lemma_owner_unique(
    entries: Seq<EntryView>,
    expanded: Set<usize>,
    i: int,
    j: int,
    line: int,
)
    requires
        owns(entries, expanded, i, line),
        owns(entries, expanded, j, line),
    ensures
        i == j,
{
    if i < j {
        lemma_first_line_monotonic(entries, expanded, i + 1, j);
    }
    if j < i {
        lemma_first_line_monotonic(entries, expanded, j + 1, i);
    }
}

/// Every visible line belongs to an entry.
pub proof fn lemma_owner_exists(entries: Seq<EntryView>, expanded: Set<usize>, line: int)
    requires
        0 <= line < total_visible(entries, expanded),
    ensures
        exists|index: int| owns(entries, expanded, index, line),
    decreases entries.len(),
{
    let n = entries.len() as int;
    let rest = entries.drop_last();
    assert(entries.take(n) == entries);
    if line >= total_visible(rest, expanded) {
        assert(owns(entries, expanded, n - 1, line));
    } else {
        lemma_owner_exists(rest, expanded, line);
        let index = choose|index: int| owns(rest, expanded, index, line);
        assert(rest.take(index) == entries.take(index));
        assert(rest.take(index + 1) == entries.take(index + 1));
        assert(owns(entries, expanded, index, line));
    }
}

/// Entries that are added at the end take no visible line away.
pub proof fn lemma_total_visible_concat(
    a: Seq<EntryView>,
    b: Seq<EntryView>,
    expanded: Set<usize>,
)
    ensures
        total_visible(a, expanded) <= total_visible(a + b, expanded),
    decreases b.len(),
{
    if b.len() > 0 {
        lemma_total_visible_concat(a, b.drop_last(), expanded);
        assert((a + b).drop_last() == a + b.drop_last());
    }
}

/// Entries that are added at the end, each holding a line, add visible lines.
pub proof fn lemma_total_visible_grows(a: Seq<EntryView>, b: Seq<EntryView>, expanded: Set<usize>)
    requires
        all_nonempty(b),
        b.len() > 0,
    ensures
        total_visible(a, expanded) < total_visible(a + b, expanded),
{
    lemma_total_visible_concat(a, b.drop_last(), expanded);
    assert((a + b).drop_last() == a + b.drop_last());
}

/// How many lines the entry at `index` shows.
fn shown_lines(entries: &Vec<LogEntry>, expanded: &HashSet<usize>, index: usize) -> (n: usize)
    requires
        index < entries.len(),
    ensures
        n == shown(entry_views(entries@)[index as int], index as int, expanded@),
{
    if expanded.contains(&index) {
        entries[index].lines.len()
    } else {
        1
    }
}

/// Counts the lines that the log pane shows.
pub fn total_visible_lines(entries: &Vec<LogEntry>, expanded: &HashSet<usize>) -> (total: usize)
    requires
        total_visible(entry_views(entries@), expanded@) <= usize::MAX,
    ensures
        total == total_visible(entry_views(entries@), expanded@),
{
    let ghost views = entry_views(entries@);
    let mut total: usize = 0;
    let mut i: usize = 0;
    while i < entries.len()
        invariant
            i <= entries.len(),
            views == entry_views(entries@),
            total == first_line_of(views, expanded@, i as int),
            total_visible(views, expanded@) <= usize::MAX,
        decreases entries.len() - i,
    {
        proof {
            lemma_first_line_step(views, expanded@, i as int);
            lemma_first_line_monotonic(views, expanded@, i + 1, views.len() as int);
        }
        total = total + shown_lines(entries, expanded, i);
        i = i + 1;
    }
    proof {
        assert(views.take(views.len() as int) == views);
    }
    total
}

/// Counts the lines that `entries` hold together: `None` when they are more
/// than a `usize` can count.
pub fn count_lines(entries: &Vec<LogEntry>) -> (count: Option<usize>)
    ensures
        match count {
            Some(n) => n == all_lines(entry_views(entries@)).len(),
            None => all_lines(entry_views(entries@)).len() > usize::MAX,
        },
{
    let ghost views = entry_views(entries@);
    let mut count: usize = 0;
    let mut i: usize = 0;
    while i < entries.len()
        invariant
            i <= entries.len(),
            views == entry_views(entries@),
            count == all_lines(views.take(i as int)).len(),
        decreases entries.len() - i,
    {
        proof {
            assert(views.take(i + 1).drop_last() == views.take(i as int));
        }
        match count.checked_add(entries[i].lines.len()) {
            Some(next) => {
                count = next;
            },
            None => {
                proof {
                    lemma_all_lines_concat(views.take(i + 1), views.skip(i + 1));
                    assert(views.take(i + 1) + views.skip(i + 1) == views);
                }
                return None;
            },
        }
        i = i + 1;
    }
    proof {
        assert(views.take(views.len() as int) == views);
    }
    Some(count)
}

/// Finds the entry that shows the visible line `line`: `None` when the pane
/// shows no such line.
pub fn entry_at(entries: &Vec<LogEntry>, expanded: &HashSet<usize>, line: usize) -> (owner: Option<
    usize,
>)
    ensures
        match owner {
            Some(index) => owns(entry_views(entries@), expanded@, index as int, line as int),
            None => total_visible(entry_views(entries@), expanded@) <= line,
        },
{
    let ghost views = entry_views(entries@);
    let mut before: usize = 0;
    let mut i: usize = 0;
    while i < entries.len()
        invariant
            i <= entries.len(),
            views == entry_views(entries@),
            before == first_line_of(views, expanded@, i as int),
            before <= line,
        decreases entries.len() - i,
    {
        proof {
            lemma_first_line_step(views, expanded@, i as int);
        }
        let here = shown_lines(entries, expanded, i);
        if line - before < here {
            return Some(i);
        }
        before = before + here;
        i = i + 1;
    }
    proof {
        assert(views.take(views.len() as int) == views);
    }
    None
}

} // verus!
