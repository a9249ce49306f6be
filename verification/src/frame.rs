//! What the two panes show: the rows of each, ready to be painted.

use crate::log_parser::{all_nonempty, entry_views, EntryView, LogEntry, LogLevel};
use crate::text::string_views;
use crate::visible::{first_line_of, owns, total_visible};
use std::collections::HashSet;
use vstd::prelude::*;
use vstd::std_specs::hash::*;
use vstd::string::StrSliceExecFns;

verus! {

broadcast use vstd::std_specs::hash::group_hash_axioms;

/// The sign behind a row of the log pane.
#[derive(Debug, Clone, Copy, PartialEq, Eq, Structural)]
pub enum Marker {
    /// The row needs no sign.
    Plain,
    /// The row stands for an entry that hides continuation lines.
    Collapsed,
    /// The row is the first of an entry that shows its continuation lines.
    Expanded,
}

/// The sign that a marker is drawn as, behind the text of its row.
pub open spec fn marker_sign(marker: Marker) -> Seq<char> {
    match marker {
        Marker::Plain => ""@,
        Marker::Collapsed => " \u{25b6}"@,
        Marker::Expanded => " \u{25bc}"@,
    }
}

impl Marker {
    /// The sign to draw behind the text of the row: a triangle that points
    /// right for hidden lines, one that points down for lines that are shown.
    pub fn sign(&self) -> (sign: &'static str)
        ensures
            sign@ == marker_sign(*self),
    {
        match self {
            Marker::Plain => "",
            Marker::Collapsed => " \u{25b6}",
            Marker::Expanded => " \u{25bc}",
        }
    }
}

/// The colours that the panes use for text.
#[derive(Debug, Clone, Copy, PartialEq, Eq, Structural)]
pub enum Tone {
    DarkGray,
    White,
    Yellow,
    Red,
    Cyan,
}

/// The colour of the text of an entry of `level`.
pub open spec fn tone_of(level: LogLevel) -> Tone {
    match level {
        LogLevel::Debug => Tone::DarkGray,
        LogLevel::Info => Tone::White,
        LogLevel::Warn => Tone::Yellow,
        LogLevel::Error => Tone::Red,
    }
}

/// The colour of the signs behind the rows.
pub const SIGN_TONE: Tone = Tone::Cyan;

/// The colour in which the text of an entry of `level` is drawn.
pub fn level_tone(level: LogLevel) -> (tone: Tone)
    ensures
        tone == tone_of(level),
{
    match level {
        LogLevel::Debug => Tone::DarkGray,
        LogLevel::Info => Tone::White,
        LogLevel::Warn => Tone::Yellow,
        LogLevel::Error => Tone::Red,
    }
}

/// One row of the log pane.
#[derive(Debug, Clone)]
pub struct LogRow {
    pub text: String,
    pub level: LogLevel,
    pub marker: Marker,
}

/// What a `LogRow` holds, as plain values.
pub struct RowView {
    pub text: Seq<char>,
    pub level: LogLevel,
    pub marker: Marker,
}

impl View for LogRow {
    type V = RowView;

    open spec fn view(&self) -> RowView {
        RowView { text: self.text@, level: self.level, marker: self.marker }
    }
}

/// The views of a sequence of rows, in order.
pub open spec fn row_views(rows: Seq<LogRow>) -> Seq<RowView> {
    Seq::new(rows.len(), |i: int| rows[i]@)
}

/// What is left of `line` when the pane is scrolled `offset` characters to
/// the right.
pub open spec fn scrolled(line: Seq<char>, offset: usize) -> Seq<char> {
    if offset <= line.len() {
        line.skip(offset as int)
    } else {
        Seq::empty()
    }
}

/// The rows of one entry: its first line alone when collapsed, with a sign if
/// it hides lines; all its lines when expanded, with a sign on the first if
/// there are more.
pub open spec fn entry_rows(e: EntryView, is_expanded: bool, offset: usize) -> Seq<RowView> {
    if is_expanded {
        Seq::new(
            e.lines.len(),
            |j: int|
                RowView {
                    text: scrolled(e.lines[j], offset),
                    level: e.level,
                    marker: if j == 0 && e.lines.len() > 1 {
                        Marker::Expanded
                    } else {
                        Marker::Plain
                    },
                },
        )
    } else {
        seq![
            RowView {
                text: scrolled(e.lines[0], offset),
                level: e.level,
                marker: if e.lines.len() > 1 {
                    Marker::Collapsed
                } else {
                    Marker::Plain
                },
            },
        ]
    }
}

/// The rows of the log pane: those of each entry, in order.
pub open spec fn log_rows(entries: Seq<EntryView>, expanded: Set<usize>, offset: usize) -> Seq<
    RowView,
>
    decreases entries.len(),
{
    if entries.len() == 0 {
        Seq::empty()
    } else {
        log_rows(entries.drop_last(), expanded, offset) + entry_rows(
            entries.last(),
            expanded.contains((entries.len() - 1) as usize),
            offset,
        )
    }
}

/// The log pane has one row for each visible line.
pub proof fn lemma_rows_are_visible_lines(
    entries: Seq<EntryView>,
    expanded: Set<usize>,
    offset: usize,
)
    ensures
        log_rows(entries, expanded, offset).len() == total_visible(entries, expanded),
    decreases entries.len(),
{
    if entries.len() > 0 {
        lemma_rows_are_visible_lines(entries.drop_last(), expanded, offset);
    }
}

/// The row at a visible line shows the entry that owns the line: the entry's
/// first line where it is collapsed, and otherwise the line that stands as
/// far into the entry as the visible line stands behind the entry's first.
pub proof fn lemma_row_of_visible_line(
    entries: Seq<EntryView>,
    expanded: Set<usize>,
    offset: usize,
    index: int,
    line: int,
)
    requires
        owns(entries, expanded, index, line),
    ensures
        0 <= line < log_rows(entries, expanded, offset).len(),
        log_rows(entries, expanded, offset)[line] == entry_rows(
            entries[index],
            expanded.contains(index as usize),
            offset,
        )[line - first_line_of(entries, expanded, index)],
        log_rows(entries, expanded, offset)[line].level == entries[index].level,
        !expanded.contains(index as usize) ==> log_rows(entries, expanded, offset)[line].text
            == scrolled(entries[index].lines[0], offset),
        expanded.contains(index as usize) ==> log_rows(entries, expanded, offset)[line].text
            == scrolled(
            entries[index].lines[line - first_line_of(entries, expanded, index)],
            offset,
        ),
    decreases entries.len(),
{
    let n = entries.len() as int;
    let rest = entries.drop_last();
    lemma_rows_are_visible_lines(rest, expanded, offset);
    lemma_rows_are_visible_lines(entries, expanded, offset);
    assert(entries.take(n) == entries);
    if index != n - 1 {
        assert(rest.take(index) == entries.take(index));
        assert(rest.take(index + 1) == entries.take(index + 1));
        lemma_row_of_visible_line(rest, expanded, offset, index, line);
    }
}

/// The text of `line` from character `offset` on.
pub fn scrolled_text(line: &String, offset: usize) -> (text: String)
    ensures
        text@ == scrolled(line@, offset),
{
    let s = line.as_str();
    let len = s.unicode_len();
    if offset == 0 {
        line.clone()
    } else if offset < len {
        let rest = s.substring_char(offset, len);
        rest.to_owned()
    } else {
        String::new()
    }
}

/// One row of the file list.
#[derive(Debug, Clone)]
pub struct FileRow {
    pub name: String,
    /// Set on the selected file while the log pane has the focus, so that the
    /// open file stays recognisable.
    pub emphasized: bool,
}

/// What a `FileRow` holds, as plain values.
pub struct FileRowView {
    pub name: Seq<char>,
    pub emphasized: bool,
}

impl View for FileRow {
    type V = FileRowView;

    open spec fn view(&self) -> FileRowView {
        FileRowView { name: self.name@, emphasized: self.emphasized }
    }
}

/// The views of a sequence of file rows, in order.
pub open spec fn file_row_views(rows: Seq<FileRow>) -> Seq<FileRowView> {
    Seq::new(rows.len(), |i: int| rows[i]@)
}

/// The rows of the file list: one for each name.
pub open spec fn file_rows(names: Seq<Seq<char>>, selected: Option<usize>, focused: bool) -> Seq<
    FileRowView,
> {
    Seq::new(
        names.len(),
        |i: int| FileRowView { name: names[i], emphasized: !focused && selected == Some(i as usize) },
    )
}

/// Both panes, ready to be painted. The pane that has the focus is the one
/// whose selected row is highlighted.
#[derive(Debug, Clone)]
pub struct Frame {
    pub file_rows: Vec<FileRow>,
    pub file_selected: Option<usize>,
    pub files_focused: bool,
    pub log_rows: Vec<LogRow>,
    pub log_selected: Option<usize>,
}

/// What a `Frame` holds, as plain values.
pub struct FrameView {
    pub file_rows: Seq<FileRowView>,
    pub file_selected: Option<usize>,
    pub files_focused: bool,
    pub log_rows: Seq<RowView>,
    pub log_selected: Option<usize>,
}

impl View for Frame {
    type V = FrameView;

    open spec fn view(&self) -> FrameView {
        FrameView {
            file_rows: file_row_views(self.file_rows@),
            file_selected: self.file_selected,
            files_focused: self.files_focused,
            log_rows: row_views(self.log_rows@),
            log_selected: self.log_selected,
        }
    }
}

/// Builds the rows of the file list.
pub fn build_file_rows(names: &Vec<String>, selected: Option<usize>, focused: bool) -> (rows: Vec<
    FileRow,
>)
    ensures
        file_row_views(rows@) == file_rows(string_views(names@), selected, focused),
{
    let mut rows: Vec<FileRow> = Vec::new();
    let mut i: usize = 0;
    while i < names.len()
        invariant
            i <= names.len(),
            rows.len() == i,
            forall|k: int|
                0 <= k < i ==> (#[trigger] rows@[k])@ == (FileRowView {
                    name: names@[k]@,
                    emphasized: !focused && selected == Some(k as usize),
                }),
        decreases names.len() - i,
    {
        let emphasized = !focused && match selected {
            Some(row) => row == i,
            None => false,
        };
        rows.push(FileRow { name: names[i].clone(), emphasized });
        i = i + 1;
    }
    rows
}

/// Adds the rows of `entry` to `rows`.
fn push_entry_rows(rows: &mut Vec<LogRow>, entry: &LogEntry, is_expanded: bool, offset: usize)
    requires
        entry.lines.len() >= 1,
    ensures
        row_views(final(rows)@) == row_views(old(rows)@) + entry_rows(entry@, is_expanded, offset),
{
    let ghost start = row_views(rows@);
    let ghost added = entry_rows(entry@, is_expanded, offset);
    let many = entry.lines.len() > 1;
    if is_expanded {
        let mut j: usize = 0;
        while j < entry.lines.len()
            invariant
                j <= entry.lines.len(),
                is_expanded,
                many == (entry.lines.len() > 1),
                added == entry_rows(entry@, is_expanded, offset),
                row_views(rows@) == start + added.take(j as int),
            decreases entry.lines.len() - j,
        {
            let ghost so_far = row_views(rows@);
            let row = LogRow {
                text: scrolled_text(&entry.lines[j], offset),
                level: entry.level,
                marker: if j == 0 && many {
                    Marker::Expanded
                } else {
                    Marker::Plain
                },
            };
            rows.push(row);
            proof {
                assert(row_views(rows@) == so_far.push(row@));
            }
            j = j + 1;
        }
    } else {
        let row = LogRow {
            text: scrolled_text(&entry.lines[0], offset),
            level: entry.level,
            marker: if many {
                Marker::Collapsed
            } else {
                Marker::Plain
            },
        };
        rows.push(row);
    }
}

/// Builds the rows of the log pane.
pub fn build_log_rows(entries: &Vec<LogEntry>, expanded: &HashSet<usize>, offset: usize) -> (rows:
    Vec<LogRow>)
    requires
        all_nonempty(entry_views(entries@)),
    ensures
        row_views(rows@) == log_rows(entry_views(entries@), expanded@, offset),
        rows.len() == total_visible(entry_views(entries@), expanded@),
{
    let ghost views = entry_views(entries@);
    let mut rows: Vec<LogRow> = Vec::new();
    let mut i: usize = 0;
    while i < entries.len()
        invariant
            i <= entries.len(),
            views == entry_views(entries@),
            all_nonempty(views),
            row_views(rows@) == log_rows(views.take(i as int), expanded@, offset),
        decreases entries.len() - i,
    {
        let is_expanded = expanded.contains(&i);
        proof {
            assert(views.take(i + 1).drop_last() == views.take(i as int));
            assert(views[i as int].lines.len() >= 1);
        }
        push_entry_rows(&mut rows, &entries[i], is_expanded, offset);
        i = i + 1;
    }
    proof {
        assert(views.take(views.len() as int) == views);
        lemma_rows_are_visible_lines(views, expanded@, offset);
    }
    rows
}

} // verus!
