//! The view state of the two panes, and what a front end needs to show it.

use crate::frame::{
    build_file_rows, build_log_rows, file_rows, log_rows, Frame, FrameView,
};
use crate::log_parser::{all_nonempty, entry_views, EntryView, LogEntry};
use crate::text::string_views;
use std::collections::HashSet;
use vstd::prelude::*;
use vstd::std_specs::hash::*;

verus! {

broadcast use vstd::std_specs::hash::group_hash_axioms;

/// How far one scroll step moves the log pane, in characters.
pub const SCROLL_STEP: usize = 4;

/// What the user asked for.
#[derive(Debug, Clone, Copy, PartialEq, Eq, Structural)]
pub enum UIEvent {
    Quit,
    Up,
    Down,
    Left,
    Right,
    ToggleExpand,
    ToggleTail,
    ScrollLeft,
    ScrollRight,
    SwitchToFileList,
    SwitchToLogView,
}

/// A key press, as the front end read it.
#[derive(Debug, Clone, Copy, PartialEq, Eq, Structural)]
pub enum Key {
    Char(char),
    Esc,
    Enter,
    Up,
    Down,
    Left,
    Right,
    Other,
}

/// The event that a key stands for, if it stands for one.
pub open spec fn event_of(key: Key) -> Option<UIEvent> {
    match key {
        Key::Char(c) => if c == 'q' {
            Some(UIEvent::Quit)
        } else if c == ' ' {
            Some(UIEvent::ToggleExpand)
        } else if c == 't' {
            Some(UIEvent::ToggleTail)
        } else if c == 'h' {
            Some(UIEvent::ScrollLeft)
        } else if c == 'l' {
            Some(UIEvent::ScrollRight)
        } else {
            None
        },
        Key::Esc => Some(UIEvent::SwitchToFileList),
        Key::Enter => Some(UIEvent::SwitchToLogView),
        Key::Up => Some(UIEvent::Up),
        Key::Down => Some(UIEvent::Down),
        Key::Left => Some(UIEvent::Left),
        Key::Right => Some(UIEvent::Right),
        Key::Other => None,
    }
}

/// The cursor of one list: the selected row, if any.
#[derive(Debug, Clone, Copy, PartialEq, Eq, Structural)]
pub struct ListState {
    pub selection: Option<usize>,
}

impl ListState {
    pub fn new() -> (state: Self)
        ensures
            state.selection is None,
    {
        ListState { selection: None }
    }

    pub fn selected(&self) -> (index: Option<usize>)
        ensures
            index == self.selection,
    {
        self.selection
    }

    pub fn select(&mut self, index: Option<usize>)
        ensures
            final(self).selection == index,
    {
        self.selection = index;
    }
}

/// The view state of the two panes.
pub struct UI {
    pub file_list_state: ListState,
    pub log_list_state: ListState,
    pub expanded_entries: HashSet<usize>,
    pub log_scroll_offset: usize,
}

/// What a `UI` holds, as plain values.
pub struct UIView {
    pub file_selected: Option<usize>,
    pub log_selected: Option<usize>,
    pub expanded: Set<usize>,
    pub scroll: usize,
}

impl View for UI {
    type V = UIView;

    open spec fn view(&self) -> UIView {
        UIView {
            file_selected: self.file_list_state.selection,
            log_selected: self.log_list_state.selection,
            expanded: self.expanded_entries@,
            scroll: self.log_scroll_offset,
        }
    }
}

/// `expanded` with the membership of `index` flipped.
pub open spec fn toggled(expanded: Set<usize>, index: usize) -> Set<usize> {
    if expanded.contains(index) {
        expanded.remove(index)
    } else {
        expanded.insert(index)
    }
}

/// The offset after one step to the left: it stops at zero.
pub open spec fn scrolled_left(offset: usize) -> usize {
    if offset >= SCROLL_STEP {
        (offset - SCROLL_STEP) as usize
    } else {
        0
    }
}

/// The offset after one step to the right. Only the width of `usize` bounds it.
pub open spec fn scrolled_right(offset: usize) -> usize {
    if offset + SCROLL_STEP <= usize::MAX {
        (offset + SCROLL_STEP) as usize
    } else {
        usize::MAX
    }
}

/// The offset after `times` steps to the left.
pub open spec fn scrolled_left_times(offset: usize, times: nat) -> usize
    decreases times,
{
    if times == 0 {
        offset
    } else {
        scrolled_left(scrolled_left_times(offset, (times - 1) as nat))
    }
}

/// Scrolling left never leaves the first column: from offset zero, any number
/// of steps to the left ends at offset zero. From anywhere, a step to the
/// left does not increase the offset.
pub proof fn lemma_scroll_left_stops_at_zero(offset: usize, times: nat)
    ensures
        scrolled_left_times(0, times) == 0,
        scrolled_left(offset) <= offset,
        scrolled_left_times(offset, times) <= offset,
    decreases times,
{
    if times > 0 {
        lemma_scroll_left_stops_at_zero(offset, (times - 1) as nat);
    }
}

/// A step to the right never decreases the offset, and increases it by the
/// step wherever the result fits a `usize`; so it increases from every offset
/// but the largest.
pub proof fn lemma_scroll_right_increases(offset: usize)
    ensures
        scrolled_right(offset) >= offset,
        offset + SCROLL_STEP <= usize::MAX ==> scrolled_right(offset) == offset + SCROLL_STEP,
        scrolled_right(offset) > offset <==> offset < usize::MAX,
{
}

/// What the panes show for the view state `ui`, the file names `names` and
/// the entries `entries`.
pub open spec fn frame_of(
    ui: UIView,
    names: Seq<Seq<char>>,
    entries: Seq<EntryView>,
    files_focused: bool,
) -> FrameView {
    FrameView {
        file_rows: file_rows(names, ui.file_selected, files_focused),
        file_selected: ui.file_selected,
        files_focused,
        log_rows: log_rows(entries, ui.expanded, ui.scroll),
        log_selected: ui.log_selected,
    }
}

impl UI {
    /// Nothing selected, nothing expanded, not scrolled.
    pub fn new() -> (ui: Self)
        ensures
            ui@ == (UIView {
                file_selected: None,
                log_selected: None,
                expanded: Set::empty(),
                scroll: 0,
            }),
    {
        UI {
            file_list_state: ListState::new(),
            log_list_state: ListState::new(),
            expanded_entries: HashSet::new(),
            log_scroll_offset: 0,
        }
    }

    /// Decodes a key press into the event it stands for.
    pub fn handle_events(&self, key: Key) -> (event: Option<UIEvent>)
        ensures
            event == event_of(key),
    {
        match key {
            Key::Char(c) => {
                if c == 'q' {
                    Some(UIEvent::Quit)
                } else if c == ' ' {
                    Some(UIEvent::ToggleExpand)
                } else if c == 't' {
                    Some(UIEvent::ToggleTail)
                } else if c == 'h' {
                    Some(UIEvent::ScrollLeft)
                } else if c == 'l' {
                    Some(UIEvent::ScrollRight)
                } else {
                    None
                }
            },
            Key::Esc => Some(UIEvent::SwitchToFileList),
            Key::Enter => Some(UIEvent::SwitchToLogView),
            Key::Up => Some(UIEvent::Up),
            Key::Down => Some(UIEvent::Down),
            Key::Left => Some(UIEvent::Left),
            Key::Right => Some(UIEvent::Right),
            Key::Other => None,
        }
    }

    /// Lays out both panes: a row for each file name, and a row for each
    /// visible line of the log, cut at the scroll offset.
    pub fn draw(
        &self,
        files: &Vec<String>,
        log_entries: &Vec<LogEntry>,
        is_file_list_focused: bool,
    ) -> (frame: Frame)
        requires
            all_nonempty(entry_views(log_entries@)),
        ensures
            frame@ == frame_of(
                self@,
                string_views(files@),
                entry_views(log_entries@),
                is_file_list_focused,
            ),
    {
        let selected = self.file_list_state.selected();
        Frame {
            file_rows: build_file_rows(files, selected, is_file_list_focused),
            file_selected: selected,
            files_focused: is_file_list_focused,
            log_rows: build_log_rows(log_entries, &self.expanded_entries, self.log_scroll_offset),
            log_selected: self.log_list_state.selected(),
        }
    }

    /// Flips whether the entry `index` is shown with all its lines.
    pub fn toggle_expand(&mut self, index: usize)
        ensures
            final(self)@ == (UIView { expanded: toggled(old(self)@.expanded, index), ..old(self)@ }),
    {
        if self.expanded_entries.contains(&index) {
            self.expanded_entries.remove(&index);
        } else {
            self.expanded_entries.insert(index);
        }
    }

    /// Collapses every entry.
    pub fn clear_expanded_entries(&mut self)
        ensures
            final(self)@ == (UIView { expanded: Set::empty(), ..old(self)@ }),
    {
        self.expanded_entries.clear();
    }

    /// Scrolls the log pane one step to the left, stopping at the first column.
    pub fn scroll_log_left(&mut self)
        ensures
            final(self)@ == (UIView { scroll: scrolled_left(old(self)@.scroll), ..old(self)@ }),
    {
        if self.log_scroll_offset >= SCROLL_STEP {
            self.log_scroll_offset = self.log_scroll_offset - SCROLL_STEP;
        } else {
            self.log_scroll_offset = 0;
        }
    }

    /// Scrolls the log pane one step to the right.
    pub fn scroll_log_right(&mut self)
        ensures
            final(self)@ == (UIView { scroll: scrolled_right(old(self)@.scroll), ..old(self)@ }),
    {
        if self.log_scroll_offset <= usize::MAX - SCROLL_STEP {
            self.log_scroll_offset = self.log_scroll_offset + SCROLL_STEP;
        } else {
            self.log_scroll_offset = usize::MAX;
        }
    }

    /// Scrolls the log pane back to the first column.
    pub fn reset_scroll(&mut self)
        ensures
            final(self)@ == (UIView { scroll: 0, ..old(self)@ }),
    {
        self.log_scroll_offset = 0;
    }

    /// Whether the log pane shows the first column.
    pub fn is_at_beginning(&self) -> (at_start: bool)
        ensures
            at_start == (self@.scroll == 0),
    {
        self.log_scroll_offset == 0
    }
}

} // verus!
