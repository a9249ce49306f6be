//! The viewer: the files, the entries of the open file, and the navigation
//! between them. It reads no file and draws nothing itself; it is told what
//! was read, and says what to open and what to show.

use crate::frame::Frame;
use crate::lines::lines_of;
use crate::log_parser::{entry_views, parse_text, EntryView, LogEntry, LogParser};
use crate::state::{
    action_of, after_key, expand_toggled, file_moved, file_to_open, first_file_selected, grown, growth_from, has_room,
    initial, lemma_expand_toggled_valid, lemma_grown_valid, lemma_loaded_valid,
    lemma_tail_toggled_valid, loaded, log_moved, navigated, owner_of, requested_file, tail_toggled,
    valid, Action, ViewerState,
};
use crate::text::string_views;
use crate::ui::{frame_of, toggled, Key, UIEvent, UI};
use crate::visible::{
    count_lines, entry_at, lemma_owner_unique, lemma_total_visible_bounds, total_visible,
    total_visible_lines,
};
use vstd::prelude::*;

verus! {

/// The view of an optional string.
pub open spec fn text_view(s: Option<String>) -> Option<Seq<char>> {
    match s {
        Some(s) => Some(s@),
        None => None,
    }
}

/// The files, the open file's entries, and the state of the two panes.
pub struct LogViewer {
    files: Vec<String>,
    current_file: Option<String>,
    log_entries: Vec<LogEntry>,
    ui: UI,
    parser: LogParser,
    is_tailing: bool,
    is_file_list_focused: bool,
    last_file_size: u64,
}

impl View for LogViewer {
    type V = ViewerState;

    closed spec fn view(&self) -> ViewerState {
        ViewerState {
            files: string_views(self.files@),
            current_file: text_view(self.current_file),
            entries: entry_views(self.log_entries@),
            ui: self.ui@,
            tailing: self.is_tailing,
            file_focus: self.is_file_list_focused,
            last_size: self.last_file_size,
        }
    }
}

impl LogViewer {
    /// The viewer's state is valid.
    pub open spec fn wf(&self) -> bool {
        valid(self@)
    }

    /// A viewer for `files`: nothing is open or selected, and the file list
    /// has the focus.
    pub fn new(files: Vec<String>) -> (viewer: Self)
        ensures
            viewer.wf(),
            viewer@ == initial(string_views(files@)),
    {
        let viewer = LogViewer {
            files,
            current_file: None,
            log_entries: Vec::new(),
            ui: UI::new(),
            parser: LogParser::new(),
            is_tailing: true,
            is_file_list_focused: true,
            last_file_size: 0,
        };
        assert(viewer@.entries == Seq::<EntryView>::empty());
        viewer
    }

    pub fn files(&self) -> (files: &Vec<String>)
        ensures
            string_views(files@) == self@.files,
    {
        &self.files
    }

    pub fn current_file(&self) -> (file: &Option<String>)
        ensures
            text_view(*file) == self@.current_file,
    {
        &self.current_file
    }

    pub fn log_entries(&self) -> (entries: &Vec<LogEntry>)
        ensures
            entry_views(entries@) == self@.entries,
    {
        &self.log_entries
    }

    pub fn ui(&self) -> (ui: &UI)
        ensures
            ui@ == self@.ui,
    {
        &self.ui
    }

    pub fn is_tailing(&self) -> (tailing: bool)
        ensures
            tailing == self@.tailing,
    {
        self.is_tailing
    }

    pub fn is_file_list_focused(&self) -> (focused: bool)
        ensures
            focused == self@.file_focus,
    {
        self.is_file_list_focused
    }

    pub fn last_file_size(&self) -> (size: u64)
        ensures
            size == self@.last_size,
    {
        self.last_file_size
    }

    /// Selects the first file, if there is one, and asks to open it.
    pub fn select_first_file(&mut self) -> (open: Option<usize>)
        requires
            old(self).wf(),
        ensures
            final(self).wf(),
            final(self)@ == first_file_selected(old(self)@),
            open == if old(self)@.files.len() > 0 {
                Some(0usize)
            } else {
                None
            },
    {
        if self.files.len() > 0 {
            self.ui.file_list_state.select(Some(0));
            Some(0)
        } else {
            None
        }
    }

    /// Takes in the content of `file`, which is `size` bytes long: its
    /// entries replace the old ones and the log pane starts afresh.
    pub fn load_log_file(&mut self, file: &str, content: &str, size: u64)
        requires
            old(self).wf(),
        ensures
            final(self).wf(),
            final(self)@ == loaded(old(self)@, file@, parse_text(content@), size),
    {
        let entries = self.parser.parse(content);
        proof {
            lemma_loaded_valid(self@, file@, entry_views(entries@), size);
        }
        let last = if entries.len() > 0 {
            Some(entries.len() - 1)
        } else {
            None
        };
        self.log_entries = entries;
        self.current_file = Some(file.to_owned());
        self.last_file_size = size;
        self.ui.log_list_state.select(last);
        self.ui.clear_expanded_entries();
        self.ui.reset_scroll();
        self.is_tailing = true;
    }

    /// Moves the selection of the file list one row up or down. Where it
    /// lands on another row, that row is the file to open.
    pub fn handle_file_list_navigation(&mut self, up: bool) -> (open: Option<usize>)
        requires
            old(self).wf(),
        ensures
            final(self).wf(),
            final(self)@ == file_moved(old(self)@, up),
            open == file_to_open(old(self)@, up),
    {
        match self.ui.file_list_state.selected() {
            Some(selected) => {
                let target = if up {
                    if selected > 0 {
                        selected - 1
                    } else {
                        selected
                    }
                } else {
                    if selected < self.files.len() - 1 {
                        selected + 1
                    } else {
                        selected
                    }
                };
                if target != selected {
                    self.ui.file_list_state.select(Some(target));
                    Some(target)
                } else {
                    None
                }
            },
            None => None,
        }
    }

    /// Moves the selection of the log pane one visible line up or down.
    pub fn handle_log_list_navigation(&mut self, up: bool)
        requires
            old(self).wf(),
        ensures
            final(self).wf(),
            final(self)@ == log_moved(old(self)@, up),
    {
        match self.ui.log_list_state.selected() {
            Some(selected) => {
                proof {
                    lemma_total_visible_bounds(self@.entries, self@.ui.expanded);
                }
                let total = total_visible_lines(&self.log_entries, &self.ui.expanded_entries);
                let target = if up {
                    if selected > 0 {
                        selected - 1
                    } else {
                        selected
                    }
                } else {
                    if selected < total - 1 {
                        selected + 1
                    } else {
                        selected
                    }
                };
                if target != selected {
                    self.ui.log_list_state.select(Some(target));
                    self.is_tailing = target == total - 1;
                }
            },
            None => {},
        }
    }

    /// Expands or collapses the entry under the selection of the log pane,
    /// while the log pane has the focus.
    pub fn toggle_expand(&mut self)
        requires
            old(self).wf(),
        ensures
            final(self).wf(),
            final(self)@ == expand_toggled(old(self)@),
    {
        if self.is_file_list_focused {
            return;
        }
        match self.ui.log_list_state.selected() {
            Some(selected) => {
                match entry_at(&self.log_entries, &self.ui.expanded_entries, selected) {
                    Some(index) => {
                        proof {
                            let chosen = owner_of(
                                self@.entries,
                                self@.ui.expanded,
                                selected as int,
                            );
                            lemma_owner_unique(
                                self@.entries,
                                self@.ui.expanded,
                                index as int,
                                chosen,
                                selected as int,
                            );
                            lemma_expand_toggled_valid(self@);
                            lemma_total_visible_bounds(
                                self@.entries,
                                toggled(self@.ui.expanded, index),
                            );
                        }
                        self.ui.toggle_expand(index);
                        let total = total_visible_lines(
                            &self.log_entries,
                            &self.ui.expanded_entries,
                        );
                        if selected >= total {
                            self.ui.log_list_state.select(Some(total - 1));
                        }
                    },
                    None => {},
                }
            },
            None => {},
        }
    }

    /// Switches tail mode. Switched on, it selects the last visible line.
    pub fn toggle_tail(&mut self)
        requires
            old(self).wf(),
        ensures
            final(self).wf(),
            final(self)@ == tail_toggled(old(self)@),
    {
        proof {
            lemma_tail_toggled_valid(self@);
            lemma_total_visible_bounds(self@.entries, self@.ui.expanded);
        }
        self.is_tailing = !self.is_tailing;
        if self.is_tailing && self.log_entries.len() > 0 {
            let total = total_visible_lines(&self.log_entries, &self.ui.expanded_entries);
            self.ui.log_list_state.select(Some(total - 1));
        }
    }

    /// Counts the lines that the log pane shows.
    pub fn total_visible_lines(&self) -> (total: usize)
        requires
            self.wf(),
        ensures
            total == total_visible(self@.entries, self@.ui.expanded),
    {
        proof {
            lemma_total_visible_bounds(self@.entries, self@.ui.expanded);
        }
        total_visible_lines(&self.log_entries, &self.ui.expanded_entries)
    }

    /// Carries out one key press, and says what is left for the front end to
    /// do: to open a file, to leave, or nothing.
    pub fn on_key(&mut self, key: Key) -> (action: Action)
        requires
            old(self).wf(),
        ensures
            final(self).wf(),
            final(self)@ == after_key(old(self)@, key),
            action == action_of(old(self)@, key),
    {
        match self.ui.handle_events(key) {
            Some(UIEvent::Quit) => Action::Quit,
            Some(event) => match self.handle_navigation(event) {
                Some(row) => Action::Open(row),
                None => Action::Continue,
            },
            None => Action::Continue,
        }
    }

    /// Lays out both panes for the viewer's state. `names` are the names under
    /// which the files are listed.
    pub fn draw(&self, names: &Vec<String>) -> (frame: Frame)
        requires
            self.wf(),
        ensures
            frame@ == frame_of(
                self@.ui,
                string_views(names@),
                self@.entries,
                self@.file_focus,
            ),
    {
        self.ui.draw(names, &self.log_entries, self.is_file_list_focused)
    }

    /// Says from which byte on the current file is to be read, now that it is
    /// `current_size` bytes long: `None` when it has not grown.
    pub fn check_growth(&self, current_size: u64) -> (from: Option<u64>)
        ensures
            from == growth_from(self@, current_size),
    {
        if self.current_file.is_some() && current_size > self.last_file_size {
            Some(self.last_file_size)
        } else {
            None
        }
    }

    /// Takes in what was read from the end of the current file, which is now
    /// `current_size` bytes long. Where the file has not grown nothing
    /// changes, nor where the new lines would be more than can be counted.
    pub fn handle_file_update(&mut self, current_size: u64, new_content: &str) -> (applied: bool)
        requires
            old(self).wf(),
        ensures
            final(self).wf(),
            applied == (growth_from(old(self)@, current_size) is Some && has_room(
                old(self)@,
                lines_of(new_content@).len(),
            )),
            final(self)@ == if applied {
                grown(old(self)@, parse_text(new_content@), current_size)
            } else {
                old(self)@
            },
    {
        if self.check_growth(current_size).is_none() {
            return false;
        }
        let mut more = self.parser.parse(new_content);
        let ghost added = entry_views(more@);
        let held = count_lines(&self.log_entries);
        let new = count_lines(&more);
        let fits = match (held, new) {
            (Some(a), Some(b)) => a.checked_add(b).is_some(),
            _ => false,
        };
        if !fits {
            return false;
        }
        proof {
            lemma_grown_valid(self@, added, current_size);
            lemma_total_visible_bounds(self@.entries + added, self@.ui.expanded);
        }
        let ghost before = self@.entries;
        self.log_entries.append(&mut more);
        proof {
            assert(entry_views(self.log_entries@) == before + added);
        }
        self.last_file_size = current_size;
        if self.is_tailing && self.log_entries.len() > 0 {
            let total = total_visible_lines(&self.log_entries, &self.ui.expanded_entries);
            self.ui.log_list_state.select(Some(total - 1));
        }
        true
    }

    /// Carries out one event. The result is the row of the file to open, where
    /// the event asks for one.
    pub fn handle_navigation(&mut self, event: UIEvent) -> (open: Option<usize>)
        requires
            old(self).wf(),
        ensures
            final(self).wf(),
            final(self)@ == navigated(old(self)@, event),
            open == requested_file(old(self)@, event),
    {
        match event {
            UIEvent::Up => {
                if self.is_file_list_focused {
                    return self.handle_file_list_navigation(true);
                } else {
                    self.handle_log_list_navigation(true);
                }
            },
            UIEvent::Down => {
                if self.is_file_list_focused {
                    return self.handle_file_list_navigation(false);
                } else {
                    self.handle_log_list_navigation(false);
                }
            },
            UIEvent::Left => {
                if !self.is_file_list_focused {
                    if self.ui.is_at_beginning() {
                        self.is_file_list_focused = true;
                    } else {
                        self.ui.scroll_log_left();
                    }
                }
            },
            UIEvent::Right => {
                if self.is_file_list_focused {
                    self.is_file_list_focused = false;
                } else {
                    self.ui.scroll_log_right();
                }
            },
            UIEvent::SwitchToFileList => {
                self.is_file_list_focused = true;
            },
            UIEvent::SwitchToLogView => {
                self.is_file_list_focused = false;
            },
            UIEvent::ToggleExpand => {
                self.toggle_expand();
            },
            UIEvent::ToggleTail => {
                if !self.is_file_list_focused {
                    self.toggle_tail();
                }
            },
            UIEvent::ScrollLeft => {
                if !self.is_file_list_focused {
                    self.ui.scroll_log_left();
                }
            },
            UIEvent::ScrollRight => {
                if !self.is_file_list_focused {
                    self.ui.scroll_log_right();
                }
            },
            UIEvent::Quit => {},
        }
        None
    }
}

} // verus!
