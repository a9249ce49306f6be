//! The navigation state as plain values, and its transitions.
//!
//! Everything the viewer does to its state is written here as a function from
//! the state before to the state after, so that the rules can be read, and
//! reasoned about, apart from the code that carries them out.

use crate::log_parser::{all_lines, all_nonempty, lemma_all_lines_concat, EntryView};
use crate::ui::{event_of, scrolled_left, scrolled_right, toggled, Key, UIEvent, UIView};
use crate::visible::{
    lemma_owner_exists, lemma_total_visible_bounds, lemma_total_visible_collapsed,
    lemma_total_visible_concat, lemma_total_visible_grows, owns, total_visible,
};
use vstd::prelude::*;

verus! {

/// What the viewer holds, as plain values.
pub struct ViewerState {
    /// The files that can be opened, by path.
    pub files: Seq<Seq<char>>,
    /// The path of the file whose entries are shown.
    pub current_file: Option<Seq<char>>,
    /// The entries of that file.
    pub entries: Seq<EntryView>,
    /// Selections, expanded entries and scroll offset.
    pub ui: UIView,
    /// Whether the selection follows the end of the log.
    pub tailing: bool,
    /// Whether the file list has the focus, rather than the log pane.
    pub file_focus: bool,
    /// The length of the current file when it was last read, in bytes.
    pub last_size: u64,
}

/// The selections point at rows that exist, only entries that exist are
/// expanded, every entry holds a line, and the lines can be counted.
pub open spec fn valid(s: ViewerState) -> bool {
    &&& s.ui.file_selected matches Some(f) ==> f < s.files.len()
    &&& s.ui.log_selected matches Some(l) ==> l < total_visible(s.entries, s.ui.expanded)
    &&& forall|i: usize| s.ui.expanded.contains(i) ==> i < s.entries.len()
    &&& all_nonempty(s.entries)
    &&& all_lines(s.entries).len() <= usize::MAX
}

/// The state of a viewer that was just made for `files`.
pub open spec fn initial(files: Seq<Seq<char>>) -> ViewerState {
    ViewerState {
        files,
        current_file: None,
        entries: Seq::empty(),
        ui: UIView { file_selected: None, log_selected: None, expanded: Set::empty(), scroll: 0 },
        tailing: true,
        file_focus: true,
        last_size: 0,
    }
}

/// The last row of a list of `count` rows, if it has one.
pub open spec fn last_row(count: nat) -> Option<usize> {
    if count > 0 {
        Some((count - 1) as usize)
    } else {
        None
    }
}

/// The row that a move from `selected` lands on in a list of `count` rows:
/// one up or one down, staying at the first and at the last row.
pub open spec fn stepped(selected: usize, up: bool, count: nat) -> usize {
    if up {
        if selected > 0 {
            (selected - 1) as usize
        } else {
            selected
        }
    } else {
        if selected + 1 < count {
            (selected + 1) as usize
        } else {
            selected
        }
    }
}

/// The state with the first file selected, if there is a file.
pub open spec fn first_file_selected(s: ViewerState) -> ViewerState {
    if s.files.len() > 0 {
        ViewerState { ui: UIView { file_selected: Some(0), ..s.ui }, ..s }
    } else {
        s
    }
}

/// The state after the content of `file` was read: its entries replace the
/// old ones, nothing is expanded or scrolled, the last entry is selected and
/// the selection follows the end of the log.
pub open spec fn loaded(
    s: ViewerState,
    file: Seq<char>,
    entries: Seq<EntryView>,
    size: u64,
) -> ViewerState {
    ViewerState {
        current_file: Some(file),
        entries,
        ui: UIView {
            log_selected: last_row(entries.len()),
            expanded: Set::empty(),
            scroll: 0,
            ..s.ui
        },
        tailing: true,
        last_size: size,
        ..s
    }
}

/// The file that a move in the file list asks to open: the row it lands on,
/// when that is another row than before.
pub open spec fn file_to_open(s: ViewerState, up: bool) -> Option<usize> {
    match s.ui.file_selected {
        Some(f) => {
            let target = stepped(f, up, s.files.len());
            if target != f {
                Some(target)
            } else {
                None
            }
        },
        None => None,
    }
}

/// The state after a move in the file list.
pub open spec fn file_moved(s: ViewerState, up: bool) -> ViewerState {
    match file_to_open(s, up) {
        Some(target) => ViewerState { ui: UIView { file_selected: Some(target), ..s.ui }, ..s },
        None => s,
    }
}

/// The state after a move in the log pane. A move that lands on another line
/// also settles whether the selection follows the end of the log: it does
/// exactly when the move lands on the last visible line.
pub open spec fn log_moved(s: ViewerState, up: bool) -> ViewerState {
    match s.ui.log_selected {
        Some(l) => {
            let total = total_visible(s.entries, s.ui.expanded);
            let target = stepped(l, up, total);
            if target != l {
                ViewerState {
                    ui: UIView { log_selected: Some(target), ..s.ui },
                    tailing: target + 1 == total,
                    ..s
                }
            } else {
                s
            }
        },
        None => s,
    }
}

/// The entry that shows the visible line `line`.
pub open spec fn owner_of(entries: Seq<EntryView>, expanded: Set<usize>, line: int) -> int {
    choose|index: int| owns(entries, expanded, index, line)
}

/// `selected`, or the last of `count` rows where `selected` lies beyond it.
pub open spec fn kept_within(selected: usize, count: nat) -> usize {
    if selected < count {
        selected
    } else {
        (count - 1) as usize
    }
}

/// The state after the entry under the selection was expanded or collapsed.
/// Nothing changes without a selection, nor while the file list has the
/// focus. A selection that the collapsed entry leaves beyond the last visible
/// line moves to that line.
pub open spec fn expand_toggled(s: ViewerState) -> ViewerState {
    match s.ui.log_selected {
        Some(l) => if s.file_focus {
            s
        } else {
            let index = owner_of(s.entries, s.ui.expanded, l as int) as usize;
            let expanded = toggled(s.ui.expanded, index);
            let total = total_visible(s.entries, expanded);
            ViewerState {
                ui: UIView { log_selected: Some(kept_within(l, total)), expanded, ..s.ui },
                ..s
            }
        },
        None => s,
    }
}

/// The state after tail mode was switched: on becomes off and off becomes
/// on, and switching it on selects the last visible line, if there is one.
pub open spec fn tail_toggled(s: ViewerState) -> ViewerState {
    let tailing = !s.tailing;
    ViewerState {
        ui: if tailing && s.entries.len() > 0 {
            UIView { log_selected: last_row(total_visible(s.entries, s.ui.expanded)), ..s.ui }
        } else {
            s.ui
        },
        tailing,
        ..s
    }
}

/// The state after the log pane was scrolled one step.
pub open spec fn scrolled_by_step(s: ViewerState, left: bool) -> ViewerState {
    ViewerState {
        ui: UIView {
            scroll: if left {
                scrolled_left(s.ui.scroll)
            } else {
                scrolled_right(s.ui.scroll)
            },
            ..s.ui
        },
        ..s
    }
}

/// The state with the focus on the file list, or on the log pane.
pub open spec fn focused(s: ViewerState, file_list: bool) -> ViewerState {
    ViewerState { file_focus: file_list, ..s }
}

/// The state after `more` entries were read from the end of the file, which
/// is now `size` bytes long: they follow the old ones, and where the
/// selection follows the end of the log it moves to the last visible line.
pub open spec fn grown(s: ViewerState, more: Seq<EntryView>, size: u64) -> ViewerState {
    let entries = s.entries + more;
    ViewerState {
        entries,
        ui: if s.tailing && entries.len() > 0 {
            UIView { log_selected: last_row(total_visible(entries, s.ui.expanded)), ..s.ui }
        } else {
            s.ui
        },
        last_size: size,
        ..s
    }
}

/// Where to read from when the current file is now `size` bytes long: from
/// the length it had when it was last read, if it has grown since. A file
/// that kept its length, or lost some, gives nothing to read, and neither
/// does a viewer that has no file open.
pub open spec fn growth_from(s: ViewerState, size: u64) -> Option<u64> {
    if s.current_file is Some && size > s.last_size {
        Some(s.last_size)
    } else {
        None
    }
}

/// Whether `more` lines can be counted together with those that the viewer
/// holds.
pub open spec fn has_room(s: ViewerState, more: nat) -> bool {
    all_lines(s.entries).len() + more <= usize::MAX
}

/// The state after an event.
pub open spec fn navigated(s: ViewerState, event: UIEvent) -> ViewerState {
    match event {
        UIEvent::Up => if s.file_focus {
            file_moved(s, true)
        } else {
            log_moved(s, true)
        },
        UIEvent::Down => if s.file_focus {
            file_moved(s, false)
        } else {
            log_moved(s, false)
        },
        UIEvent::Left => if s.file_focus {
            s
        } else if s.ui.scroll == 0 {
            focused(s, true)
        } else {
            scrolled_by_step(s, true)
        },
        UIEvent::Right => if s.file_focus {
            focused(s, false)
        } else {
            scrolled_by_step(s, false)
        },
        UIEvent::SwitchToFileList => focused(s, true),
        UIEvent::SwitchToLogView => focused(s, false),
        UIEvent::ToggleExpand => expand_toggled(s),
        UIEvent::ToggleTail => if s.file_focus {
            s
        } else {
            tail_toggled(s)
        },
        UIEvent::ScrollLeft => if s.file_focus {
            s
        } else {
            scrolled_by_step(s, true)
        },
        UIEvent::ScrollRight => if s.file_focus {
            s
        } else {
            scrolled_by_step(s, false)
        },
        UIEvent::Quit => s,
    }
}

/// The file that an event asks to open, if it asks for one: only a move in
/// the file list that lands on another row does.
pub open spec fn requested_file(s: ViewerState, event: UIEvent) -> Option<usize> {
    if s.file_focus && event == UIEvent::Up {
        file_to_open(s, true)
    } else if s.file_focus && event == UIEvent::Down {
        file_to_open(s, false)
    } else {
        None
    }
}

/// What the front end is to do after a key press.
#[derive(Debug, Clone, Copy, PartialEq, Eq, Structural)]
pub enum Action {
    /// Nothing but to go on.
    Continue,
    /// Read the file in this row of the file list, and hand it to the viewer.
    Open(usize),
    /// Leave.
    Quit,
}

/// The state after a key press: that after the event the key stands for, and
/// the same state where it stands for none.
pub open spec fn after_key(s: ViewerState, key: Key) -> ViewerState {
    match event_of(key) {
        Some(event) => navigated(s, event),
        None => s,
    }
}

/// What a key press asks of the front end.
pub open spec fn action_of(s: ViewerState, key: Key) -> Action {
    match event_of(key) {
        Some(event) => if event == UIEvent::Quit {
            Action::Quit
        } else {
            match requested_file(s, event) {
                Some(row) => Action::Open(row),
                None => Action::Continue,
            }
        },
        None => Action::Continue,
    }
}

/// A viewer that was just made is in a valid state.
pub proof fn lemma_initial_valid(files: Seq<Seq<char>>)
    ensures
        valid(initial(files)),
        valid(first_file_selected(initial(files))),
{
}

/// Reading a file leaves a valid state.
pub proof fn lemma_loaded_valid(s: ViewerState, file: Seq<char>, entries: Seq<EntryView>, size: u64)
    requires
        valid(s),
        all_nonempty(entries),
        all_lines(entries).len() <= usize::MAX,
    ensures
        valid(loaded(s, file, entries, size)),
{
    lemma_total_visible_collapsed(entries);
}

/// Opening a file starts the log pane afresh, whatever was shown before:
/// nothing is expanded, the pane is not scrolled, the selection follows the
/// end of the log, and the last entry is selected, which is also the last
/// visible line; where the file holds no entry, nothing is selected.
pub proof fn lemma_file_switch_resets(
    s: ViewerState,
    file: Seq<char>,
    entries: Seq<EntryView>,
    size: u64,
)
    requires
        entries.len() <= usize::MAX,
    ensures
        loaded(s, file, entries, size).ui.expanded == Set::<usize>::empty(),
        loaded(s, file, entries, size).ui.scroll == 0,
        loaded(s, file, entries, size).tailing,
        loaded(s, file, entries, size).ui.log_selected == last_row(entries.len()),
        loaded(s, file, entries, size).ui.log_selected == last_row(
            total_visible(entries, loaded(s, file, entries, size).ui.expanded),
        ),
        tail_agrees(loaded(s, file, entries, size)),
{
    lemma_total_visible_collapsed(entries);
}

/// Tail mode agrees with the selection of the log pane: where a line is
/// selected, the selection follows the end of the log exactly when that line
/// is the last visible one.
pub open spec fn tail_agrees(s: ViewerState) -> bool {
    s.ui.log_selected matches Some(l) ==> (s.tailing <==> l + 1 == total_visible(
        s.entries,
        s.ui.expanded,
    ))
}

/// The state after a sequence of moves in the log pane, `true` for up.
pub open spec fn after_moves(s: ViewerState, moves: Seq<bool>) -> ViewerState
    decreases moves.len(),
{
    if moves.len() == 0 {
        s
    } else {
        log_moved(after_moves(s, moves.drop_last()), moves.last())
    }
}

/// A move that lands on another line leaves tail mode in agreement with the
/// selection: on exactly when the move lands on the last visible line.
pub proof fn lemma_move_settles_tail(s: ViewerState, up: bool)
    requires
        valid(s),
        log_moved(s, up).ui.log_selected != s.ui.log_selected,
    ensures
        tail_agrees(log_moved(s, up)),
        log_moved(s, up).tailing <==> log_moved(s, up).ui.log_selected == last_row(
            total_visible(s.entries, s.ui.expanded),
        ),
{
    lemma_total_visible_bounds(s.entries, s.ui.expanded);
}

/// From a state in which tail mode agrees with the selection, it agrees
/// after any sequence of moves.
pub proof fn lemma_moves_keep_tail(s: ViewerState, moves: Seq<bool>)
    requires
        valid(s),
        tail_agrees(s),
    ensures
        valid(after_moves(s, moves)),
        tail_agrees(after_moves(s, moves)),
    decreases moves.len(),
{
    if moves.len() > 0 {
        lemma_moves_keep_tail(s, moves.drop_last());
        lemma_moved_valid(after_moves(s, moves.drop_last()), moves.last());
    }
}

/// Switching tail mode turns it into the opposite of what it was, wherever
/// the selection stands; switched on, it selects the last visible line of a
/// log that has entries, so that it agrees with the selection again.
pub proof fn lemma_tail_toggle_flips(s: ViewerState)
    requires
        valid(s),
    ensures
        tail_toggled(s).tailing == !s.tailing,
        tail_toggled(s).tailing && s.entries.len() > 0 ==> tail_toggled(s).ui.log_selected
            == last_row(total_visible(s.entries, s.ui.expanded)) && tail_agrees(tail_toggled(s)),
        !tail_toggled(s).tailing ==> tail_toggled(s).ui == s.ui,
{
    lemma_total_visible_bounds(s.entries, s.ui.expanded);
}

/// Entries read from the end of the file keep tail mode in agreement with the
/// selection.
pub proof fn lemma_grown_keeps_tail(s: ViewerState, more: Seq<EntryView>, size: u64)
    requires
        valid(s),
        tail_agrees(s),
        all_nonempty(more),
        all_lines(s.entries).len() + all_lines(more).len() <= usize::MAX,
    ensures
        tail_agrees(grown(s, more, size)),
{
    lemma_grown_valid(s, more, size);
    let entries = s.entries + more;
    lemma_total_visible_concat(s.entries, more, s.ui.expanded);
    lemma_total_visible_bounds(entries, s.ui.expanded);
    if more.len() > 0 {
        lemma_total_visible_grows(s.entries, more, s.ui.expanded);
    }
}

/// A move in either list leaves a valid state.
pub proof fn lemma_moved_valid(s: ViewerState, up: bool)
    requires
        valid(s),
    ensures
        valid(file_moved(s, up)),
        valid(log_moved(s, up)),
{
}

/// Expanding or collapsing the selected entry leaves a valid state.
pub proof fn lemma_expand_toggled_valid(s: ViewerState)
    requires
        valid(s),
    ensures
        valid(expand_toggled(s)),
{
    if let Some(l) = s.ui.log_selected {
        lemma_owner_exists(s.entries, s.ui.expanded, l as int);
        let index = owner_of(s.entries, s.ui.expanded, l as int);
        let expanded = toggled(s.ui.expanded, index as usize);
        lemma_total_visible_bounds(s.entries, expanded);
    }
}

/// Switching tail mode leaves a valid state.
pub proof fn lemma_tail_toggled_valid(s: ViewerState)
    requires
        valid(s),
    ensures
        valid(tail_toggled(s)),
{
    lemma_total_visible_bounds(s.entries, s.ui.expanded);
}

/// Entries read from the end of the file leave a valid state, as long as the
/// lines can still be counted.
pub proof fn lemma_grown_valid(s: ViewerState, more: Seq<EntryView>, size: u64)
    requires
        valid(s),
        all_nonempty(more),
        all_lines(s.entries).len() + all_lines(more).len() <= usize::MAX,
    ensures
        valid(grown(s, more, size)),
{
    let entries = s.entries + more;
    lemma_all_lines_concat(s.entries, more);
    lemma_total_visible_concat(s.entries, more, s.ui.expanded);
    assert(all_nonempty(entries));
    lemma_total_visible_bounds(entries, s.ui.expanded);
}

/// No event changes the log: the files, the open file, what was read of it
/// and its entries stay as they are.
pub proof fn lemma_navigation_keeps_log(s: ViewerState, event: UIEvent)
    ensures
        navigated(s, event).files == s.files,
        navigated(s, event).current_file == s.current_file,
        navigated(s, event).entries == s.entries,
        navigated(s, event).last_size == s.last_size,
{
}

/// The log only grows while a file is open: what is read from its end comes
/// behind the entries that are there, and changes none of them.
pub proof fn lemma_entries_only_grow(s: ViewerState, more: Seq<EntryView>, size: u64)
    ensures
        grown(s, more, size).entries.len() == s.entries.len() + more.len(),
        grown(s, more, size).entries.take(s.entries.len() as int) == s.entries,
        grown(s, more, size).entries.skip(s.entries.len() as int) == more,
        grown(s, more, size).ui.expanded == s.ui.expanded,
        grown(s, more, size).ui.scroll == s.ui.scroll,
        grown(s, more, size).tailing == s.tailing,
{
}

/// Whatever the event, a valid state stays valid.
pub proof fn lemma_navigated_valid(s: ViewerState, event: UIEvent)
    requires
        valid(s),
    ensures
        valid(navigated(s, event)),
{
    lemma_moved_valid(s, true);
    lemma_moved_valid(s, false);
    lemma_expand_toggled_valid(s);
    lemma_tail_toggled_valid(s);
}

} // verus!
