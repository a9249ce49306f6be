//! Grouping log lines into entries.
//!
//! A header line opens an entry; the lines after it, up to the next header,
//! continue it. A line that is no header and follows no open entry stands
//! alone, as an entry of its own that nothing continues.

use crate::header::{header_of, header_view, is_header, separator, Header, Separators};
pub use crate::level::LogLevel;
use crate::lines::{char_lines, lines_of};
use crate::text::{string_of, string_views, to_chars, views};
use vstd::prelude::*;

verus! {

/// One log record: a header line with its continuation lines, or a line that
/// stands alone.
#[derive(Debug, Clone)]
pub struct LogEntry {
    pub _timestamp: String,
    pub level: LogLevel,
    pub _message: String,
    pub lines: Vec<String>,
}

/// What a `LogEntry` holds, as plain sequences.
pub struct EntryView {
    pub timestamp: Seq<char>,
    pub level: LogLevel,
    pub message: Seq<char>,
    pub lines: Seq<Seq<char>>,
}

impl View for LogEntry {
    type V = EntryView;

    open spec fn view(&self) -> EntryView {
        EntryView {
            timestamp: self._timestamp@,
            level: self.level,
            message: self._message@,
            lines: string_views(self.lines@),
        }
    }
}

/// The views of a sequence of entries, in order.
pub open spec fn entry_views(v: Seq<LogEntry>) -> Seq<EntryView> {
    Seq::new(v.len(), |i: int| v[i]@)
}

/// The entry that the header line `line` opens.
pub open spec fn header_entry(line: Seq<char>) -> EntryView {
    let h = header_of(line)->0;
    EntryView { timestamp: h.timestamp, level: h.level, message: h.message, lines: seq![line] }
}

/// The entry of a line that is no header and continues nothing.
pub open spec fn lone_entry(line: Seq<char>) -> EntryView {
    EntryView {
        timestamp: Seq::empty(),
        level: LogLevel::Debug,
        message: line,
        lines: seq![line],
    }
}

/// `e` with `line` added as its last line.
pub open spec fn continued(e: EntryView, line: Seq<char>) -> EntryView {
    EntryView { lines: e.lines.push(line), ..e }
}

/// Whether `e` was opened by a header, so that later lines continue it.
pub open spec fn is_open(e: EntryView) -> bool {
    e.lines.len() > 0 && is_header(e.lines[0])
}

/// The entries after one more line.
pub open spec fn step(entries: Seq<EntryView>, line: Seq<char>) -> Seq<EntryView> {
    if is_header(line) {
        entries.push(header_entry(line))
    } else if entries.len() > 0 && is_open(entries.last()) {
        entries.drop_last().push(continued(entries.last(), line))
    } else {
        entries.push(lone_entry(line))
    }
}

/// The entries that a sequence of lines groups into.
pub open spec fn parse_lines(lines: Seq<Seq<char>>) -> Seq<EntryView>
    decreases lines.len(),
{
    if lines.len() == 0 {
        Seq::empty()
    } else {
        step(parse_lines(lines.drop_last()), lines.last())
    }
}

/// The entries of a text: those of its logical lines.
pub open spec fn parse_text(text: Seq<char>) -> Seq<EntryView> {
    parse_lines(lines_of(text))
}

/// The lines of all entries, one after another.
pub open spec fn all_lines(entries: Seq<EntryView>) -> Seq<Seq<char>>
    decreases entries.len(),
{
    if entries.len() == 0 {
        Seq::empty()
    } else {
        all_lines(entries.drop_last()) + entries.last().lines
    }
}

/// Every entry holds at least one line.
pub open spec fn all_nonempty(entries: Seq<EntryView>) -> bool {
    forall|i: int| 0 <= i < entries.len() ==> (#[trigger] entries[i]).lines.len() >= 1
}

/// Every entry of a parse holds at least one line, and its first line tells
/// how it came about: a header opened it, or it stands alone.
pub open spec fn well_formed(e: EntryView) -> bool {
    &&& e.lines.len() >= 1
    &&& is_header(e.lines[0]) ==> {
        &&& header_of(e.lines[0]) matches Some(h)
        &&& e.timestamp == h.timestamp
        &&& e.level == h.level
        &&& e.message == h.message
        &&& forall|k: int| 1 <= k < e.lines.len() ==> !is_header(#[trigger] e.lines[k])
    }
    &&& !is_header(e.lines[0]) ==> e == lone_entry(e.lines[0])
}

/// Nothing is lost and nothing is added: the lines of the entries, in order,
/// are the lines that were parsed, and every entry is well formed.
pub proof fn lemma_parse_keeps_lines(lines: Seq<Seq<char>>)
    ensures
        all_lines(parse_lines(lines)) == lines,
        forall|i: int|
            0 <= i < parse_lines(lines).len() ==> well_formed(#[trigger] parse_lines(lines)[i]),
    decreases lines.len(),
{
    if lines.len() > 0 {
        let before = parse_lines(lines.drop_last());
        let line = lines.last();
        let after = parse_lines(lines);
        lemma_parse_keeps_lines(lines.drop_last());
        if is_header(line) || before.len() == 0 || !is_open(before.last()) {
            assert(after.drop_last() == before);
        } else {
            assert(after.drop_last() == before.drop_last());
            assert(lines.drop_last().push(line) == lines);
        }
    }
}

/// The lines of two runs of entries are those of the first, then those of
/// the second.
pub proof fn lemma_all_lines_concat(a: Seq<EntryView>, b: Seq<EntryView>)
    ensures
        all_lines(a + b) == all_lines(a) + all_lines(b),
    decreases b.len(),
{
    if b.len() > 0 {
        lemma_all_lines_concat(a, b.drop_last());
        assert((a + b).drop_last() == a + b.drop_last());
    }
}

/// The entries so far, with the entry that is still open behind them.
pub open spec fn with_open(entries: Seq<EntryView>, open: Option<LogEntry>) -> Seq<EntryView> {
    match open {
        Some(e) => entries.push(e@),
        None => entries,
    }
}

/// Groups the lines of a log into entries.
pub struct LogParser {
    separators: Separators,
}

impl LogParser {
    /// A parser that is ready to read: it holds the separator of each level.
    pub fn new() -> (parser: Self)
        ensures
            forall|level: LogLevel| #[trigger] parser.pattern(level) == separator(level),
    {
        LogParser { separators: Separators::new() }
    }

    /// The characters by which the parser tells a header of `level`.
    pub closed spec fn pattern(&self, level: LogLevel) -> Seq<char> {
        self.separators.pattern(level)
    }

    /// Reads one line as a header: its timestamp, level and message, or
    /// `None` when the line is no header.
    pub fn parse_header(&self, line: &str) -> (header: Option<Header>)
        ensures
            header_view(header) == header_of(line@),
    {
        let chars = to_chars(line);
        self.separators.parse_header(&chars)
    }

    /// Parses `content` into its entries: `parse_text` of its characters.
    /// No line is lost or repeated, and every entry holds at least one line.
    pub fn parse(&self, content: &str) -> (entries: Vec<LogEntry>)
        ensures
            entry_views(entries@) == parse_text(content@),
            all_lines(entry_views(entries@)) == lines_of(content@),
            lines_of(content@).len() <= usize::MAX,
            all_nonempty(entry_views(entries@)),
            forall|i: int| 0 <= i < entries.len() ==> (#[trigger] entries@[i]).lines.len() >= 1,
    {
        let chars = to_chars(content);
        let lines = char_lines(&chars);
        let mut entries: Vec<LogEntry> = Vec::new();
        let mut current: Option<LogEntry> = None;
        let mut i: usize = 0;
        while i < lines.len()
            invariant
                i <= lines.len(),
                with_open(entry_views(entries@), current) == parse_lines(
                    views(lines@).take(i as int),
                ),
                current matches Some(e) ==> is_open(e@),
                current is None ==> entries.len() == 0 || !is_open(entries@.last()@),
            decreases lines.len() - i,
        {
            let line = &lines[i];
            let raw = string_of(line, 0, line.len());
            proof {
                let upto = views(lines@).take(i + 1);
                assert(upto.drop_last() == views(lines@).take(i as int));
                assert(line@.subrange(0, line@.len() as int) == line@);
            }
            match self.separators.parse_header(line) {
                Some(header) => {
                    match current {
                        Some(open) => {
                            entries.push(open);
                        },
                        None => {},
                    }
                    let first = vec![raw];
                    let entry = LogEntry {
                        _timestamp: header.timestamp,
                        level: header.level,
                        _message: header.message,
                        lines: first,
                    };
                    proof {
                        assert(entry@.lines == seq![line@]);
                    }
                    current = Some(entry);
                },
                None => {
                    match current {
                        Some(open) => {
                            let ghost was = open@;
                            let mut open = open;
                            open.lines.push(raw);
                            proof {
                                assert(open@.lines == was.lines.push(line@));
                            }
                            current = Some(open);
                        },
                        None => {
                            let first = vec![raw.clone()];
                            let entry = LogEntry {
                                _timestamp: String::new(),
                                level: LogLevel::Debug,
                                _message: raw,
                                lines: first,
                            };
                            proof {
                                assert(entry@.lines == seq![line@]);
                            }
                            entries.push(entry);
                        },
                    }
                },
            }
            i = i + 1;
        }
        match current {
            Some(open) => {
                let ghost done = entry_views(entries@);
                entries.push(open);
                assert(entry_views(entries@) == done.push(open@));
            },
            None => {},
        }
        proof {
            assert(views(lines@).take(lines.len() as int) == views(lines@));
            lemma_parse_keeps_lines(lines_of(content@));
            assert forall|i: int| 0 <= i < entries.len() implies (#[trigger] entries@[i]).lines.len()
                >= 1 by {
                assert(entry_views(entries@)[i] == entries@[i]@);
            }
        }
        entries
    }
}

} // verus!
