//! The grammar of a header line: `[timestamp] [LEVEL] message`.
//!
//! A line is a header when it opens with `[` and, somewhere after that
//! bracket, holds `] [LEVEL] ` for one of the four level tokens. The
//! timestamp is what stands between the opening bracket and the first such
//! place; the message is everything behind it.
//!
//! The grammar is that of the regular expression
//! `^\[(.*?)\] \[(DEBUG|INFO|WARN|ERROR)\] (.*)`, and is kept to it on every
//! string: the timestamp does not run over a line feed, and the message ends
//! before the first line feed behind it. Within one line neither makes a
//! difference.

use crate::level::{level_name, lemma_level_names, LogLevel};
use crate::lines::{first_newline, lemma_first_newline_is};
use crate::text::string_of;
use vstd::prelude::*;

verus! {

/// What separates the timestamp from the message in a header of `level`.
pub open spec fn separator(level: LogLevel) -> Seq<char> {
    seq![']', ' ', '['] + level_name(level) + seq![']', ' ']
}

/// `pat` stands in `line` at position `at`.
pub open spec fn occurs_at(line: Seq<char>, at: int, pat: Seq<char>) -> bool {
    &&& 0 <= at
    &&& at + pat.len() <= line.len()
    &&& line.subrange(at, at + pat.len()) == pat
}

/// The level whose separator stands in `line` at `at`, if there is one.
pub open spec fn level_at(line: Seq<char>, at: int) -> Option<LogLevel> {
    if occurs_at(line, at, separator(LogLevel::Debug)) {
        Some(LogLevel::Debug)
    } else if occurs_at(line, at, separator(LogLevel::Info)) {
        Some(LogLevel::Info)
    } else if occurs_at(line, at, separator(LogLevel::Warn)) {
        Some(LogLevel::Warn)
    } else if occurs_at(line, at, separator(LogLevel::Error)) {
        Some(LogLevel::Error)
    } else {
        None
    }
}

/// `line` reads as a header whose timestamp ends just before `at`.
pub open spec fn splits_at(line: Seq<char>, at: int) -> bool {
    &&& line.len() > 0
    &&& line[0] == '['
    &&& 1 <= at
    &&& forall|k: int| 1 <= k < at ==> line[k] != '\n'
    &&& level_at(line, at) is Some
}

/// `line` is a header line.
pub open spec fn is_header(line: Seq<char>) -> bool {
    exists|at: int| splits_at(line, at)
}

/// `at` is the first place at which `line` splits as a header.
pub open spec fn first_split(line: Seq<char>, at: int) -> bool {
    &&& splits_at(line, at)
    &&& forall|j: int| splits_at(line, j) ==> at <= j
}

/// Where the timestamp of the header `line` ends: the first split.
pub open spec fn timestamp_end(line: Seq<char>) -> int {
    choose|at: int| first_split(line, at)
}

/// The three parts of a header line.
pub struct HeaderView {
    pub timestamp: Seq<char>,
    pub level: LogLevel,
    pub message: Seq<char>,
}

/// The three parts of a header line, as owned strings.
pub struct Header {
    pub timestamp: String,
    pub level: LogLevel,
    pub message: String,
}

impl View for Header {
    type V = HeaderView;

    open spec fn view(&self) -> HeaderView {
        HeaderView { timestamp: self.timestamp@, level: self.level, message: self.message@ }
    }
}

/// The view of an optional header.
pub open spec fn header_view(h: Option<Header>) -> Option<HeaderView> {
    match h {
        Some(h) => Some(h@),
        None => None,
    }
}

/// What stands in `line` from `from` on, up to the first line feed.
pub open spec fn rest_of_line(line: Seq<char>, from: int) -> Seq<char> {
    let rest = line.skip(from);
    rest.take(first_newline(rest) as int)
}

/// The parts of `line` when it splits at `at`.
pub open spec fn header_parts(line: Seq<char>, at: int) -> HeaderView {
    let level = level_at(line, at)->0;
    HeaderView {
        timestamp: line.subrange(1, at),
        level,
        message: rest_of_line(line, at + separator(level).len()),
    }
}

/// The parts of `line` if it is a header, and `None` if it is not.
pub open spec fn header_of(line: Seq<char>) -> Option<HeaderView> {
    if is_header(line) {
        Some(header_parts(line, timestamp_end(line)))
    } else {
        None
    }
}

/// A first split is the timestamp's end: there is only one first split.
pub proof fn lemma_first_split(line: Seq<char>, at: int)
    requires
        first_split(line, at),
    ensures
        is_header(line),
        timestamp_end(line) == at,
        header_of(line) == Some(header_parts(line, at)),
{
}

/// A header line has a first split.
pub proof fn lemma_header_has_first_split(line: Seq<char>)
    requires
        is_header(line),
    ensures
        first_split(line, timestamp_end(line)),
{
    lemma_least_split(line, choose|at: int| splits_at(line, at));
    let m = choose|m: int| first_split(line, m);
    assert(first_split(line, m));
}

/// At or before any split there is a first one.
proof fn lemma_least_split(line: Seq<char>, at: int)
    requires
        splits_at(line, at),
    ensures
        exists|m: int| first_split(line, m),
    decreases at,
{
    if exists|j: int| splits_at(line, j) && j < at {
        lemma_least_split(line, choose|j: int| splits_at(line, j) && j < at);
    } else {
        assert(first_split(line, at));
    }
}

/// The separators, spelled out.
pub proof fn lemma_separators()
    ensures
        separator(LogLevel::Debug) == seq![']', ' ', '[', 'D', 'E', 'B', 'U', 'G', ']', ' '],
        separator(LogLevel::Info) == seq![']', ' ', '[', 'I', 'N', 'F', 'O', ']', ' '],
        separator(LogLevel::Warn) == seq![']', ' ', '[', 'W', 'A', 'R', 'N', ']', ' '],
        separator(LogLevel::Error) == seq![']', ' ', '[', 'E', 'R', 'R', 'O', 'R', ']', ' '],
{
    lemma_level_names();
}

/// Every separator is nine or ten characters long, begins with `]` and ends
/// with a space.
pub proof fn lemma_separator_shape(level: LogLevel)
    ensures
        9 <= separator(level).len() <= 10,
        separator(level)[0] == ']',
        separator(level).last() == ' ',
{
    lemma_separators();
}

/// A header that holds no line feed is made of its parts: an opening
/// bracket, the timestamp, the separator of its level, and the message.
pub proof fn lemma_header_reassembles(line: Seq<char>)
    requires
        is_header(line),
        forall|k: int| 0 <= k < line.len() ==> line[k] != '\n',
    ensures
        header_of(line) matches Some(h) && line == seq!['['] + h.timestamp + separator(h.level)
            + h.message,
{
    lemma_header_has_first_split(line);
    let at = timestamp_end(line);
    let h = header_parts(line, at);
    let after = at + separator(h.level).len();
    lemma_first_newline_is(line.skip(after), line.len() - after);
}

/// An opening bracket, a timestamp that holds no closing bracket, the
/// separator of a level and a message make a header with these parts, where
/// neither the timestamp nor the message holds a line feed.
pub proof fn lemma_header_built(timestamp: Seq<char>, level: LogLevel, message: Seq<char>)
    requires
        forall|k: int| 0 <= k < timestamp.len() ==> timestamp[k] != ']' && timestamp[k] != '\n',
        forall|k: int| 0 <= k < message.len() ==> message[k] != '\n',
    ensures
        header_of(seq!['['] + timestamp + separator(level) + message) == Some(
            HeaderView { timestamp, level, message },
        ),
{
    let line = seq!['['] + timestamp + separator(level) + message;
    let at = 1 + timestamp.len() as int;
    let w = separator(level).len() as int;
    lemma_separators();
    assert(line.subrange(at, at + w) =~= separator(level));
    lemma_first_split(line, at);
    assert(line.subrange(1, at) =~= timestamp);
    assert(line.skip(at + w) =~= message);
    lemma_first_newline_is(message, message.len() as int);
    assert(message.take(message.len() as int) =~= message);
}

/// Characters added behind a header leave it a header that splits at the same
/// place and names the same level: only the message grows.
pub proof fn lemma_header_extends(line: Seq<char>, more: Seq<char>)
    requires
        is_header(line),
    ensures
        is_header(line + more),
        timestamp_end(line + more) == timestamp_end(line),
        level_at(line + more, timestamp_end(line)) == level_at(line, timestamp_end(line)),
{
    let whole = line + more;
    lemma_header_has_first_split(line);
    let at = timestamp_end(line);
    lemma_separator_shape(LogLevel::Debug);
    lemma_separator_shape(LogLevel::Info);
    lemma_separator_shape(LogLevel::Warn);
    lemma_separator_shape(LogLevel::Error);
    assert forall|j: int, level: LogLevel|
        #![trigger occurs_at(line, j, separator(level))]
        occurs_at(line, j, separator(level)) implies occurs_at(whole, j, separator(level)) by {
        assert(whole.subrange(j, j + separator(level).len()) == line.subrange(
            j,
            j + separator(level).len(),
        ));
    }
    assert forall|j: int, level: LogLevel|
        #![trigger occurs_at(whole, j, separator(level))]
        occurs_at(whole, j, separator(level)) && j + separator(level).len()
            <= line.len() implies occurs_at(line, j, separator(level)) by {
        assert(whole.subrange(j, j + separator(level).len()) == line.subrange(
            j,
            j + separator(level).len(),
        ));
    }
    assert forall|j: int| splits_at(whole, j) implies at <= j by {
        if j < at {
            assert(splits_at(line, j));
        }
    }
    lemma_first_split(whole, at);
}

/// A header that ends in a carriage return is a header without it.
pub proof fn lemma_header_without_cr(line: Seq<char>)
    requires
        is_header(line),
        line.last() == '\r',
    ensures
        is_header(line.drop_last()),
{
    let at = choose|at: int| splits_at(line, at);
    let level = level_at(line, at)->0;
    let cut = line.drop_last();
    lemma_separator_shape(level);
    let w = separator(level).len() as int;
    assert(cut.subrange(at, at + w) == line.subrange(at, at + w));
    assert(splits_at(cut, at));
}

/// Whether `pat` stands in `line` at position `at`.
fn starts_at(line: &Vec<char>, at: usize, pat: &Vec<char>) -> (found: bool)
    ensures
        found == occurs_at(line@, at as int, pat@),
{
    let n = pat.len();
    if at > line.len() || n > line.len() - at {
        return false;
    }
    let mut k: usize = 0;
    while k < n
        invariant
            k <= n,
            n == pat.len(),
            at + n <= line.len(),
            forall|j: int| 0 <= j < k ==> line@[at + j] == pat@[j],
        decreases n - k,
    {
        if line[at + k] != pat[k] {
            return false;
        }
        k = k + 1;
    }
    proof {
        assert(line@.subrange(at as int, at + n) =~= pat@);
    }
    true
}

/// The four separators, ready to be compared with a line.
pub struct Separators {
    debug: Vec<char>,
    info: Vec<char>,
    warn: Vec<char>,
    error: Vec<char>,
}

impl Separators {
    #[verifier::type_invariant]
    spec fn holds_the_separators(self) -> bool {
        &&& self.debug@ == separator(LogLevel::Debug)
        &&& self.info@ == separator(LogLevel::Info)
        &&& self.warn@ == separator(LogLevel::Warn)
        &&& self.error@ == separator(LogLevel::Error)
    }

    /// Spells out the four separators: each level gets the separator it has.
    pub fn new() -> (s: Self)
        ensures
            forall|level: LogLevel| #[trigger] s.pattern(level) == separator(level),
    {
        proof {
            lemma_separators();
        }
        let debug = vec![']', ' ', '[', 'D', 'E', 'B', 'U', 'G', ']', ' '];
        let info = vec![']', ' ', '[', 'I', 'N', 'F', 'O', ']', ' '];
        let warn = vec![']', ' ', '[', 'W', 'A', 'R', 'N', ']', ' '];
        let error = vec![']', ' ', '[', 'E', 'R', 'R', 'O', 'R', ']', ' '];
        Separators { debug, info, warn, error }
    }

    /// The characters that are held for `level`, to be compared with a line.
    pub closed spec fn pattern(&self, level: LogLevel) -> Seq<char> {
        match level {
            LogLevel::Debug => self.debug@,
            LogLevel::Info => self.info@,
            LogLevel::Warn => self.warn@,
            LogLevel::Error => self.error@,
        }
    }

    /// The characters of the separator of `level`.
    fn of(&self, level: LogLevel) -> (pat: &Vec<char>)
        ensures
            pat@ == self.pattern(level),
            pat@ == separator(level),
    {
        proof {
            use_type_invariant(self);
        }
        match level {
            LogLevel::Debug => &self.debug,
            LogLevel::Info => &self.info,
            LogLevel::Warn => &self.warn,
            LogLevel::Error => &self.error,
        }
    }

    /// The level whose separator stands in `line` at `at`, if there is one.
    pub fn level_at(&self, line: &Vec<char>, at: usize) -> (level: Option<LogLevel>)
        ensures
            level == level_at(line@, at as int),
    {
        if starts_at(line, at, self.of(LogLevel::Debug)) {
            Some(LogLevel::Debug)
        } else if starts_at(line, at, self.of(LogLevel::Info)) {
            Some(LogLevel::Info)
        } else if starts_at(line, at, self.of(LogLevel::Warn)) {
            Some(LogLevel::Warn)
        } else if starts_at(line, at, self.of(LogLevel::Error)) {
            Some(LogLevel::Error)
        } else {
            None
        }
    }

    /// Finds the first place at which `line` splits as a header, and the
    /// level named there; `None` when `line` is no header.
    pub fn find_split(&self, line: &Vec<char>) -> (found: Option<(usize, LogLevel)>)
        ensures
            match found {
                Some((at, level)) => first_split(line@, at as int) && level_at(line@, at as int)
                    == Some(level),
                None => !is_header(line@),
            },
    {
        let len = line.len();
        if len == 0 || line[0] != '[' {
            return None;
        }
        let mut at: usize = 1;
        while at < len
            invariant
                1 <= at <= len,
                len == line.len(),
                line@[0] == '[',
                forall|j: int| 1 <= j < at ==> level_at(line@, j) is None,
                forall|k: int| 1 <= k < at ==> line@[k] != '\n',
            decreases len - at,
        {
            match self.level_at(line, at) {
                Some(level) => {
                    return Some((at, level));
                },
                None => {},
            }
            if line[at] == '\n' {
                return None;
            }
            at = at + 1;
        }
        proof {
            lemma_separators();
        }
        None
    }

    /// Reads `line` as a header: its timestamp, level and message, or `None`
    /// when `line` is no header.
    pub fn parse_header(&self, line: &Vec<char>) -> (header: Option<Header>)
        ensures
            header_view(header) == header_of(line@),
    {
        match self.find_split(line) {
            Some((at, level)) => {
                proof {
                    lemma_first_split(line@, at as int);
                }
                let width = self.of(level).len();
                assert(at + width <= line.len());
                let after = at + width;
                let mut end = after;
                while end < line.len() && line[end] != '\n'
                    invariant
                        after <= end <= line.len(),
                        forall|k: int| after <= k < end ==> line@[k] != '\n',
                    decreases line.len() - end,
                {
                    end = end + 1;
                }
                proof {
                    let rest = line@.skip(after as int);
                    lemma_first_newline_is(rest, end - after);
                    assert(rest.take(end - after) == line@.subrange(after as int, end as int));
                }
                let timestamp = string_of(line, 1, at);
                let message = string_of(line, after, end);
                Some(Header { timestamp, level, message })
            },
            None => None,
        }
    }
}

} // verus!
