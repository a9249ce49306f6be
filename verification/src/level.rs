//! Severity levels and the tokens that name them.

use crate::text::to_chars;
use vstd::prelude::*;

verus! {

/// The severity of a log entry.
#[derive(Debug, Clone, Copy, PartialEq, Eq, Structural)]
pub enum LogLevel {
    Debug,
    Info,
    Warn,
    Error,
}

/// The token that names `level` in a header line.
pub open spec fn level_name(level: LogLevel) -> Seq<char> {
    match level {
        LogLevel::Debug => "DEBUG"@,
        LogLevel::Info => "INFO"@,
        LogLevel::Warn => "WARN"@,
        LogLevel::Error => "ERROR"@,
    }
}

/// The level that the token `name` stands for, if it is one of the four.
pub open spec fn level_named(name: Seq<char>) -> Option<LogLevel> {
    if name == level_name(LogLevel::Debug) {
        Some(LogLevel::Debug)
    } else if name == level_name(LogLevel::Info) {
        Some(LogLevel::Info)
    } else if name == level_name(LogLevel::Warn) {
        Some(LogLevel::Warn)
    } else if name == level_name(LogLevel::Error) {
        Some(LogLevel::Error)
    } else {
        None
    }
}

/// The terminal escape sequence that colours text of `level`.
pub open spec fn color_code(level: LogLevel) -> Seq<char> {
    match level {
        LogLevel::Debug => "\x1b[90m"@,
        LogLevel::Info => "\x1b[37m"@,
        LogLevel::Warn => "\x1b[33m"@,
        LogLevel::Error => "\x1b[31m"@,
    }
}

/// The four tokens, spelled out, and with them that no two are equal.
pub proof fn lemma_level_names()
    ensures
        level_name(LogLevel::Debug) == seq!['D', 'E', 'B', 'U', 'G'],
        level_name(LogLevel::Info) == seq!['I', 'N', 'F', 'O'],
        level_name(LogLevel::Warn) == seq!['W', 'A', 'R', 'N'],
        level_name(LogLevel::Error) == seq!['E', 'R', 'R', 'O', 'R'],
        forall|a: LogLevel| level_named(#[trigger] level_name(a)) == Some(a),
{
    reveal_strlit("DEBUG");
    reveal_strlit("INFO");
    reveal_strlit("WARN");
    reveal_strlit("ERROR");
    assert(level_name(LogLevel::Info)[0] == 'I');
    assert(level_name(LogLevel::Error)[1] == 'R');
}

impl LogLevel {
    /// Reads a level from its token. The match is exact: case and length count.
    pub fn from_str(s: &str) -> (level: Option<Self>)
        ensures
            level == level_named(s@),
    {
        let c = to_chars(s);
        proof {
            lemma_level_names();
        }
        if c.len() == 5 && c[0] == 'D' && c[1] == 'E' && c[2] == 'B' && c[3] == 'U' && c[4] == 'G' {
            assert(s@ =~= level_name(LogLevel::Debug));
            Some(LogLevel::Debug)
        } else if c.len() == 4 && c[0] == 'I' && c[1] == 'N' && c[2] == 'F' && c[3] == 'O' {
            assert(s@ =~= level_name(LogLevel::Info));
            Some(LogLevel::Info)
        } else if c.len() == 4 && c[0] == 'W' && c[1] == 'A' && c[2] == 'R' && c[3] == 'N' {
            assert(s@ =~= level_name(LogLevel::Warn));
            Some(LogLevel::Warn)
        } else if c.len() == 5 && c[0] == 'E' && c[1] == 'R' && c[2] == 'R' && c[3] == 'O' && c[4]
            == 'R' {
            assert(s@ =~= level_name(LogLevel::Error));
            Some(LogLevel::Error)
        } else {
            None
        }
    }

    /// The escape sequence that a plain terminal uses to colour this level.
    pub fn _color(&self) -> (code: &'static str)
        ensures
            code@ == color_code(*self),
    {
        match self {
            LogLevel::Debug => "\x1b[90m",
            LogLevel::Info => "\x1b[37m",
            LogLevel::Warn => "\x1b[33m",
            LogLevel::Error => "\x1b[31m",
        }
    }
}

} // verus!
