//! Splitting text into logical lines.

use crate::text::{chars_of, string_of, string_views, to_chars, views};
use vstd::prelude::*;

verus! {

/// Index of the first line feed in `s`, or `s.len()` when there is none.
pub open spec fn first_newline(s: Seq<char>) -> nat
    decreases s.len(),
{
    if s.len() == 0 {
        0
    } else if s[0] == '\n' {
        0
    } else {
        1 + first_newline(s.drop_first())
    }
}

/// A line without the carriage return that preceded its line feed.
pub open spec fn strip_cr(line: Seq<char>) -> Seq<char> {
    if line.len() > 0 && line.last() == '\r' {
        line.drop_last()
    } else {
        line
    }
}

/// The logical lines of a text. A line ends at a line feed, or at a carriage
/// return directly followed by one; the terminator is not part of the line.
/// Text after the last line feed is a line of its own, kept as it is.
pub open spec fn lines_of(s: Seq<char>) -> Seq<Seq<char>>
    decreases s.len(),
{
    if s.len() == 0 {
        Seq::empty()
    } else {
        let n = first_newline(s);
        if n >= s.len() {
            seq![s]
        } else {
            seq![strip_cr(s.take(n as int))] + lines_of(s.skip(n as int + 1))
        }
    }
}

/// `first_newline` is the position of the first line feed.
pub proof fn lemma_first_newline(s: Seq<char>)
    ensures
        0 <= first_newline(s) <= s.len(),
        forall|k: int| 0 <= k < first_newline(s) ==> s[k] != '\n',
        first_newline(s) < s.len() ==> s[first_newline(s) as int] == '\n',
    decreases s.len(),
{
    if s.len() > 0 && s[0] != '\n' {
        let t = s.drop_first();
        lemma_first_newline(t);
        assert forall|k: int| 0 <= k < first_newline(s) implies s[k] != '\n' by {
            if k > 0 {
                assert(s[k] == t[k - 1]);
            }
        }
    }
}

/// A position that holds a line feed, with none before it, is `first_newline`.
pub proof fn lemma_first_newline_is(s: Seq<char>, n: int)
    requires
        0 <= n <= s.len(),
        forall|k: int| 0 <= k < n ==> s[k] != '\n',
        n < s.len() ==> s[n] == '\n',
    ensures
        first_newline(s) == n,
{
    lemma_first_newline(s);
}

/// No line holds a line feed.
pub proof fn lemma_lines_hold_no_line_feed(text: Seq<char>)
    ensures
        forall|i: int, k: int|
            0 <= i < lines_of(text).len() && 0 <= k < lines_of(text)[i].len() ==> lines_of(
                text,
            )[i][k] != '\n',
    decreases text.len(),
{
    if text.len() > 0 {
        lemma_first_newline(text);
        let n = first_newline(text) as int;
        if n < text.len() {
            let rest = text.skip(n + 1);
            lemma_lines_hold_no_line_feed(rest);
            assert forall|i: int, k: int|
                0 <= i < lines_of(text).len() && 0 <= k < lines_of(text)[i].len() implies lines_of(
                    text,
                )[i][k] != '\n' by {
                if i > 0 {
                    assert(lines_of(text)[i] == lines_of(rest)[i - 1]);
                }
            }
        }
    }
}

/// A text that begins with a line and its line feed has that line first, and
/// then the lines of the rest.
pub proof fn lemma_lines_first(line: Seq<char>, rest: Seq<char>)
    requires
        forall|k: int| 0 <= k < line.len() ==> line[k] != '\n',
    ensures
        lines_of(line + seq!['\n'] + rest) == seq![strip_cr(line)] + lines_of(rest),
{
    let text = line + seq!['\n'] + rest;
    let n = line.len() as int;
    lemma_first_newline_is(text, n);
    assert(text.take(n) == line);
    assert(text.skip(n + 1) == rest);
}

/// A text without a line feed is one line, unless it is empty.
pub proof fn lemma_lines_last(line: Seq<char>)
    requires
        line.len() > 0,
        forall|k: int| 0 <= k < line.len() ==> line[k] != '\n',
    ensures
        lines_of(line) == seq![line],
{
    lemma_first_newline_is(line, line.len() as int);
}

/// Splits `chars` into its logical lines.
pub fn char_lines(chars: &Vec<char>) -> (out: Vec<Vec<char>>)
    ensures
        views(out@) == lines_of(chars@),
{
    let mut out: Vec<Vec<char>> = Vec::new();
    let len = chars.len();
    let mut pos: usize = 0;
    proof {
        assert(chars@.skip(0) == chars@);
    }
    while pos < len
        invariant
            pos <= len,
            len == chars.len(),
            views(out@) + lines_of(chars@.skip(pos as int)) == lines_of(chars@),
        decreases len - pos,
    {
        let ghost rest = chars@.skip(pos as int);
        let mut end: usize = pos;
        while end < len && chars[end] != '\n'
            invariant
                pos <= end <= len,
                len == chars.len(),
                forall|k: int| pos <= k < end ==> chars@[k] != '\n',
            decreases len - end,
        {
            end = end + 1;
        }
        proof {
            lemma_first_newline_is(rest, end - pos);
        }
        if end == len {
            let line = chars_of(chars, pos, len);
            out.push(line);
            pos = len;
        } else {
            let stop = if end > pos && chars[end - 1] == '\r' {
                end - 1
            } else {
                end
            };
            let line = chars_of(chars, pos, stop);
            out.push(line);
            proof {
                let n = end - pos;
                assert(line@ == strip_cr(rest.take(n)));
                assert(rest.skip(n + 1) == chars@.skip(end + 1));
            }
            pos = end + 1;
        }
    }
    out
}

/// Splits `content` into its logical lines, each as a `String`.
pub fn split_lines(content: &str) -> (out: Vec<String>)
    ensures
        string_views(out@) == lines_of(content@),
{
    let chars = to_chars(content);
    let lines = char_lines(&chars);
    let mut out: Vec<String> = Vec::new();
    let mut i: usize = 0;
    while i < lines.len()
        invariant
            i <= lines.len(),
            out.len() == i,
            forall|k: int| 0 <= k < i ==> out@[k]@ == lines@[k]@,
        decreases lines.len() - i,
    {
        let line = string_of(&lines[i], 0, lines[i].len());
        out.push(line);
        i = i + 1;
    }
    out
}

} // verus!
