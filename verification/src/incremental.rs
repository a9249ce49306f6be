//! Parsing a text in two parts.
//!
//! A log that grows is parsed piece by piece, each piece on its own. Where a
//! piece begins after a line break, the lines of the pieces are the lines of
//! the whole, and the entries differ from those of the whole in one place
//! only: lines at the start of the later piece that continue the last entry
//! of the earlier one are not added to it, but stand alone.

use crate::header::{is_header, lemma_header_extends, lemma_header_without_cr};
use crate::lines::{
    first_newline, lemma_first_newline, lemma_first_newline_is, lines_of, strip_cr,
};
use crate::log_parser::{
    all_lines, is_open, lemma_all_lines_concat, lemma_parse_keeps_lines, lone_entry, parse_lines,
    parse_text, step, EntryView,
};
use vstd::prelude::*;

verus! {

/// The text ends where a line ends: it is empty, or its last character is a
/// line feed.
pub open spec fn ends_at_line_break(text: Seq<char>) -> bool {
    text.len() == 0 || text.last() == '\n'
}

/// The lines of a text that is cut after a line break are the lines of the
/// first part, then those of the second.
pub proof fn lemma_lines_concat(p: Seq<char>, s: Seq<char>)
    requires
        ends_at_line_break(p),
    ensures
        lines_of(p + s) == lines_of(p) + lines_of(s),
    decreases p.len(),
{
    if p.len() > 0 {
        lemma_first_newline(p);
        let n = first_newline(p) as int;
        let t = p + s;
        lemma_first_newline_is(t, n);
        let rest = p.skip(n + 1);
        assert(t.take(n) == p.take(n));
        assert(t.skip(n + 1) == rest + s);
        lemma_lines_concat(rest, s);
    }
}

/// The entries after `lines` were taken in behind `entries`.
pub open spec fn resumed(entries: Seq<EntryView>, lines: Seq<Seq<char>>) -> Seq<EntryView>
    decreases lines.len(),
{
    if lines.len() == 0 {
        entries
    } else {
        step(resumed(entries, lines.drop_last()), lines.last())
    }
}

/// Parsing two runs of lines as one is parsing the first and taking in the
/// second behind it.
pub proof fn lemma_parse_resumes(a: Seq<Seq<char>>, b: Seq<Seq<char>>)
    ensures
        parse_lines(a + b) == resumed(parse_lines(a), b),
    decreases b.len(),
{
    if b.len() > 0 {
        lemma_parse_resumes(a, b.drop_last());
        assert((a + b).drop_last() == a + b.drop_last());
    }
}

/// How many lines stand at the start of `lines` before its first header: all
/// of them where it holds no header.
pub open spec fn leading_plain(lines: Seq<Seq<char>>) -> nat
    decreases lines.len(),
{
    if lines.len() == 0 {
        0
    } else {
        let before = leading_plain(lines.drop_last());
        if before < lines.len() - 1 || is_header(lines.last()) {
            before
        } else {
            before + 1
        }
    }
}

/// `leading_plain` counts the lines before the first header.
pub proof fn lemma_leading_plain(lines: Seq<Seq<char>>)
    ensures
        leading_plain(lines) <= lines.len(),
        forall|j: int| 0 <= j < leading_plain(lines) ==> !is_header(#[trigger] lines[j]),
        leading_plain(lines) < lines.len() ==> is_header(lines[leading_plain(lines) as int]),
    decreases lines.len(),
{
    if lines.len() > 0 {
        let rest = lines.drop_last();
        lemma_leading_plain(rest);
        assert forall|j: int| 0 <= j < leading_plain(lines) implies !is_header(
            #[trigger] lines[j],
        ) by {
            if j < rest.len() {
                assert(lines[j] == rest[j]);
            }
        }
    }
}

/// `e` with `lines` added behind its own.
pub open spec fn extended(e: EntryView, lines: Seq<Seq<char>>) -> EntryView {
    EntryView { lines: e.lines + lines, ..e }
}

/// Parsed on their own, the lines before the first header stand alone, one
/// entry each; the first header, if there is one, opens the entry after them.
pub proof fn lemma_fresh_start(lines: Seq<Seq<char>>)
    ensures
        leading_plain(lines) <= parse_lines(lines).len(),
        forall|j: int|
            0 <= j < leading_plain(lines) ==> #[trigger] parse_lines(lines)[j] == lone_entry(
                lines[j],
            ),
        leading_plain(lines) == lines.len() ==> parse_lines(lines).len() == lines.len(),
        leading_plain(lines) < lines.len() ==> parse_lines(lines).len() > leading_plain(lines),
    decreases lines.len(),
{
    if lines.len() > 0 {
        let rest = lines.drop_last();
        lemma_fresh_start(rest);
        lemma_leading_plain(rest);
    }
}

/// Taking lines in behind entries changes none of the entries but the last,
/// and removes none.
pub proof fn lemma_resumed_keeps_earlier(entries: Seq<EntryView>, lines: Seq<Seq<char>>)
    requires
        entries.len() > 0,
    ensures
        resumed(entries, lines).len() >= entries.len(),
        resumed(entries, lines).take(entries.len() - 1) == entries.drop_last(),
    decreases lines.len(),
{
    if lines.len() > 0 {
        lemma_resumed_keeps_earlier(entries, lines.drop_last());
    }
}

/// What taking `lines` in behind `entries` gives, set against what `lines`
/// give on their own. Where `entries` ends in an open entry, that entry takes
/// the lines before the first header of `lines`, which on their own would
/// stand alone; everything else is as on their own.
pub open spec fn joined(entries: Seq<EntryView>, lines: Seq<Seq<char>>) -> Seq<EntryView> {
    let fresh = parse_lines(lines);
    let k = leading_plain(lines) as int;
    if entries.len() > 0 && is_open(entries.last()) {
        entries.drop_last().push(extended(entries.last(), lines.take(k))) + fresh.skip(k)
    } else {
        entries + fresh
    }
}

/// Taking lines in behind entries gives what `joined` says.
pub proof fn lemma_resumed_is_joined(entries: Seq<EntryView>, lines: Seq<Seq<char>>)
    ensures
        resumed(entries, lines) == joined(entries, lines),
    decreases lines.len(),
{
    let open = entries.len() > 0 && is_open(entries.last());
    if lines.len() > 0 {
        let rest = lines.drop_last();
        let x = lines.last();
        let k0 = leading_plain(rest) as int;
        let k = leading_plain(lines) as int;
        lemma_resumed_is_joined(entries, rest);
        lemma_fresh_start(rest);
        lemma_fresh_start(lines);
        lemma_leading_plain(rest);
        if open {
            let last = entries.last();
            if k0 < rest.len() {
                assert(lines.take(k) == rest.take(k0));
            } else {
                assert(rest.take(k0) == rest);
                if !is_header(x) {
                    assert(lines.take(k) == lines);
                    assert(extended(last, rest).lines.push(x) == last.lines + lines);
                }
            }
        }
    }
}

/// A text that is cut after a line break and parsed in two parts. The lines
/// of the two parses are the lines of the whole text. The entries are those
/// of the whole text, but for the one entry that runs over the cut: the
/// parse of the whole continues it with the lines before the first header of
/// the second part, which the parse of the second part alone leaves standing
/// alone.
pub proof fn lemma_incremental_parse(p: Seq<char>, s: Seq<char>)
    requires
        ends_at_line_break(p),
    ensures
        lines_of(p + s) == lines_of(p) + lines_of(s),
        all_lines(parse_text(p) + parse_text(s)) == all_lines(parse_text(p + s)),
        parse_text(p + s) == joined(parse_text(p), lines_of(s)),
        forall|j: int|
            0 <= j < leading_plain(lines_of(s)) ==> #[trigger] parse_text(s)[j] == lone_entry(
                lines_of(s)[j],
            ),
{
    lemma_lines_concat(p, s);
    lemma_parse_resumes(lines_of(p), lines_of(s));
    lemma_resumed_is_joined(parse_text(p), lines_of(s));
    lemma_fresh_start(lines_of(s));
    lemma_all_lines_concat(parse_text(p), parse_text(s));
    lemma_parse_keeps_lines(lines_of(p));
    lemma_parse_keeps_lines(lines_of(s));
    lemma_parse_keeps_lines(lines_of(p + s));
}

/// A line that is cut short, set against the whole line: where the part is a
/// header, the whole is one too. Then all entries before the one that holds
/// the part are the same, whatever lines follow the whole line.
pub proof fn lemma_torn_line_keeps_earlier(
    before: Seq<Seq<char>>,
    part: Seq<char>,
    whole: Seq<char>,
    after: Seq<Seq<char>>,
)
    requires
        is_header(part) ==> is_header(whole),
    ensures
        parse_lines(before.push(whole) + after).len() >= parse_lines(before.push(part)).len(),
        parse_lines(before.push(whole) + after).take(parse_lines(before.push(part)).len() - 1)
            == parse_lines(before.push(part)).drop_last(),
{
    let joint = parse_lines(before.push(whole));
    assert(before.push(part).drop_last() == before);
    assert(before.push(whole).drop_last() == before);
    lemma_parse_resumes(before.push(whole), after);
    lemma_resumed_keeps_earlier(joint, after);
}

/// The length of the longest part at the start of `text` that ends at a line
/// break.
pub open spec fn last_break(text: Seq<char>) -> nat
    decreases text.len(),
{
    if text.len() == 0 {
        0
    } else if text.last() == '\n' {
        text.len()
    } else {
        last_break(text.drop_last())
    }
}

/// `last_break` cuts a text into whole lines and a rest without a line feed.
pub proof fn lemma_last_break(text: Seq<char>)
    ensures
        last_break(text) <= text.len(),
        ends_at_line_break(text.take(last_break(text) as int)),
        forall|k: int| last_break(text) <= k < text.len() ==> text[k] != '\n',
    decreases text.len(),
{
    if text.len() > 0 {
        if text.last() != '\n' {
            let rest = text.drop_last();
            lemma_last_break(rest);
            assert forall|k: int| last_break(text) <= k < text.len() implies text[k] != '\n' by {
                if k < rest.len() {
                    assert(text[k] == rest[k]);
                }
            }
        }
    }
}

/// However a text is cut in two, the parse of the first part agrees with the
/// parse of the whole on every entry but its last: what comes behind the cut
/// can only change the entry that the cut runs through.
pub proof fn lemma_cut_anywhere(p: Seq<char>, s: Seq<char>)
    ensures
        parse_text(p + s).len() >= parse_text(p).len(),
        parse_text(p).len() > 0 ==> parse_text(p + s).take(parse_text(p).len() - 1) == parse_text(
            p,
        ).drop_last(),
{
    lemma_last_break(p);
    let b = last_break(p) as int;
    let head = p.take(b);
    let part = p.skip(b);
    assert(p == head + part);
    assert(p + s == head + (part + s));
    lemma_lines_concat(head, part);
    lemma_lines_concat(head, part + s);
    if part.len() == 0 {
        lemma_parse_resumes(lines_of(p), lines_of(s));
        if parse_text(p).len() > 0 {
            lemma_resumed_keeps_earlier(parse_text(p), lines_of(s));
        }
    } else {
        let t = part + s;
        lemma_first_newline_is(part, part.len() as int);
        lemma_first_newline(s);
        let n = (part.len() + first_newline(s)) as int;
        lemma_first_newline_is(t, n);
        let raw = t.take(n);
        let whole = if n >= t.len() {
            t
        } else {
            strip_cr(raw)
        };
        let after = if n >= t.len() {
            Seq::<Seq<char>>::empty()
        } else {
            lines_of(t.skip(n + 1))
        };
        assert(raw == part + s.take(n - part.len()));
        if is_header(part) {
            lemma_header_extends(part, s);
            lemma_header_extends(part, s.take(n - part.len()));
            if n < t.len() && raw.len() > 0 && raw.last() == '\r' {
                lemma_header_without_cr(raw);
            }
        }
        let before = lines_of(head);
        assert(lines_of(p) == before.push(part));
        assert(lines_of(p + s) == before.push(whole) + after);
        lemma_torn_line_keeps_earlier(before, part, whole, after);
    }
}

} // verus!
