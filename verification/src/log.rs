//! The in-memory log shown in the devtools pane: the line buffer that log
//! output is written into, and the colouring of a formatted log line.

use vstd::prelude::*;

use std::collections::VecDeque;

use crate::text::{
    chars_of, find_non_whitespace, find_whitespace, first_index, is_not_ws, is_ws, push_char,
    str_eq, trim, trim_spec, views_of, lemma_views_of_push,
};
use vstd::string::{StrSliceExecFns, StringExecFns};
use vstd::utf8::{decode_utf8, valid_utf8};

verus! {

/// The text that `String::from_utf8_lossy` makes of `bytes`.
pub uninterp spec fn utf8_lossy_text(bytes: Seq<u8>) -> Seq<char>;

/// `String::from_utf8_lossy(bytes)`, owned. Trusted: the result is named by
/// `utf8_lossy_text`, and for valid UTF-8 it is the decoded text, as std
/// documents; how invalid sequences are replaced is left unsaid.
#[verifier::external_body]
fn decode_utf8_lossy(bytes: &[u8]) -> (s: String)
    ensures
        s@ == utf8_lossy_text(bytes@),
        valid_utf8(bytes@) ==> s@ == decode_utf8(bytes@),
{
    String::from_utf8_lossy(bytes).into_owned()
}

/// The most completed lines the buffer keeps.
pub const MAX_LOG_LINES: usize = 1000;

/// The buffer after one more character: a newline completes the current
/// line (dropping the oldest line beyond `MAX_LOG_LINES`), any other
/// character extends it.
pub open spec fn log_step(lines: Seq<Seq<char>>, current: Seq<char>, c: char) -> (
    Seq<Seq<char>>,
    Seq<char>,
) {
    if c == '\n' {
        let more = lines.push(current);
        (if more.len() > MAX_LOG_LINES {
            more.drop_first()
        } else {
            more
        }, Seq::empty())
    } else {
        (lines, current.push(c))
    }
}

/// The buffer after the characters of `text`, one after the other.
pub open spec fn log_write_spec(lines: Seq<Seq<char>>, current: Seq<char>, text: Seq<char>) -> (
    Seq<Seq<char>>,
    Seq<char>,
)
    decreases text.len(),
{
    if text.len() == 0 {
        (lines, current)
    } else {
        let before = log_write_spec(lines, current, text.drop_last());
        log_step(before.0, before.1, text.last())
    }
}

/// The lines a buffer shows: its completed lines, then the current line
/// when it is not empty.
pub open spec fn shown_lines_spec(lines: Seq<Seq<char>>, current: Seq<char>) -> Seq<Seq<char>> {
    if current.len() > 0 {
        lines.push(current)
    } else {
        lines
    }
}

/// The buffer after the texts are written one after the other into an
/// empty buffer.
pub open spec fn log_writes_spec(texts: Seq<Seq<char>>) -> (Seq<Seq<char>>, Seq<char>)
    decreases texts.len(),
{
    if texts.len() == 0 {
        (Seq::empty(), Seq::empty())
    } else {
        let before = log_writes_spec(texts.drop_last());
        log_write_spec(before.0, before.1, texts.last())
    }
}

/// The pieces of `text` between its newlines, in order: one more than it
/// has newlines (`str::split('\n')`).
pub open spec fn newline_pieces(text: Seq<char>) -> Seq<Seq<char>>
    decreases text.len(),
{
    if text.len() == 0 {
        seq![Seq::empty()]
    } else {
        let p = newline_pieces(text.drop_last());
        if text.last() == '\n' {
            p.push(Seq::empty())
        } else {
            p.update(p.len() - 1, p.last().push(text.last()))
        }
    }
}

/// Text has at least one piece.
proof fn lemma_newline_pieces_len(text: Seq<char>)
    ensures
        newline_pieces(text).len() >= 1,
    decreases text.len(),
{
    if text.len() > 0 {
        lemma_newline_pieces_len(text.drop_last());
    }
}

/// Writing `a` and then `b` is writing `a + b`.
pub proof fn lemma_log_write_concat(lines: Seq<Seq<char>>, current: Seq<char>, a: Seq<char>, b: Seq<char>)
    ensures
        log_write_spec(lines, current, a + b) == ({
            let mid = log_write_spec(lines, current, a);
            log_write_spec(mid.0, mid.1, b)
        }),
    decreases b.len(),
{
    if b.len() == 0 {
        assert(a + b =~= a);
    } else {
        lemma_log_write_concat(lines, current, a, b.drop_last());
        assert((a + b).drop_last() =~= a + b.drop_last());
        assert((a + b).last() == b.last());
    }
}

/// Writing `text` into an empty buffer keeps the newest `MAX_LOG_LINES`
/// pieces of the text before its last newline as completed lines, and the
/// piece after it as the current line.
proof fn lemma_log_write_pieces(text: Seq<char>)
    ensures
        ({
            let p = newline_pieces(text);
            let k = p.len() - 1;
            log_write_spec(Seq::empty(), Seq::empty(), text) == (p.subrange(
                if k > MAX_LOG_LINES {
                    k - MAX_LOG_LINES
                } else {
                    0
                },
                k,
            ), p[k])
        }),
    decreases text.len(),
{
    lemma_newline_pieces_len(text);
    if text.len() > 0 {
        let init = text.drop_last();
        lemma_log_write_pieces(init);
        lemma_newline_pieces_len(init);
        let p0 = newline_pieces(init);
        let k0 = p0.len() - 1;
        let start0: int = if k0 > MAX_LOG_LINES {
            k0 - MAX_LOG_LINES
        } else {
            0
        };
        let p = newline_pieces(text);
        let k = p.len() - 1;
        let start: int = if k > MAX_LOG_LINES {
            k - MAX_LOG_LINES
        } else {
            0
        };
        let lines0 = p0.subrange(start0, k0);
        if text.last() == '\n' {
            let more = lines0.push(p0[k0]);
            assert(more =~= p.subrange(start0, k));
            if more.len() > MAX_LOG_LINES {
                assert(more.drop_first() =~= p.subrange(start, k));
            } else {
                assert(start == start0);
            }
        } else {
            assert(lines0 =~= p.subrange(start, k));
        }
    }
}

/// What log output leaves in the buffer: the texts written one after the
/// other are cut at their newlines; the completed pieces are kept in write
/// order (empty ones too), only the newest `MAX_LOG_LINES` of them, and the
/// piece after the last newline is the current line. The lines shown are
/// those, then the current line when it is not empty.
pub proof fn lemma_log_buffer(texts: Seq<Seq<char>>)
    ensures
        ({
            let p = newline_pieces(texts.flatten());
            let k = p.len() - 1;
            let lines = p.subrange(
                if k > MAX_LOG_LINES {
                    k - MAX_LOG_LINES
                } else {
                    0
                },
                k,
            );
            &&& log_writes_spec(texts) == (lines, p[k])
            &&& shown_lines_spec(log_writes_spec(texts).0, log_writes_spec(texts).1) == if p[k].len()
                > 0 {
                lines.push(p[k])
            } else {
                lines
            }
        }),
{
    lemma_log_writes_flatten(texts);
    lemma_log_write_pieces(texts.flatten());
}

/// Writing texts one after the other is writing them joined.
proof fn lemma_log_writes_flatten(texts: Seq<Seq<char>>)
    ensures
        log_writes_spec(texts) == log_write_spec(Seq::empty(), Seq::empty(), texts.flatten()),
    decreases texts.len(),
{
    if texts.len() > 0 {
        let init = texts.drop_last();
        lemma_log_writes_flatten(init);
        texts.lemma_flatten_and_flatten_alt_are_equivalent();
        init.lemma_flatten_and_flatten_alt_are_equivalent();
        lemma_log_write_concat(Seq::empty(), Seq::empty(), init.flatten(), texts.last());
    } else {
        assert(texts.flatten() =~= Seq::<char>::empty());
    }
}

/// The lines of log output: the completed lines, oldest first, and the line
/// being written.
pub struct LogBufferInner {
    pub lines: VecDeque<String>,
    pub current: String,
}

impl LogBufferInner {
    /// The completed lines, as character sequences.
    pub open spec fn lines_view(&self) -> Seq<Seq<char>> {
        views_of(self.lines@)
    }

    /// The buffer's invariant: it keeps at most `MAX_LOG_LINES` completed
    /// lines.
    pub open spec fn wf(&self) -> bool {
        self.lines@.len() <= MAX_LOG_LINES
    }

    /// An empty buffer.
    pub fn new() -> (b: LogBufferInner)
        ensures
            b.lines_view() == Seq::<Seq<char>>::empty(),
            b.current@ == Seq::<char>::empty(),
            b.wf(),
    {
        let b = LogBufferInner { lines: VecDeque::new(), current: String::new() };
        assert(b.lines_view() =~= Seq::<Seq<char>>::empty());
        b
    }

    /// Writes `text` into the buffer, character after character.
    pub fn write_text(&mut self, text: &str)
        ensures
            (final(self).lines_view(), final(self).current@) == log_write_spec(
                old(self).lines_view(),
                old(self).current@,
                text@,
            ),
            old(self).wf() ==> final(self).wf(),
    {
        let cs = chars_of(text);
        let n = cs.len();
        let mut i: usize = 0;
        while i < n
            invariant
                n == cs@.len(),
                cs@ == text@,
                i <= n,
                (self.lines_view(), self.current@) == log_write_spec(
                    old(self).lines_view(),
                    old(self).current@,
                    text@.take(i as int),
                ),
                old(self).wf() ==> self.wf(),
            decreases n - i,
        {
            let c = cs[i];
            proof {
                assert(text@.take(i + 1).drop_last() =~= text@.take(i as int));
                assert(text@.take(i + 1).last() == c);
            }
            if c == '\n' {
                let mut line = String::new();
                std::mem::swap(&mut line, &mut self.current);
                let ghost before = self.lines@;
                self.lines.push_back(line);
                assert(self.lines_view() =~= views_of(before).push(line@));
                if self.lines.len() > MAX_LOG_LINES {
                    let ghost full = self.lines@;
                    let _ = self.lines.pop_front();
                    assert(self.lines_view() =~= views_of(full).drop_first());
                }
            } else {
                push_char(&mut self.current, c);
            }
            i = i + 1;
        }
        assert(text@.take(n as int) =~= text@);
    }

    /// Writes log output: the bytes are decoded as UTF-8 (invalid sequences
    /// replaced) and written as text; all of them are taken.
    pub fn write(&mut self, buf: &[u8]) -> (n: usize)
        ensures
            n == buf@.len(),
            (final(self).lines_view(), final(self).current@) == log_write_spec(
                old(self).lines_view(),
                old(self).current@,
                utf8_lossy_text(buf@),
            ),
            valid_utf8(buf@) ==> utf8_lossy_text(buf@) == decode_utf8(buf@),
            old(self).wf() ==> final(self).wf(),
    {
        let text = decode_utf8_lossy(buf);
        self.write_text(text.as_str());
        buf.len()
    }

    /// The lines to show: the completed lines, then the current line when
    /// it is not empty.
    pub fn lines(&self) -> (v: Vec<String>)
        ensures
            views_of(v@) == shown_lines_spec(self.lines_view(), self.current@),
    {
        let mut v: Vec<String> = Vec::new();
        let n = self.lines.len();
        let mut i: usize = 0;
        while i < n
            invariant
                n == self.lines@.len(),
                i <= n,
                views_of(v@) == self.lines_view().take(i as int),
            decreases n - i,
        {
            let line = self.lines[i].clone();
            assert(line@ == self.lines_view()[i as int]);
            proof {
                lemma_views_of_push(v@, line);
            }
            v.push(line);
            i = i + 1;
            assert(views_of(v@) =~= self.lines_view().take(i as int));
        }
        assert(self.lines_view().take(n as int) =~= self.lines_view());
        if !self.current.as_str().is_empty() {
            let cur = self.current.clone();
            proof {
                lemma_views_of_push(v@, cur);
            }
            v.push(cur);
        }
        v
    }
}

/// Where `split_once_inclusive_whitespace` cuts `s`: after its first
/// white-space character.
pub open spec fn split_once_inclusive_whitespace_spec(s: Seq<char>) -> Option<
    (Seq<char>, Seq<char>),
> {
    match first_index(s, is_ws()) {
        None => None,
        Some(i) => Some((s.take(i + 1), s.skip(i + 1))),
    }
}

/// Whether `split_once_inclusive_whitespace` can cut `s`: the cut falls
/// one byte after the first white-space character begins, which is a
/// character boundary only when that character is ASCII.
pub open spec fn inclusive_split_defined(s: Seq<char>) -> bool {
    first_index(s, is_ws()) matches Some(i) ==> (s[i] as u32) < 0x80
}

/// Whether `split_once_inclusive_whitespace` can cut `text`.
pub fn inclusive_split_ok(text: &str) -> (b: bool)
    ensures
        b == inclusive_split_defined(text@),
{
    let cs = chars_of(text);
    proof {
        crate::text::lemma_first_index_props(cs@, is_ws());
    }
    match find_whitespace(cs.as_slice()) {
        None => true,
        Some(i) => (cs[i] as u32) < 0x80,
    }
}

/// Splits `text` after its first white-space character, which stays with the
/// first part; `None` when `text` has no white space.
pub fn split_once_inclusive_whitespace(text: &str) -> (r: Option<(&str, &str)>)
    requires
        inclusive_split_defined(text@),
    ensures
        match split_once_inclusive_whitespace_spec(text@) {
            None => r is None,
            Some((a, b)) => r matches Some((x, y)) && x@ == a && y@ == b,
        },
{
    let cs = chars_of(text);
    proof {
        crate::text::lemma_first_index_props(cs@, is_ws());
    }
    match find_whitespace(cs.as_slice()) {
        None => None,
        Some(i) => {
            let n = cs.len();
            let a = text.substring_char(0, i + 1);
            let b = text.substring_char(i + 1, n);
            assert(a@ =~= text@.take(i + 1));
            assert(b@ =~= text@.skip(i + 1));
            Some((a, b))
        },
    }
}

/// Where `split_leading_whitespace` cuts `s`: before its first character
/// that is not white space.
pub open spec fn split_leading_whitespace_spec(s: Seq<char>) -> Option<(Seq<char>, Seq<char>)> {
    match first_index(s, is_not_ws()) {
        None => None,
        Some(i) => Some((s.take(i), s.skip(i))),
    }
}

/// Splits the leading white space off `text`; `None` when `text` has no
/// character other than white space.
pub fn split_leading_whitespace(text: &str) -> (r: Option<(&str, &str)>)
    ensures
        match split_leading_whitespace_spec(text@) {
            None => r is None,
            Some((a, b)) => r matches Some((x, y)) && x@ == a && y@ == b,
        },
{
    let cs = chars_of(text);
    proof {
        crate::text::lemma_first_index_props(cs@, is_not_ws());
    }
    match find_non_whitespace(cs.as_slice()) {
        None => None,
        Some(i) => {
            let n = cs.len();
            let a = text.substring_char(0, i);
            let b = text.substring_char(i, n);
            assert(a@ =~= text@.take(i as int));
            assert(b@ =~= text@.skip(i as int));
            Some((a, b))
        },
    }
}

/// A terminal colour.
#[derive(Clone, Copy, Debug, PartialEq, Eq, Structural)]
pub enum TermColor {
    Black,
    Cyan,
    Red,
    Yellow,
    Green,
    Blue,
    Magenta,
    White,
    DarkGray,
}

/// The colour of a log level name, ignoring surrounding white space.
pub open spec fn level_color_spec(level: Seq<char>) -> TermColor {
    let l = trim_spec(level);
    if l == "ERROR"@ {
        TermColor::Red
    } else if l == "WARN"@ {
        TermColor::Yellow
    } else if l == "INFO"@ {
        TermColor::Green
    } else if l == "DEBUG"@ {
        TermColor::Blue
    } else if l == "TRACE"@ {
        TermColor::Magenta
    } else {
        TermColor::White
    }
}

/// The colour of a log level name, ignoring surrounding white space.
pub fn level_color(level: &str) -> (c: TermColor)
    ensures
        c == level_color_spec(level@),
{
    let l = trim(level);
    if str_eq(l, "ERROR") {
        TermColor::Red
    } else if str_eq(l, "WARN") {
        TermColor::Yellow
    } else if str_eq(l, "INFO") {
        TermColor::Green
    } else if str_eq(l, "DEBUG") {
        TermColor::Blue
    } else if str_eq(l, "TRACE") {
        TermColor::Magenta
    } else {
        TermColor::White
    }
}

/// How a piece of a log line is drawn.
#[derive(Clone, Copy, Debug, PartialEq, Eq, Structural)]
pub enum SpanStyle {
    /// The default style.
    Plain,
    /// Drawn in this foreground colour.
    Colored(TermColor),
}

/// A piece of a log line and how it is drawn.
pub struct LogSpan {
    pub text: String,
    pub style: SpanStyle,
}

/// Whether colouring `line` never cuts a character in two.
pub open spec fn line_spans_defined(line: Seq<char>) -> bool {
    &&& inclusive_split_defined(line)
    &&& split_once_inclusive_whitespace_spec(line) matches Some((_, after)) ==> (
    split_leading_whitespace_spec(after) matches Some((_, rest)) ==> inclusive_split_defined(rest))
}

/// The pieces of a formatted log line (timestamp, padding, level, message)
/// and their styles. A line that cannot be cut that way is drawn whole, or
/// as timestamp and rest.
pub open spec fn line_spans_spec(line: Seq<char>) -> Seq<(Seq<char>, SpanStyle)> {
    match split_once_inclusive_whitespace_spec(line) {
        None => seq![(line, SpanStyle::Colored(TermColor::White))],
        Some((timestamp, after)) => {
            let short = seq![
                (timestamp, SpanStyle::Colored(TermColor::DarkGray)),
                (after, SpanStyle::Colored(TermColor::White)),
            ];
            match split_leading_whitespace_spec(after) {
                None => short,
                Some((padding, rest)) => match split_once_inclusive_whitespace_spec(rest) {
                    None => short,
                    Some((level, message)) => seq![
                        (timestamp, SpanStyle::Colored(TermColor::DarkGray)),
                        (padding, SpanStyle::Plain),
                        (level, SpanStyle::Colored(level_color_spec(level))),
                        (message, SpanStyle::Colored(TermColor::White)),
                    ],
                },
            }
        },
    }
}

/// The pieces of spans as characters and styles.
pub open spec fn spans_view(v: Seq<LogSpan>) -> Seq<(Seq<char>, SpanStyle)> {
    v.map_values(|s: LogSpan| (s.text@, s.style))
}

/// A styled piece of a log line.
fn span(text: &str, style: SpanStyle) -> (s: LogSpan)
    ensures
        s.text@ == text@,
        s.style == style,
{
    LogSpan { text: String::from_str(text), style }
}

/// Whether `line_spans` can colour `line`.
pub fn line_spans_ok(line: &str) -> (b: bool)
    ensures
        b == line_spans_defined(line@),
{
    if !inclusive_split_ok(line) {
        return false;
    }
    match split_once_inclusive_whitespace(line) {
        None => true,
        Some((_, after)) => match split_leading_whitespace(after) {
            None => true,
            Some((_, rest)) => inclusive_split_ok(rest),
        },
    }
}

/// The pieces of a formatted log line and their styles.
pub fn line_spans(line: &str) -> (v: Vec<LogSpan>)
    requires
        line_spans_defined(line@),
    ensures
        spans_view(v@) == line_spans_spec(line@),
{
    let (timestamp, after_timestamp) = match split_once_inclusive_whitespace(line) {
        Some(parts) => parts,
        None => {
            let mut v: Vec<LogSpan> = Vec::new();
            v.push(span(line, SpanStyle::Colored(TermColor::White)));
            assert(spans_view(v@) =~= line_spans_spec(line@));
            return v;
        },
    };
    let mut short: Vec<LogSpan> = Vec::new();
    short.push(span(timestamp, SpanStyle::Colored(TermColor::DarkGray)));
    short.push(span(after_timestamp, SpanStyle::Colored(TermColor::White)));
    let (level_padding, level_and_message) = match split_leading_whitespace(after_timestamp) {
        Some(parts) => parts,
        None => {
            assert(spans_view(short@) =~= line_spans_spec(line@));
            return short;
        },
    };
    let (level, message) = match split_once_inclusive_whitespace(level_and_message) {
        Some(parts) => parts,
        None => {
            assert(spans_view(short@) =~= line_spans_spec(line@));
            return short;
        },
    };
    let mut v: Vec<LogSpan> = Vec::new();
    v.push(span(timestamp, SpanStyle::Colored(TermColor::DarkGray)));
    v.push(span(level_padding, SpanStyle::Plain));
    v.push(span(level, SpanStyle::Colored(level_color(level))));
    v.push(span(message, SpanStyle::Colored(TermColor::White)));
    assert(spans_view(v@) =~= line_spans_spec(line@));
    v
}

} // verus!
