//! How the ground station renders a log record: as coloured segments for
//! the log pane, and as a plain line for the log file.

use crate::text::{decimal, push_decimal};
use vstd::prelude::*;
use vstd::std_specs::iter::IteratorSpec;
use vstd::string::*;

verus! {

/// The level of a log record, from the least to the most verbose in the
/// order `Error`, `Warn`, `Info`, `Debug`, `Trace`.
#[derive(Debug, Clone, Copy, PartialEq, Eq, Structural)]
pub enum LogLevel {
    Trace,
    Debug,
    Info,
    Warn,
    Error,
}

/// Colours of the log pane.
#[derive(Debug, Clone, Copy, PartialEq, Eq, Structural)]
pub enum LogColor {
    Red,
    Yellow,
    Green,
    Blue,
    Cyan,
    DarkGray,
}

/// How a segment of a line is drawn.
#[derive(Debug, Clone, Copy, PartialEq, Eq, Structural)]
pub enum SegmentStyle {
    Plain,
    Colored(LogColor),
}

/// A piece of a rendered line.
pub struct LogSegment {
    pub text: String,
    pub style: SegmentStyle,
}

/// Records up to info are shown; debug and trace are not.
pub open spec fn spec_log_enabled(level: LogLevel) -> bool {
    level is Error || level is Warn || level is Info
}

/// Whether a record of this level is shown.
pub fn log_enabled(level: LogLevel) -> (b: bool)
    ensures
        b == spec_log_enabled(level),
{
    match level {
        LogLevel::Error | LogLevel::Warn | LogLevel::Info => true,
        LogLevel::Debug | LogLevel::Trace => false,
    }
}

pub open spec fn spec_level_color(level: LogLevel) -> LogColor {
    match level {
        LogLevel::Error => LogColor::Red,
        LogLevel::Warn => LogColor::Yellow,
        LogLevel::Info => LogColor::Green,
        LogLevel::Debug => LogColor::Blue,
        LogLevel::Trace => LogColor::Cyan,
    }
}

/// The colour of a level's label.
pub fn level_color(level: LogLevel) -> (c: LogColor)
    ensures
        c == spec_level_color(level),
{
    match level {
        LogLevel::Error => LogColor::Red,
        LogLevel::Warn => LogColor::Yellow,
        LogLevel::Info => LogColor::Green,
        LogLevel::Debug => LogColor::Blue,
        LogLevel::Trace => LogColor::Cyan,
    }
}

/// The name of a level, padded to five characters.
pub open spec fn spec_level_label(level: LogLevel) -> Seq<char> {
    match level {
        LogLevel::Error => "ERROR"@,
        LogLevel::Warn => "WARN "@,
        LogLevel::Info => "INFO "@,
        LogLevel::Debug => "DEBUG"@,
        LogLevel::Trace => "TRACE"@,
    }
}

/// The name of a level, padded to five characters.
pub fn level_label(level: LogLevel) -> (s: &'static str)
    ensures
        s@ == spec_level_label(level),
{
    match level {
        LogLevel::Error => "ERROR",
        LogLevel::Warn => "WARN ",
        LogLevel::Info => "INFO ",
        LogLevel::Debug => "DEBUG",
        LogLevel::Trace => "TRACE",
    }
}

/// A segment as text and style.
pub open spec fn seg(text: Seq<char>, style: SegmentStyle) -> (Seq<char>, SegmentStyle) {
    (text, style)
}

pub open spec fn segments_view(segs: Seq<LogSegment>) -> Seq<(Seq<char>, SegmentStyle)> {
    segs.map_values(|s: LogSegment| (s.text@, s.style))
}

/// `[<timestamp> <LEVEL> <module> ] <message>`, where the brackets are
/// subtle, the level is in its colour, and an empty module leaves a single
/// space.
pub open spec fn spec_log_line_segments(
    timestamp: Seq<char>,
    level: LogLevel,
    module: Seq<char>,
    message: Seq<char>,
) -> Seq<(Seq<char>, SegmentStyle)> {
    let subtle = SegmentStyle::Colored(LogColor::DarkGray);
    seq![
        seg("["@, subtle),
        seg(timestamp + seq![' '], SegmentStyle::Plain),
        seg(spec_level_label(level), SegmentStyle::Colored(spec_level_color(level))),
        seg(
            if module.len() == 0 {
                seq![' ']
            } else {
                seq![' '] + module + seq![' ']
            },
            SegmentStyle::Plain,
        ),
        seg("]"@, subtle),
        seg(seq![' '], SegmentStyle::Plain),
        seg(message, SegmentStyle::Plain),
    ]
}

fn segment(text: String, style: SegmentStyle) -> (s: LogSegment)
    ensures
        s.text@ == text@,
        s.style == style,
{
    LogSegment { text, style }
}

fn owned(s: &str) -> (r: String)
    ensures
        r@ == s@,
{
    s.to_owned()
}

/// The segments of a record's line in the log pane.
pub fn log_line_segments(timestamp: &str, level: LogLevel, module: &str, message: &str) -> (segs: Vec<LogSegment>)
    ensures
        segments_view(segs@) == spec_log_line_segments(timestamp@, level, module@, message@),
{
    proof {
        reveal_strlit(" ");
    }
    let subtle = SegmentStyle::Colored(LogColor::DarkGray);
    let mut segs: Vec<LogSegment> = Vec::new();
    segs.push(segment(owned("["), subtle));
    let mut ts = owned(timestamp);
    ts.append(" ");
    segs.push(segment(ts, SegmentStyle::Plain));
    segs.push(segment(owned(level_label(level)), SegmentStyle::Colored(level_color(level))));
    if module.is_empty() {
        segs.push(segment(owned(" "), SegmentStyle::Plain));
    } else {
        let mut m = owned(" ");
        m.append(module);
        m.append(" ");
        segs.push(segment(m, SegmentStyle::Plain));
    }
    segs.push(segment(owned("]"), subtle));
    segs.push(segment(owned(" "), SegmentStyle::Plain));
    segs.push(segment(owned(message), SegmentStyle::Plain));
    assert(segments_view(segs@) =~~= spec_log_line_segments(timestamp@, level, module@, message@));
    segs
}

/// The text of a line: its segments, one after the other.
pub open spec fn segments_text(segs: Seq<(Seq<char>, SegmentStyle)>) -> Seq<char>
    decreases segs.len(),
{
    if segs.len() == 0 {
        Seq::empty()
    } else {
        segments_text(segs.drop_last()) + segs.last().0
    }
}

/// The text of a line: its segments, one after the other.
pub fn line_text(segs: &Vec<LogSegment>) -> (s: String)
    ensures
        s@ == segments_text(segments_view(segs@)),
{
    let mut s = String::new();
    for i in 0..segs.len()
        invariant
            s@ == segments_text(segments_view(segs@.take(i as int))),
    {
        s.append(segs[i].text.as_str());
        assert(segments_view(segs@.take(i + 1)).drop_last() =~= segments_view(segs@.take(i as int)));
    }
    assert(segs@.take(segs@.len() as int) =~= segs@);
    s
}

/// The seconds since start as `<seconds>.<milliseconds, three digits>s`.
pub open spec fn spec_elapsed_label(secs: u64, millis: u32) -> Seq<char> {
    decimal(secs as nat) + seq!['.'] + crate::text::three_digits(millis as nat) + seq!['s']
}

/// The seconds since start as `<seconds>.<milliseconds, three digits>s`.
pub fn elapsed_label(secs: u64, millis: u32) -> (s: String)
    requires
        millis < 1000,
    ensures
        s@ == spec_elapsed_label(secs, millis),
{
    proof {
        reveal_strlit(".");
        reveal_strlit("s");
    }
    let mut s = String::new();
    push_decimal(&mut s, secs);
    s.append(".");
    crate::text::push_three_digits(&mut s, millis as u64);
    s.append("s");
    assert(s@ =~= spec_elapsed_label(secs, millis));
    s
}

/// Width of the source-file column of the log file.
pub const FILE_COLUMN_WIDTH: usize = 24;

/// `n` spaces.
pub open spec fn spaces(n: nat) -> Seq<char> {
    Seq::new(n, |i: int| ' ')
}

/// A line of the log file: the source file right-aligned in its column
/// (`<unknown>` when not known), the source line (0 when not known), and the
/// line's text.
pub open spec fn spec_file_log_line(file: Seq<char>, line: u32, text: Seq<char>) -> Seq<char> {
    let pad = if file.len() < FILE_COLUMN_WIDTH {
        (FILE_COLUMN_WIDTH - file.len()) as nat
    } else {
        0
    };
    spaces(pad) + file + seq![':'] + decimal(line as nat) + ":  "@ + text + seq!['\n']
}

/// A line of the log file.
pub fn file_log_line(src_file: Option<&str>, src_line: Option<u32>, text: &str) -> (s: String)
    ensures
        s@ == spec_file_log_line(
            match src_file {
                Some(f) => f@,
                None => "<unknown>"@,
            },
            match src_line {
                Some(l) => l,
                None => 0,
            },
            text@,
        ),
{
    proof {
        reveal_strlit(" ");
        reveal_strlit(":");
        reveal_strlit("\n");
    }
    let file = match src_file {
        Some(f) => f,
        None => "<unknown>",
    };
    let line = match src_line {
        Some(l) => l,
        None => 0,
    };
    let n = char_count_capped(file, FILE_COLUMN_WIDTH);
    let mut s = String::new();
    let mut i = n;
    while i < FILE_COLUMN_WIDTH
        invariant
            n == (if file@.len() < FILE_COLUMN_WIDTH { file@.len() } else { FILE_COLUMN_WIDTH as nat }),
            n <= i <= FILE_COLUMN_WIDTH,
            s@ == spaces((i - n) as nat),
        decreases FILE_COLUMN_WIDTH - i,
    {
        proof {
            reveal_strlit(" ");
        }
        s.append(" ");
        i = i + 1;
        assert(s@ =~= spaces((i - n) as nat));
    }
    s.append(file);
    s.append(":");
    push_decimal(&mut s, line as u64);
    s.append(":  ");
    s.append(text);
    s.append("\n");
    assert(s@ =~= spec_file_log_line(file@, line, text@));
    s
}

/// The number of characters of a text, counted up to `cap`.
fn char_count_capped(s: &str, cap: usize) -> (n: usize)
    ensures
        n == (if s@.len() < cap { s@.len() } else { cap as nat }),
{
    broadcast use vstd::string::axiom_spec_iter, vstd::string::next_postcondition;

    let mut n: usize = 0;
    let mut chars = s.chars();
    loop
        invariant_except_break
            n <= cap,
            n + chars.remaining().len() == s@.len(),
        ensures
            n == (if s@.len() < cap { s@.len() } else { cap as nat }),
        decreases cap - n,
    {
        if n == cap {
            break;
        }
        match chars.next() {
            Some(_) => n = n + 1,
            None => break,
        }
    }
    n
}

} // verus!
