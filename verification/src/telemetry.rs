//! Messages between the ground station and the flight controller, their size
//! limits, and what the ground station shows of the flight controller's.

use crate::text::{decimal, push_decimal};
use vstd::prelude::*;
use vstd::string::*;
use vstd::utf8::{encode_utf8, is_char_boundary};

verus! {

/// Largest payload of a command packet sent to the flight controller.
pub const MAX_FC_INPUT_PAYLOAD: usize = 32;

/// Largest packet sent by the flight controller.
pub const MAX_FC_OUTPUT_PACKET: usize = 128;

/// Room for the text of a log line (two bytes go to the variant tag).
pub const STRING_LOG_CAPACITY: usize = 126;

/// Room for the bytes of a defmt log frame.
pub const DEFMT_LOG_CAPACITY: usize = 126;

/// Room for the source file of a panic.
pub const PANIC_FILE_CAPACITY: usize = 40;

/// Room for the message of a panic.
pub const PANIC_MESSAGE_CAPACITY: usize = 82;

/// How many trailing bytes of a panicking source file's path are reported.
pub const PANIC_FILE_TAIL: usize = 24;

/// A message from the flight controller.
pub enum FcOutput {
    /// A plain text log line.
    StringLog(String),
    /// An encoded defmt log frame.
    DefmtLog(Vec<u8>),
    /// The flight controller panicked.
    Panic { file: String, line: u16, col: u16, message: String },
}

/// Number of UTF-8 bytes of a text.
pub open spec fn utf8_len(s: Seq<char>) -> nat {
    encode_utf8(s).len()
}

impl FcOutput {
    /// The message fits the fixed-size fields it is sent in.
    pub open spec fn wf(&self) -> bool {
        match self {
            FcOutput::StringLog(s) => utf8_len(s@) <= STRING_LOG_CAPACITY,
            FcOutput::DefmtLog(b) => b@.len() <= DEFMT_LOG_CAPACITY,
            FcOutput::Panic { file, message, .. } => {
                &&& utf8_len(file@) <= PANIC_FILE_CAPACITY
                &&& utf8_len(message@) <= PANIC_MESSAGE_CAPACITY
            },
        }
    }
}

/// What the ground station does with a message of the flight controller.
pub enum TelemetryAction {
    /// Show this line in the log pane.
    ShowLog(String),
    /// Hand these bytes to the defmt decoder.
    DecodeDefmt(Vec<u8>),
}

/// `FC: <text>`
pub open spec fn spec_string_log_line(text: Seq<char>) -> Seq<char> {
    "FC: "@ + text
}

/// `FLIGHT CONTROLLER PANICKED: <file> <line>:<col> <message>`
pub open spec fn spec_panic_line(file: Seq<char>, line: u16, col: u16, message: Seq<char>) -> Seq<char> {
    "FLIGHT CONTROLLER PANICKED: "@ + file + seq![' '] + decimal(line as nat) + seq![':']
        + decimal(col as nat) + seq![' '] + message
}

/// Routes a message: text and panics become log lines, defmt frames go to
/// the decoder.
pub fn route_telemetry(msg: FcOutput) -> (action: TelemetryAction)
    ensures
        match msg {
            FcOutput::StringLog(s) => action matches TelemetryAction::ShowLog(l) && l@
                == spec_string_log_line(s@),
            FcOutput::DefmtLog(b) => action matches TelemetryAction::DecodeDefmt(d) && d@ == b@,
            FcOutput::Panic { file, line, col, message } => action matches TelemetryAction::ShowLog(l)
                && l@ == spec_panic_line(file@, line, col, message@),
        },
{
    match msg {
        FcOutput::StringLog(s) => {
            let mut l = String::new();
            l.append("FC: ");
            l.append(s.as_str());
            assert(l@ =~= spec_string_log_line(s@));
            TelemetryAction::ShowLog(l)
        },
        FcOutput::DefmtLog(b) => TelemetryAction::DecodeDefmt(b),
        FcOutput::Panic { file, line, col, message } => {
            let mut l = String::new();
            proof {
                reveal_strlit(" ");
                reveal_strlit(":");
            }
            l.append("FLIGHT CONTROLLER PANICKED: ");
            l.append(file.as_str());
            l.append(" ");
            push_decimal(&mut l, line as u64);
            l.append(":");
            push_decimal(&mut l, col as u64);
            l.append(" ");
            l.append(message.as_str());
            assert(l@ =~= spec_panic_line(file@, line, col, message@));
            TelemetryAction::ShowLog(l)
        },
    }
}

/// Wraps the bytes of a defmt frame in a message. A frame longer than the
/// field it travels in is a fault of the firmware, so it is not accepted.
pub fn defmt_log_output(bytes: &[u8]) -> (out: FcOutput)
    requires
        bytes@.len() <= DEFMT_LOG_CAPACITY,
    ensures
        out matches FcOutput::DefmtLog(b) && b@ == bytes@,
        out.wf(),
{
    let mut b: Vec<u8> = Vec::new();
    for i in 0..bytes.len()
        invariant
            b@ == bytes@.take(i as int),
    {
        b.push(bytes[i]);
        assert(b@ =~= bytes@.take(i + 1));
    }
    assert(b@ =~= bytes@);
    FcOutput::DefmtLog(b)
}

/// The byte offset from which a panicking file's path is reported: the last
/// `PANIC_FILE_TAIL` bytes, or the whole path when it is shorter.
pub open spec fn panic_file_start(file: &str) -> int {
    if file.spec_bytes().len() > PANIC_FILE_TAIL {
        file.spec_bytes().len() - PANIC_FILE_TAIL
    } else {
        0
    }
}

/// The reported tail of a panicking file's path. The path is cut at a byte
/// offset, which must fall between two characters.
pub fn panic_file_tail(file: &str) -> (tail: &str)
    requires
        file.spec_bytes().len() <= usize::MAX,
        is_char_boundary(file.spec_bytes(), panic_file_start(file)),
    ensures
        tail.spec_bytes() == file.spec_bytes().skip(panic_file_start(file)),
        tail.spec_bytes().len() <= PANIC_FILE_TAIL,
{
    let start = file.len().saturating_sub(PANIC_FILE_TAIL);
    let (_, tail) = file.split_at(start);
    assert(file.spec_bytes().subrange(start as int, file.spec_bytes().len() as int)
        =~= file.spec_bytes().skip(start as int));
    tail
}

/// UTF-8 length adds up over concatenation.
pub proof fn lemma_utf8_len_concat(a: Seq<char>, b: Seq<char>)
    ensures
        encode_utf8(a + b) == encode_utf8(a) + encode_utf8(b),
        utf8_len(a + b) == utf8_len(a) + utf8_len(b),
    decreases a.len(),
{
    if a.len() == 0 {
        assert(a + b =~= b);
        assert(encode_utf8(a) =~= Seq::<u8>::empty());
        assert(encode_utf8(a) + encode_utf8(b) =~= encode_utf8(b));
    } else {
        lemma_utf8_len_concat(a.drop_first(), b);
        assert((a + b).drop_first() =~= a.drop_first() + b);
        assert((a + b)[0] == a[0]);
        assert(encode_utf8(a + b) =~= encode_utf8(a) + encode_utf8(b));
    }
}

/// The text written piece by piece into a field with room for `room` UTF-8
/// bytes: each piece that fits what is left is written, and writing stops at
/// the first piece that does not.
pub open spec fn fitting_pieces(pieces: Seq<Seq<char>>, room: int) -> Seq<char>
    decreases pieces.len(),
{
    if pieces.len() == 0 {
        Seq::empty()
    } else if utf8_len(pieces[0]) <= room {
        pieces[0] + fitting_pieces(pieces.drop_first(), room - utf8_len(pieces[0]))
    } else {
        Seq::empty()
    }
}

pub open spec fn pieces_view(pieces: Seq<&str>) -> Seq<Seq<char>> {
    pieces.map_values(|p: &str| p@)
}

proof fn lemma_fitting_pieces_step(pieces: Seq<Seq<char>>, k: int, room: int)
    requires
        0 <= k < pieces.len(),
    ensures
        fitting_pieces(pieces.skip(k), room) == (if utf8_len(pieces[k]) <= room {
            pieces[k] + fitting_pieces(pieces.skip(k + 1), room - utf8_len(pieces[k]))
        } else {
            Seq::empty()
        }),
{
    assert(pieces.skip(k).drop_first() =~= pieces.skip(k + 1));
    assert(pieces.skip(k)[0] == pieces[k]);
}

proof fn lemma_fitting_pieces_len(pieces: Seq<Seq<char>>, room: int)
    ensures
        room >= 0 ==> utf8_len(fitting_pieces(pieces, room)) <= room,
    decreases pieces.len(),
{
    if pieces.len() > 0 && utf8_len(pieces[0]) <= room {
        lemma_fitting_pieces_len(pieces.drop_first(), room - utf8_len(pieces[0]));
        lemma_utf8_len_concat(pieces[0], fitting_pieces(pieces.drop_first(), room - utf8_len(pieces[0])));
    } else {
        assert(encode_utf8(Seq::<char>::empty()) =~= Seq::<u8>::empty());
    }
}

/// The text of a panic message as its field receives it: the pieces that
/// fit, in order, up to the first that does not.
pub fn fit_panic_message(pieces: &Vec<&str>) -> (m: String)
    ensures
        m@ == fitting_pieces(pieces_view(pieces@), PANIC_MESSAGE_CAPACITY as int),
        utf8_len(m@) <= PANIC_MESSAGE_CAPACITY,
{
    let ghost all = pieces_view(pieces@);
    let mut m = String::new();
    let mut room: usize = PANIC_MESSAGE_CAPACITY;
    let mut i: usize = 0;
    proof {
        assert(all.skip(0) =~= all);
    }
    loop
        invariant_except_break
            all == pieces_view(pieces@),
            i <= pieces@.len(),
            room <= PANIC_MESSAGE_CAPACITY,
            m@ + fitting_pieces(all.skip(i as int), room as int) == fitting_pieces(all, PANIC_MESSAGE_CAPACITY as int),
            utf8_len(m@) + room == PANIC_MESSAGE_CAPACITY,
        ensures
            m@ == fitting_pieces(all, PANIC_MESSAGE_CAPACITY as int),
        decreases pieces@.len() - i,
    {
        if i == pieces.len() {
            proof {
                assert(all.skip(i as int) =~= Seq::<Seq<char>>::empty());
                assert(m@ + Seq::<char>::empty() =~= m@);
            }
            break;
        }
        let p = pieces[i];
        proof {
            lemma_fitting_pieces_step(all, i as int, room as int);
            assert(all[i as int] == p@);
        }
        let n = p.as_bytes().len();
        if n <= room {
            let ghost before = m@;
            m.append(p);
            proof {
                lemma_utf8_len_concat(before, p@);
                assert(before + (p@ + fitting_pieces(all.skip(i + 1), room - n)) =~= m@ + fitting_pieces(all.skip(i + 1), room - n));
            }
            room = room - n;
            i = i + 1;
        } else {
            proof {
                assert(m@ + Seq::<char>::empty() =~= m@);
            }
            break;
        }
    }
    proof {
        lemma_fitting_pieces_len(all, PANIC_MESSAGE_CAPACITY as int);
    }
    m
}

/// The message that reports a panic: the tail of the file's path and the
/// line and column, each cut to 16 bits, or an empty file and zeros when the
/// location is unknown; and the pieces of the message text that fit its
/// field, up to the first that does not.
pub fn panic_output(location: Option<(&str, u32, u32)>, message_pieces: &Vec<&str>) -> (out: FcOutput)
    requires
        location matches Some((file, _, _)) ==> file.spec_bytes().len() <= usize::MAX
            && is_char_boundary(file.spec_bytes(), panic_file_start(file)),
    ensures
        out.wf(),
        out matches FcOutput::Panic { file: f, line: l, col: c, message: m } && m@ == fitting_pieces(
            pieces_view(message_pieces@),
            PANIC_MESSAGE_CAPACITY as int,
        ) && match location {
            Some((file, line, col)) => {
                &&& encode_utf8(f@) == file.spec_bytes().skip(panic_file_start(file))
                &&& l == line % 65536
                &&& c == col % 65536
            },
            None => f@.len() == 0 && l == 0 && c == 0,
        },
{
    let message = fit_panic_message(message_pieces);
    match location {
        Some((file, line, col)) => {
            let tail = panic_file_tail(file);
            let f = tail.to_owned();
            FcOutput::Panic {
                file: f,
                line: (line % 65536) as u16,
                col: (col % 65536) as u16,
                message,
            }
        },
        None => {
            proof {
                assert(encode_utf8(Seq::<char>::empty()) =~= Seq::<u8>::empty());
            }
            FcOutput::Panic { file: String::new(), line: 0, col: 0, message }
        },
    }
}

} // verus!
