//! Decoding of the flight controller's defmt log frames into log records.
//!
//! The frames come out of a defmt stream decoder, to which the received
//! bytes are handed. Each decoded frame becomes a record with its source
//! location, when the firmware's location table has one; a malformed frame
//! is skipped when the encoding can resynchronise, and ends decoding with an
//! error when it cannot.

use crate::defmt_format::{accepts_table, table_accepted};
use crate::log_line::LogLevel;
use defmt_decoder::{DecodeError, StreamDecoder, Table};
use std::path::Path;
use std::collections::BTreeMap;
use vstd::prelude::*;

verus! {

broadcast use {vstd::std_specs::btree::group_btree_axioms, vstd::laws_cmp::group_laws_cmp};

#[verifier::external_type_specification]
#[verifier::external_body]
pub struct ExTable(Table);

#[verifier::external_type_specification]
#[verifier::external_body]
pub struct ExAnyhowError(anyhow::Error);

/// Where a log statement of the firmware stands in its sources.
pub struct SourceLocation {
    /// The file, relative to the directory the ground station runs in where possible.
    pub file: String,
    pub line: u64,
    pub module: String,
}

/// A source location, by the contents of its strings.
pub struct SourceLocationView {
    pub file: Seq<char>,
    pub line: u64,
    pub module: Seq<char>,
}

impl SourceLocation {
    pub open spec fn view(&self) -> SourceLocationView {
        SourceLocationView { file: self.file@, line: self.line, module: self.module@ }
    }
}

/// A location map, by the contents of its strings.
pub open spec fn locations_view(m: Map<u64, SourceLocation>) -> Map<u64, SourceLocationView> {
    m.map_values(|l: SourceLocation| l.view())
}

/// A frame as the stream decoder yields it.
pub struct FrameRecord {
    /// The index of the log statement in the firmware's table.
    pub index: u64,
    /// The level of the statement, if it has one, by its position in
    /// defmt's order: trace, debug, info, warn, error.
    pub level: Option<u8>,
    /// The formatted message.
    pub message: String,
}

/// One result of asking the stream decoder for a frame.
pub enum DecodeStep {
    Frame(FrameRecord),
    /// More bytes are needed for the next frame.
    UnexpectedEof,
    /// The next frame is not in the expected format.
    Malformed,
}

/// A frame, by the contents of its message.
pub struct FrameRecordView {
    pub index: u64,
    pub level: Option<u8>,
    pub message: Seq<char>,
}

/// A step of the stream decoder, by the contents of its frame.
pub enum DecodeStepView {
    Frame(FrameRecordView),
    UnexpectedEof,
    Malformed,
}

impl FrameRecord {
    pub open spec fn view(&self) -> FrameRecordView {
        FrameRecordView { index: self.index, level: self.level, message: self.message@ }
    }
}

impl DecodeStep {
    pub open spec fn view(&self) -> DecodeStepView {
        match self {
            DecodeStep::Frame(f) => DecodeStepView::Frame(f.view()),
            DecodeStep::UnexpectedEof => DecodeStepView::UnexpectedEof,
            DecodeStep::Malformed => DecodeStepView::Malformed,
        }
    }
}

/// A record to hand to the log.
pub struct LogRecord {
    pub level: LogLevel,
    pub message: String,
    pub file: Option<String>,
    pub line: Option<u32>,
    pub module: Option<String>,
}

/// What decoding produced, in order.
pub enum DecodedEvent {
    /// A frame to log.
    Frame(LogRecord),
    /// A malformed frame was skipped; the host says so.
    SkippedMalformed,
}

/// Why decoding stopped early.
#[derive(Debug, Clone, Copy, PartialEq, Eq, Structural)]
pub enum DefmtDecodeError {
    /// A frame was malformed and the encoding cannot resynchronise.
    MalformedStream,
}

/// The events of one call of `decode`, and how it ended.
pub struct DecodeOutcome {
    pub events: Vec<DecodedEvent>,
    pub result: Result<(), DefmtDecodeError>,
}

/// A log record, by the contents of its strings.
pub struct LogRecordView {
    pub level: LogLevel,
    pub message: Seq<char>,
    pub file: Option<Seq<char>>,
    pub line: Option<u32>,
    pub module: Option<Seq<char>>,
}

pub enum DecodedEventView {
    Frame(LogRecordView),
    SkippedMalformed,
}

impl LogRecord {
    pub open spec fn view(&self) -> LogRecordView {
        LogRecordView {
            level: self.level,
            message: self.message@,
            file: match self.file {
                Some(f) => Some(f@),
                None => None,
            },
            line: self.line,
            module: match self.module {
                Some(m) => Some(m@),
                None => None,
            },
        }
    }
}

impl DecodedEvent {
    pub open spec fn view(&self) -> DecodedEventView {
        match self {
            DecodedEvent::Frame(r) => DecodedEventView::Frame(r.view()),
            DecodedEvent::SkippedMalformed => DecodedEventView::SkippedMalformed,
        }
    }
}

pub open spec fn events_view(events: Seq<DecodedEvent>) -> Seq<DecodedEventView> {
    events.map_values(|e: DecodedEvent| e.view())
}

/// The stream decoder that a defmt table hands out: the raw or the rzCOBS
/// decoder behind a trait object, holding the received bytes it has not
/// decoded yet. It is opaque, and reached only through the functions below.
#[verifier::external_body]
pub struct FrameStream {
    inner: Box<dyn StreamDecoder + Send + Sync + 'static>,
}

/// The bytes the stream decoder holds and has not decoded yet.
pub uninterp spec fn buffered_bytes(stream: FrameStream) -> Seq<u8>;

/// Whether the stream's encoding can skip a malformed frame and carry on.
pub uninterp spec fn stream_recovers(stream: FrameStream) -> bool;

/// The table the stream decodes with, by a JSON text that `serde_json`
/// reads as that table.
pub uninterp spec fn stream_table(stream: FrameStream) -> Seq<char>;

/// Whether the encoding of the table given by a JSON text can skip a
/// malformed frame (`Encoding::can_recover`).
pub uninterp spec fn table_encoding_recovers(table: Seq<char>) -> bool;

/// What the rzCOBS decoder of the table given by its JSON text makes of one
/// frame, the bytes before a zero separator: the frame (its index, level
/// and formatted message) or a malformed frame.
pub uninterp spec fn rzcobs_frame_step(table: Seq<char>, frame: Seq<u8>) -> DecodeStepView;

/// What the raw decoder of the table given by its JSON text makes of the
/// start of its buffer: a frame, a malformed frame, or the need for more
/// bytes.
pub uninterp spec fn raw_frame_step(table: Seq<char>, buffer: Seq<u8>) -> DecodeStepView;

/// How many bytes at the start of its buffer the raw decoder of the table
/// takes for a frame it decodes.
pub uninterp spec fn raw_frame_len(table: Seq<char>, buffer: Seq<u8>) -> int;

/// The bytes after the leading zero bytes.
pub open spec fn drop_leading_zeros(s: Seq<u8>) -> Seq<u8>
    decreases s.len(),
{
    if s.len() > 0 && s[0] == 0 {
        drop_leading_zeros(s.drop_first())
    } else {
        s
    }
}

/// What a stream decoder holds after `data` is handed to it while it held
/// `held`: the data is appended, except that the rzCOBS decoder, when it
/// held nothing, first drops the zero bytes that the data starts with.
pub open spec fn received_buffer(recovers: bool, held: Seq<u8>, data: Seq<u8>) -> Seq<u8> {
    if recovers && held.len() == 0 {
        drop_leading_zeros(data)
    } else {
        held + data
    }
}

/// The position of the first zero byte, or the length when there is none.
pub open spec fn first_zero(s: Seq<u8>) -> int
    decreases s.len(),
{
    if s.len() == 0 || s[0] == 0 {
        0
    } else {
        1 + first_zero(s.drop_first())
    }
}

/// An rzCOBS buffer after its first frame is taken off: what follows the
/// frame's zero separator, without the zero bytes at its start.
pub open spec fn after_frame(s: Seq<u8>) -> Seq<u8> {
    drop_leading_zeros(s.skip(first_zero(s)))
}

/// The frames of an rzCOBS buffer, by their bytes, in order: what stands
/// before each zero separator, a run of zeros counting as one separator.
pub open spec fn frames(s: Seq<u8>) -> Seq<Seq<u8>>
    decreases s.len(),
{
    if first_zero(s) < s.len() {
        proof {
            lemma_after_frame_shorter(s);
        }
        seq![s.take(first_zero(s))] + frames(after_frame(s))
    } else {
        Seq::empty()
    }
}

/// What an rzCOBS buffer holds once every complete frame is taken off.
pub open spec fn leftover(s: Seq<u8>) -> Seq<u8>
    decreases s.len(),
{
    if first_zero(s) < s.len() {
        proof {
            lemma_after_frame_shorter(s);
        }
        leftover(after_frame(s))
    } else {
        s
    }
}

pub proof fn lemma_drop_leading_zeros(s: Seq<u8>)
    ensures
        drop_leading_zeros(s).len() <= s.len(),
        s.len() > 0 && s[0] == 0 ==> drop_leading_zeros(s).len() < s.len(),
        drop_leading_zeros(s).len() == 0 || drop_leading_zeros(s)[0] != 0,
        exists|k: int| 0 <= k <= s.len() && drop_leading_zeros(s) == s.skip(k),
    decreases s.len(),
{
    if s.len() > 0 && s[0] == 0 {
        lemma_drop_leading_zeros(s.drop_first());
        let k = choose|k: int| 0 <= k <= s.drop_first().len() && drop_leading_zeros(s.drop_first()) == s.drop_first().skip(k);
        assert(s.drop_first().skip(k) =~= s.skip(k + 1));
    } else {
        assert(s.skip(0) =~= s);
    }
}

pub proof fn lemma_first_zero(s: Seq<u8>)
    ensures
        0 <= first_zero(s) <= s.len(),
        first_zero(s) < s.len() ==> s[first_zero(s)] == 0,
        forall|i: int| 0 <= i < first_zero(s) ==> s[i] != 0,
        first_zero(s) < s.len() <==> s.contains(0),
    decreases s.len(),
{
    if s.len() > 0 && s[0] != 0 {
        lemma_first_zero(s.drop_first());
        assert forall|i: int| 0 <= i < first_zero(s) implies s[i] != 0 by {
            if i > 0 {
                assert(s[i] == s.drop_first()[i - 1]);
            }
        }
        if s.contains(0) {
            let j = choose|j: int| 0 <= j < s.len() && s[j] == 0;
            assert(s.drop_first()[j - 1] == 0);
        }
        if first_zero(s) < s.len() {
            assert(s[first_zero(s)] == s.drop_first()[first_zero(s.drop_first())]);
        }
    } else if s.len() > 0 {
        assert(s[0] == 0);
    }
}

pub proof fn lemma_after_frame_shorter(s: Seq<u8>)
    requires
        first_zero(s) < s.len(),
    ensures
        after_frame(s).len() < s.len(),
{
    lemma_first_zero(s);
    lemma_drop_leading_zeros(s.skip(first_zero(s)));
}

/// The leading zeros of `a + b`: those of `a`, and those of `b` too when `a`
/// is all zeros.
pub proof fn lemma_drop_leading_zeros_concat(a: Seq<u8>, b: Seq<u8>)
    ensures
        drop_leading_zeros(a + b) == (if drop_leading_zeros(a).len() == 0 {
            drop_leading_zeros(b)
        } else {
            drop_leading_zeros(a) + b
        }),
    decreases a.len(),
{
    if a.len() == 0 {
        assert(a + b =~= b);
    } else if a[0] == 0 {
        lemma_drop_leading_zeros_concat(a.drop_first(), b);
        assert((a + b).drop_first() =~= a.drop_first() + b);
    } else {
        assert((a + b)[0] == a[0]);
    }
}

proof fn lemma_first_zero_concat(r: Seq<u8>, t: Seq<u8>)
    requires
        first_zero(r) < r.len(),
    ensures
        first_zero(r + t) == first_zero(r),
    decreases r.len(),
{
    if r[0] != 0 {
        lemma_first_zero_concat(r.drop_first(), t);
        assert((r + t).drop_first() =~= r.drop_first() + t);
    }
}

/// Receiving twice is receiving the two pieces at once.
proof fn lemma_receive_twice(held: Seq<u8>, a: Seq<u8>, b: Seq<u8>)
    ensures
        received_buffer(true, received_buffer(true, held, a), b) == received_buffer(true, held, a + b),
{
    if held.len() == 0 {
        lemma_drop_leading_zeros_concat(a, b);
    } else {
        assert(held + a + b =~= held + (a + b));
    }
}

/// Taking frames off an rzCOBS buffer before more bytes arrive takes off
/// the same frames, and leaves the same bytes, as taking them off after.
proof fn lemma_frames_then_receive(r: Seq<u8>, t: Seq<u8>)
    ensures
        frames(received_buffer(true, r, t)) == frames(r) + frames(received_buffer(true, leftover(r), t)),
        leftover(received_buffer(true, r, t)) == leftover(received_buffer(true, leftover(r), t)),
    decreases r.len(),
{
    lemma_first_zero(r);
    if first_zero(r) < r.len() {
        let fz = first_zero(r);
        let g = received_buffer(true, r, t);
        assert(g == r + t);
        lemma_first_zero_concat(r, t);
        lemma_after_frame_shorter(r);
        assert((r + t).take(fz) =~= r.take(fz));
        assert((r + t).skip(fz) =~= r.skip(fz) + t);
        lemma_drop_leading_zeros_concat(r.skip(fz), t);
        assert(after_frame(g) == received_buffer(true, after_frame(r), t));
        lemma_frames_then_receive(after_frame(r), t);
        assert(frames(g) == seq![g.take(fz)] + frames(after_frame(g)));
        assert(frames(r) == seq![r.take(fz)] + frames(after_frame(r)));
        assert(frames(g) =~= frames(r) + frames(received_buffer(true, leftover(r), t)));
    } else {
        assert(frames(r) =~= Seq::<Seq<u8>>::empty());
        assert(frames(received_buffer(true, r, t)) =~= frames(r) + frames(received_buffer(true, leftover(r), t)));
    }
}

/// Bytes handed to a decoder that can skip malformed frames in two pieces,
/// with a decoding between them, yield the same frames, in the same order,
/// and leave the same bytes, as the two pieces handed over at once: a frame
/// split across the pieces is kept whole, and none is lost or repeated.
pub proof fn lemma_split_receive(held: Seq<u8>, a: Seq<u8>, b: Seq<u8>)
    ensures
        frames(received_buffer(true, held, a)) + frames(
            received_buffer(true, leftover(received_buffer(true, held, a)), b),
        ) == frames(received_buffer(true, held, a + b)),
        leftover(received_buffer(true, leftover(received_buffer(true, held, a)), b)) == leftover(
            received_buffer(true, held, a + b),
        ),
{
    lemma_receive_twice(held, a, b);
    lemma_frames_then_receive(received_buffer(true, held, a), b);
}

/// Whether `serde_json` reads the text as a defmt `Table`.
pub uninterp spec fn json_describes_table(json: Seq<char>) -> bool;

/// Calls `serde_json::from_str` for a `Table` (kept for the rest of the
/// program), then `Table::new_stream_decoder` and `Encoding::can_recover`
/// on `Table::encoding`: `None` exactly when the text is no table. The
/// table hands out the rzCOBS decoder exactly when its encoding is rzCOBS,
/// which is the encoding that can recover; the returned flag says which.
/// The new decoder holds no bytes, and decodes with the table of the text.
#[verifier::external_body]
fn new_frame_stream(json: &str) -> (r: Option<(FrameStream, bool)>)
    ensures
        r is Some <==> json_describes_table(json@),
        r matches Some(t) ==> {
            &&& stream_recovers(t.0) == t.1
            &&& t.1 == table_encoding_recovers(json@)
            &&& buffered_bytes(t.0) == Seq::<u8>::empty()
            &&& stream_table(t.0) == json@
        },
{
    let table: &'static Table = Box::leak(Box::new(serde_json::from_str::<Table>(json).ok()?));
    Some((FrameStream { inner: table.new_stream_decoder() }, table.encoding().can_recover()))
}

/// Calls `serde_json::to_string` on a table: its JSON text, or `None` when
/// `serde_json` cannot write it (it refuses the struct keys of a table's
/// bitflags). Nothing is stated of the text.
#[verifier::external_body]
fn table_json(table: &Table) -> Option<String> {
    serde_json::to_string(table).ok()
}

/// Calls `StreamDecoder::received`, which stores the bytes for decoding:
/// both decoders append them to what they hold, and the rzCOBS decoder,
/// when it held nothing, first drops the zero bytes they start with.
#[verifier::external_body]
fn stream_received(stream: &mut FrameStream, data: &[u8])
    ensures
        stream_recovers(*final(stream)) == stream_recovers(*old(stream)),
        stream_table(*final(stream)) == stream_table(*old(stream)),
        buffered_bytes(*final(stream)) == received_buffer(
            stream_recovers(*old(stream)),
            buffered_bytes(*old(stream)),
            data@,
        ),
{
    stream.inner.received(data)
}

/// Calls `StreamDecoder::decode` and converts the frame to plain values
/// (`Frame::index`, `Frame::level` as the position of the level in the
/// declaration of `defmt_parser::Level`, `Frame::display_message`). The
/// formatting of the message stops the program on some parameters, which
/// tables that `table_accepted` refuses hold; such tables are left out. How
/// deep formatted values nest is bounded by the frame's bytes, and the
/// program's stack is not considered.
///
/// The rzCOBS decoder needs more bytes exactly when it holds no zero
/// separator; otherwise the step is what it makes of the bytes before the
/// separator, and it takes off those bytes and the zero bytes after them.
/// The raw decoder's step is what it makes of its buffer; it takes a decoded
/// frame (at least its two index bytes) off the front of its buffer and
/// leaves the buffer untouched otherwise.
#[verifier::external_body]
fn stream_next(stream: &mut FrameStream) -> (step: DecodeStep)
    requires
        table_accepted(stream_table(*old(stream))),
    ensures
        stream_recovers(*final(stream)) == stream_recovers(*old(stream)),
        stream_table(*final(stream)) == stream_table(*old(stream)),
        stream_recovers(*old(stream)) ==> (step is UnexpectedEof <==> !buffered_bytes(
            *old(stream),
        ).contains(0u8)),
        stream_recovers(*old(stream)) && !(step is UnexpectedEof) ==> step.view() == rzcobs_frame_step(
            stream_table(*old(stream)),
            buffered_bytes(*old(stream)).take(first_zero(buffered_bytes(*old(stream)))),
        ),
        stream_recovers(*old(stream)) && !(step is UnexpectedEof) ==> buffered_bytes(*final(stream))
            == after_frame(buffered_bytes(*old(stream))),
        !stream_recovers(*old(stream)) ==> step.view() == raw_frame_step(
            stream_table(*old(stream)),
            buffered_bytes(*old(stream)),
        ),
        !stream_recovers(*old(stream)) && step is Frame ==> {
            let len = raw_frame_len(stream_table(*old(stream)), buffered_bytes(*old(stream)));
            &&& 2 <= len <= buffered_bytes(*old(stream)).len()
            &&& buffered_bytes(*final(stream)) == buffered_bytes(*old(stream)).skip(len)
        },
        !stream_recovers(*old(stream)) && !(step is Frame) ==> buffered_bytes(*final(stream))
            == buffered_bytes(*old(stream)),
        step is UnexpectedEof ==> buffered_bytes(*final(stream)) == buffered_bytes(*old(stream)),
        step matches DecodeStep::Frame(f) ==> (f.level matches Some(r) ==> r < 5),
{
    match stream.inner.decode() {
        Ok(frame) => DecodeStep::Frame(FrameRecord {
            index: frame.index(),
            level: frame.level().map(|l| l as u8),
            message: frame.display_message().to_string(),
        }),
        Err(DecodeError::UnexpectedEof) => DecodeStep::UnexpectedEof,
        Err(DecodeError::Malformed) => DecodeStep::Malformed,
    }
}

/// A defmt level, by its position in defmt's order.
pub open spec fn rank_level(rank: u8) -> LogLevel {
    if rank == 0 {
        LogLevel::Trace
    } else if rank == 1 {
        LogLevel::Debug
    } else if rank == 2 {
        LogLevel::Info
    } else if rank == 3 {
        LogLevel::Warn
    } else {
        LogLevel::Error
    }
}

/// The level a record is logged at: the frame's, or info when it has none.
pub open spec fn record_level(level: Option<u8>) -> LogLevel {
    match level {
        Some(r) => rank_level(r),
        None => LogLevel::Info,
    }
}

/// The level a record is logged at: the frame's, or info when it has none.
pub fn log_level_of(level: Option<u8>) -> (l: LogLevel)
    ensures
        l == record_level(level),
{
    match level {
        Some(0) => LogLevel::Trace,
        Some(1) => LogLevel::Debug,
        Some(2) => LogLevel::Info,
        Some(3) => LogLevel::Warn,
        Some(_) => LogLevel::Error,
        None => LogLevel::Info,
    }
}

/// The location table, when it has an entry for every log statement of the
/// firmware (given by their indices); `None` when any is missing.
pub fn complete_locations(indices: &Vec<u64>, locs: BTreeMap<u64, SourceLocation>) -> (r: Option<
    BTreeMap<u64, SourceLocation>,
>)
    ensures
        (forall|i: int| 0 <= i < indices@.len() ==> #[trigger] locs@.contains_key(indices@[i])) ==> (r matches Some(
            m,
        ) && m@ == locs@),
        !(forall|i: int| 0 <= i < indices@.len() ==> #[trigger] locs@.contains_key(indices@[i])) ==> r is None,
{
    for i in 0..indices.len()
        invariant
            forall|j: int| 0 <= j < i ==> #[trigger] locs@.contains_key(indices@[j]),
    {
        if !locs.contains_key(&indices[i]) {
            return None;
        }
    }
    Some(locs)
}

/// Whether `Table::parse` reads the bytes as an ELF file.
pub uninterp spec fn elf_parses(elf: Seq<u8>) -> bool;

/// Whether the ELF file has a `.defmt` section, given that it parses.
pub uninterp spec fn elf_has_defmt_table(elf: Seq<u8>) -> bool;

/// The JSON text `serde_json` writes of the table `Table::parse` makes of
/// the ELF file; `None` when it cannot write it.
pub uninterp spec fn elf_table_json(elf: Seq<u8>) -> Option<Seq<char>>;

/// Whether `Table::get_locations` reads the source locations of that table.
pub uninterp spec fn elf_locations_readable(elf: Seq<u8>) -> bool;

/// The source locations `Table::get_locations` reads: for each log
/// statement, its index, its file (as `Path::display` renders it), its line
/// and its module, in the order the map holds them.
pub uninterp spec fn elf_locations(elf: Seq<u8>) -> Seq<(u64, Seq<char>, u64, Seq<char>)>;

/// The indices of the table's log statements, as `Table::indices` yields
/// them.
pub uninterp spec fn elf_statement_indices(elf: Seq<u8>) -> Seq<u64>;

/// What `Table::parse` finds in an ELF file, as plain values: the table's
/// JSON text, its source locations (or the error of reading them), and the
/// indices of its log statements.
pub type ElfTable = (Option<String>, Result<Vec<(u64, String, u64, String)>, anyhow::Error>, Vec<u64>);

pub open spec fn location_parts_view(v: Seq<(u64, String, u64, String)>) -> Seq<(u64, Seq<char>, u64, Seq<char>)> {
    v.map_values(|p: (u64, String, u64, String)| (p.0, p.1@, p.2, p.3@))
}

pub open spec fn string_option_view(o: Option<String>) -> Option<Seq<char>> {
    match o {
        Some(s) => Some(s@),
        None => None,
    }
}

/// Calls `Table::parse` on the bytes of an ELF file: an error when they do
/// not parse, no table when the file has no `.defmt` section. On the table
/// it finds it calls `serde_json::to_string`, `Table::get_locations` with the
/// same bytes (each location converted to plain values) and `Table::indices`.
/// Each outcome is a function of the bytes alone. The text `serde_json`
/// writes of a table it reads back as that table.
#[verifier::external_body]
fn parse_table(elf: &[u8]) -> (r: Result<Option<ElfTable>, anyhow::Error>)
    ensures
        r is Ok <==> elf_parses(elf@),
        r matches Ok(t) ==> (t is Some <==> elf_has_defmt_table(elf@)),
        r matches Ok(Some(t)) ==> {
            &&& string_option_view(t.0) == elf_table_json(elf@)
            &&& (t.1 is Ok <==> elf_locations_readable(elf@))
            &&& (t.1 matches Ok(v) ==> location_parts_view(v@) == elf_locations(elf@))
            &&& t.2@ == elf_statement_indices(elf@)
            &&& (t.0 matches Some(j) ==> json_describes_table(j@))
        },
{
    let t = match Table::parse(elf)? {
        Some(t) => t,
        None => return Ok(None),
    };
    let locations = t.get_locations(elf).map(|l| {
        l.into_iter().map(|(i, l)| (i, l.file.display().to_string(), l.line, l.module)).collect()
    });
    let indices = t.indices().map(|i| i as u64).collect();
    Ok(Some((serde_json::to_string(&t).ok(), locations, indices)))
}

/// What `Path::strip_prefix` leaves of the path `file` with the directory
/// `dir` as prefix, rendered by `Path::display`; `None` when the file does
/// not lie under the directory.
pub uninterp spec fn path_under(file: Seq<char>, dir: Seq<char>) -> Option<Seq<char>>;

/// Calls `Path::strip_prefix` on the path `file` with the prefix `dir`, and
/// renders what is left with `Path::display`.
#[verifier::external_body]
fn strip_dir(file: &str, dir: &str) -> (r: Option<String>)
    ensures
        string_option_view(r) == path_under(file@, dir@),
{
    Path::new(file).strip_prefix(dir).ok().map(|p| p.display().to_string())
}

/// A statement's file as the log shows it: relative to `dir` when it lies
/// under it, else whole.
pub open spec fn shown_file(file: Seq<char>, dir: Seq<char>) -> Seq<char> {
    match path_under(file, dir) {
        Some(r) => r,
        None => file,
    }
}

/// The location map built from the listed locations, each file shown
/// relative to `dir`; a later entry for an index replaces an earlier one.
pub open spec fn location_map(parts: Seq<(u64, Seq<char>, u64, Seq<char>)>, dir: Seq<char>) -> Map<u64, SourceLocationView>
    decreases parts.len(),
{
    if parts.len() == 0 {
        Map::empty()
    } else {
        let p = parts.last();
        location_map(parts.drop_last(), dir).insert(
            p.0,
            SourceLocationView { file: shown_file(p.1, dir), line: p.2, module: p.3 },
        )
    }
}

/// The locations a decoder keeps: the map, when it has every statement.
pub open spec fn complete_map(indices: Seq<u64>, m: Map<u64, SourceLocationView>) -> Option<Map<u64, SourceLocationView>> {
    if forall|i: int| 0 <= i < indices.len() ==> #[trigger] m.contains_key(indices[i]) {
        Some(m)
    } else {
        None
    }
}

/// Whether no entry after the `j`-th lists the same index.
pub open spec fn last_for_index(parts: Seq<(u64, Seq<char>, u64, Seq<char>)>, j: int) -> bool {
    forall|k: int| j < k < parts.len() ==> #[trigger] parts[k].0 != parts[j].0
}

/// The location map holds exactly the listed indices; for each, the last
/// listed location, with its file shown relative to `dir`, its line and its
/// module.
pub proof fn lemma_location_map_entries(parts: Seq<(u64, Seq<char>, u64, Seq<char>)>, dir: Seq<char>)
    ensures
        forall|k: u64|
            #[trigger] location_map(parts, dir).contains_key(k) <==> exists|j: int|
                0 <= j < parts.len() && #[trigger] parts[j].0 == k,
        forall|j: int|
            0 <= j < parts.len() && #[trigger] last_for_index(parts, j) ==> {
                &&& location_map(parts, dir).contains_key(parts[j].0)
                &&& location_map(parts, dir)[parts[j].0] == SourceLocationView {
                    file: shown_file(parts[j].1, dir),
                    line: parts[j].2,
                    module: parts[j].3,
                }
            },
    decreases parts.len(),
{
    if parts.len() > 0 {
        let init = parts.drop_last();
        lemma_location_map_entries(init, dir);
        let n = parts.len() - 1;
        assert forall|k: u64|
            #[trigger] location_map(parts, dir).contains_key(k) <==> exists|j: int|
                0 <= j < parts.len() && #[trigger] parts[j].0 == k by {
            assert(location_map(parts, dir) == location_map(init, dir).insert(
                parts[n].0,
                SourceLocationView { file: shown_file(parts[n].1, dir), line: parts[n].2, module: parts[n].3 },
            ));
            if location_map(parts, dir).contains_key(k) {
                if k == parts[n].0 {
                    assert(parts[n].0 == k);
                } else {
                    assert(location_map(init, dir).contains_key(k));
                    let j = choose|j: int| 0 <= j < init.len() && #[trigger] init[j].0 == k;
                    assert(init[j] == parts[j]);
                    assert(parts[j].0 == k);
                }
            }
            if exists|j: int| 0 <= j < parts.len() && #[trigger] parts[j].0 == k {
                let j = choose|j: int| 0 <= j < parts.len() && #[trigger] parts[j].0 == k;
                if j < n {
                    assert(init[j].0 == k);
                }
            }
        }
        assert forall|j: int|
            0 <= j < parts.len() && #[trigger] last_for_index(parts, j) implies {
                &&& location_map(parts, dir).contains_key(parts[j].0)
                &&& location_map(parts, dir)[parts[j].0] == SourceLocationView {
                    file: shown_file(parts[j].1, dir),
                    line: parts[j].2,
                    module: parts[j].3,
                }
            } by {
            if j < n {
                assert(parts[n].0 != parts[j].0);
                assert forall|k: int| j < k < init.len() implies #[trigger] init[k].0 != init[j].0 by {
                    assert(parts[k].0 != parts[j].0);
                }
                assert(last_for_index(init, j));
                assert(init[j] == parts[j]);
            }
        }
    }
}

/// The locations are kept exactly when every statement index is listed.
pub proof fn lemma_complete_map_kept(
    indices: Seq<u64>,
    parts: Seq<(u64, Seq<char>, u64, Seq<char>)>,
    dir: Seq<char>,
)
    ensures
        complete_map(indices, location_map(parts, dir)) is Some <==> forall|i: int|
            0 <= i < indices.len() ==> exists|j: int|
                0 <= j < parts.len() && #[trigger] parts[j].0 == #[trigger] indices[i],
        complete_map(indices, location_map(parts, dir)) matches Some(m) ==> m == location_map(parts, dir),
{
    lemma_location_map_entries(parts, dir);
    let lm = location_map(parts, dir);
    if forall|i: int| 0 <= i < indices.len() ==> #[trigger] lm.contains_key(indices[i]) {
        assert forall|i: int| 0 <= i < indices.len() implies exists|j: int|
            0 <= j < parts.len() && #[trigger] parts[j].0 == #[trigger] indices[i] by {
            assert(lm.contains_key(indices[i]));
        }
    } else {
        let w = choose|i: int| 0 <= i < indices.len() && !#[trigger] lm.contains_key(indices[i]);
        if exists|j: int| 0 <= j < parts.len() && #[trigger] parts[j].0 == indices[w] {
            assert(lm.contains_key(indices[w]));
        }
    }
}

/// The locations a decoder made from the ELF file keeps, with files shown
/// relative to `dir`.
pub open spec fn elf_decoder_locations(elf: Seq<u8>, dir: Seq<char>) -> Option<Map<u64, SourceLocationView>> {
    complete_map(elf_statement_indices(elf), location_map(elf_locations(elf), dir))
}

/// Why a decoder could not be made from a firmware file.
pub enum LoadError {
    /// The bytes are not an ELF file the table reader understands.
    InvalidElf(anyhow::Error),
    /// The file has no defmt data.
    NoDefmtData,
    /// The source locations could not be read.
    Locations(anyhow::Error),
    /// The table holds format parameters the host cannot show, or cannot
    /// be written as JSON.
    UnsupportedTable,
}

/// The steps the rzCOBS decoder of `table` takes on the buffer `r`: one for
/// each frame, in order, then the need for more bytes.
pub open spec fn rzcobs_steps(table: Seq<char>, r: Seq<u8>) -> Seq<DecodeStepView> {
    frames(r).map_values(|f: Seq<u8>| rzcobs_frame_step(table, f)).push(DecodeStepView::UnexpectedEof)
}

/// The steps the raw decoder of `table` takes on the buffer `b`: the frames
/// it decodes from the front, then the first step that is not a frame.
pub open spec fn raw_steps(table: Seq<char>, b: Seq<u8>) -> Seq<DecodeStepView>
    decreases b.len(),
{
    let n = raw_frame_len(table, b);
    if raw_frame_step(table, b) is Frame && 2 <= n <= b.len() {
        seq![raw_frame_step(table, b)] + raw_steps(table, b.skip(n))
    } else {
        seq![raw_frame_step(table, b)]
    }
}

/// What the raw decoder of `table` keeps of the buffer `b` after those
/// steps.
pub open spec fn raw_rest(table: Seq<char>, b: Seq<u8>) -> Seq<u8>
    decreases b.len(),
{
    let n = raw_frame_len(table, b);
    if raw_frame_step(table, b) is Frame && 2 <= n <= b.len() {
        raw_rest(table, b.skip(n))
    } else {
        b
    }
}

pub struct DefmtLogDecoder {
    stream_decoder: FrameStream,
    show_skipped_frames: bool,
    locs: Option<BTreeMap<u64, SourceLocation>>,
    can_recover: bool,
}

impl DefmtLogDecoder {
    /// The decoder's encoding can skip malformed frames.
    pub closed spec fn recovers(&self) -> bool {
        self.can_recover
    }

    /// A notice is logged for each skipped frame.
    pub closed spec fn shows_skipped(&self) -> bool {
        self.show_skipped_frames
    }

    /// The source locations of the firmware's log statements, when complete.
    pub closed spec fn locations(&self) -> Option<Map<u64, SourceLocationView>> {
        match self.locs {
            Some(m) => Some(locations_view(m@)),
            None => None,
        }
    }

    /// The received bytes the stream decoder holds and has not decoded yet.
    pub closed spec fn pending(&self) -> Seq<u8> {
        buffered_bytes(self.stream_decoder)
    }

    /// The table the decoder decodes with, by its JSON text.
    pub closed spec fn table(&self) -> Seq<char> {
        stream_table(self.stream_decoder)
    }

    /// The decoder's table is one it accepts, and it recovers exactly when
    /// the table's encoding can.
    pub closed spec fn wf(&self) -> bool {
        &&& self.can_recover == stream_recovers(self.stream_decoder)
        &&& self.can_recover == table_encoding_recovers(stream_table(self.stream_decoder))
        &&& table_accepted(stream_table(self.stream_decoder))
    }

    /// A decoder for the log frames of the firmware whose table the JSON
    /// text describes, with the source locations of its statements when
    /// they are complete. Skipped frames are reported. `None` exactly when
    /// the text is no table or a table the decoder does not accept.
    pub fn from_json(json: &str, locs: Option<BTreeMap<u64, SourceLocation>>) -> (r: Option<Self>)
        ensures
            r is Some <==> json_describes_table(json@) && table_accepted(json@),
            r matches Some(d) ==> {
                &&& d.wf()
                &&& d.shows_skipped()
                &&& d.pending() == Seq::<u8>::empty()
                &&& d.table() == json@
                &&& d.recovers() == table_encoding_recovers(json@)
                &&& d.locations() == (match locs {
                    Some(m) => Some(locations_view(m@)),
                    None => None::<Map<u64, SourceLocationView>>,
                })
            },
    {
        if !accepts_table(json) {
            return None;
        }
        let (stream_decoder, can_recover) = match new_frame_stream(json) {
            Some(t) => t,
            None => return None,
        };
        Some(DefmtLogDecoder { stream_decoder, show_skipped_frames: true, locs, can_recover })
    }

    /// A decoder for the log frames of the firmware that `table` describes,
    /// by way of the table's JSON text (see `from_json`); `None` also when
    /// the table has no JSON text.
    pub fn from_table(table: &'static Table, locs: Option<BTreeMap<u64, SourceLocation>>) -> (r: Option<Self>)
        ensures
            r matches Some(d) ==> {
                &&& d.wf()
                &&& d.shows_skipped()
                &&& d.pending() == Seq::<u8>::empty()
                &&& d.recovers() == table_encoding_recovers(d.table())
                &&& d.locations() == (match locs {
                    Some(m) => Some(locations_view(m@)),
                    None => None::<Map<u64, SourceLocationView>>,
                })
            },
    {
        match table_json(table) {
            Some(json) => Self::from_json(json.as_str(), locs),
            None => None,
        }
    }

    /// A decoder for the log frames of a firmware, from the bytes of its ELF
    /// file: its table, and the source locations of its statements, with
    /// files relative to `current_dir` where they lie under it, kept only
    /// when every statement has one. Fails when the bytes do not parse, when
    /// they hold no defmt table, when the locations cannot be read, or when
    /// the table has no JSON text or is one the decoder does not accept.
    pub fn decoder_from_elf(elf: &[u8], current_dir: &str) -> (r: Result<Self, LoadError>)
        ensures
            !elf_parses(elf@) <==> r matches Err(LoadError::InvalidElf(_)),
            (elf_parses(elf@) && !elf_has_defmt_table(elf@)) <==> r matches Err(LoadError::NoDefmtData),
            (elf_parses(elf@) && elf_has_defmt_table(elf@) && !elf_locations_readable(elf@))
                <==> r matches Err(LoadError::Locations(_)),
            r is Ok <==> {
                &&& elf_parses(elf@)
                &&& elf_has_defmt_table(elf@)
                &&& elf_locations_readable(elf@)
                &&& elf_table_json(elf@) matches Some(j) && table_accepted(j)
            },
            r matches Ok(d) ==> {
                &&& d.wf()
                &&& d.shows_skipped()
                &&& d.pending() == Seq::<u8>::empty()
                &&& Some(d.table()) == elf_table_json(elf@)
                &&& d.recovers() == table_encoding_recovers(d.table())
                &&& d.locations() == elf_decoder_locations(elf@, current_dir@)
            },
            r matches Ok(d) ==> (d.locations() is Some <==> forall|i: int|
                0 <= i < elf_statement_indices(elf@).len() ==> exists|j: int|
                    0 <= j < elf_locations(elf@).len() && #[trigger] elf_locations(elf@)[j].0
                        == #[trigger] elf_statement_indices(elf@)[i]),
            r matches Ok(d) ==> (d.locations() matches Some(m) ==> forall|j: int|
                0 <= j < elf_locations(elf@).len() && #[trigger] last_for_index(elf_locations(elf@), j)
                    ==> {
                    &&& m.contains_key(elf_locations(elf@)[j].0)
                    &&& m[elf_locations(elf@)[j].0] == SourceLocationView {
                        file: shown_file(elf_locations(elf@)[j].1, current_dir@),
                        line: elf_locations(elf@)[j].2,
                        module: elf_locations(elf@)[j].3,
                    }
                }),
    {
        proof {
            lemma_location_map_entries(elf_locations(elf@), current_dir@);
            lemma_complete_map_kept(elf_statement_indices(elf@), elf_locations(elf@), current_dir@);
        }
        let (json, found, indices) = match parse_table(elf) {
            Ok(Some(t)) => t,
            Ok(None) => return Err(LoadError::NoDefmtData),
            Err(e) => return Err(LoadError::InvalidElf(e)),
        };
        let found = match found {
            Ok(found) => found,
            Err(e) => return Err(LoadError::Locations(e)),
        };
        let ghost parts = location_parts_view(found@);
        let mut locs: BTreeMap<u64, SourceLocation> = BTreeMap::new();
        for i in 0..found.len()
            invariant
                parts == location_parts_view(found@),
                locations_view(locs@) == location_map(parts.take(i as int), current_dir@),
        {
            let (idx, file, line, module) = &found[i];
            // the path relative to the working directory, else the full one
            let shown = match strip_dir(file.as_str(), current_dir) {
                Some(relative) => relative,
                None => file.clone(),
            };
            let ghost before = locs@;
            locs.insert(*idx, SourceLocation { file: shown, line: *line, module: module.clone() });
            proof {
                assert(parts.take(i + 1).drop_last() =~= parts.take(i as int));
                assert(locations_view(locs@) =~= location_map(parts.take(i + 1), current_dir@));
            }
        }
        assert(parts.take(parts.len() as int) =~= parts);
        let ghost lm = location_map(parts, current_dir@);
        let ghost full = locs@;
        let locs = complete_locations(&indices, locs);
        proof {
            assert(lm == locations_view(full));
            assert forall|k: u64| #[trigger] lm.contains_key(k) == full.contains_key(k) by {}
            assert(parts == elf_locations(elf@));
            assert(indices@ == elf_statement_indices(elf@));
            let want = elf_decoder_locations(elf@, current_dir@);
            assert(want == complete_map(indices@, lm));
            if forall|i: int| 0 <= i < indices@.len() ==> #[trigger] full.contains_key(indices@[i]) {
                assert(want == Some(lm));
            } else {
                let w = choose|i: int| 0 <= i < indices@.len() && !#[trigger] full.contains_key(indices@[i]);
                assert(!lm.contains_key(indices@[w]));
                assert(!(forall|i: int| 0 <= i < indices@.len() ==> #[trigger] lm.contains_key(indices@[i])));
                assert(want is None);
            }
            assert(want == (match locs {
                Some(m) => Some(locations_view(m@)),
                None => None::<Map<u64, SourceLocationView>>,
            }));
        }
        let json = match json {
            Some(j) => j,
            None => return Err(LoadError::UnsupportedTable),
        };
        match Self::from_json(json.as_str(), locs) {
            Some(d) => Ok(d),
            None => Err(LoadError::UnsupportedTable),
        }
    }

    /// Whether the decoder has the source locations of its statements.
    pub fn locations_complete(&self) -> (b: bool)
        ensures
            b == self.locations() is Some,
    {
        self.locs.is_some()
    }

    /// Whether the stream's encoding can skip malformed frames.
    pub fn can_recover(&self) -> (r: bool)
        ensures
            r == self.recovers(),
    {
        self.can_recover
    }

    /// The record of a frame: its level (info by default), its message, and
    /// the file, line (cut to 32 bits) and module of its statement when the
    /// location table has them.
    pub open spec fn spec_record(&self, f: FrameRecordView) -> LogRecordView {
        let loc = match self.locations() {
            Some(m) => if m.contains_key(f.index) {
                Some(m[f.index])
            } else {
                None
            },
            None => None,
        };
        LogRecordView {
            level: record_level(f.level),
            message: f.message,
            file: match loc {
                Some(l) => Some(l.file),
                None => None,
            },
            line: match loc {
                Some(l) => Some((l.line % 0x1_0000_0000) as u32),
                None => None,
            },
            module: match loc {
                Some(l) => Some(l.module),
                None => None,
            },
        }
    }

    /// Whether a step ends decoding: the stream wants more bytes, or a frame
    /// is malformed and the encoding cannot skip it.
    pub open spec fn stops_at(&self, step: DecodeStepView) -> bool {
        step is UnexpectedEof || (step is Malformed && !self.recovers())
    }

    /// What a step adds to the events.
    pub open spec fn step_events(&self, step: DecodeStepView) -> Seq<DecodedEventView> {
        match step {
            DecodeStepView::Frame(f) => seq![DecodedEventView::Frame(self.spec_record(f))],
            DecodeStepView::Malformed => if self.recovers() && self.shows_skipped() {
                seq![DecodedEventView::SkippedMalformed]
            } else {
                Seq::empty()
            },
            DecodeStepView::UnexpectedEof => Seq::empty(),
        }
    }

    /// The events of a sequence of steps, in order.
    pub open spec fn run_events(&self, steps: Seq<DecodeStepView>) -> Seq<DecodedEventView>
        decreases steps.len(),
    {
        if steps.len() == 0 {
            Seq::empty()
        } else {
            self.run_events(steps.drop_last()) + self.step_events(steps.last())
        }
    }

    /// `steps` is a complete run of `decode`: it ends at the first step
    /// that stops decoding.
    pub open spec fn complete_run(&self, steps: Seq<DecodeStepView>) -> bool {
        &&& steps.len() > 0
        &&& self.stops_at(steps.last())
        &&& forall|i: int| 0 <= i < steps.len() - 1 ==> !self.stops_at(#[trigger] steps[i])
    }

    fn record_of(&self, f: FrameRecord) -> (r: LogRecord)
        ensures
            r.view() == self.spec_record(f.view()),
    {
        let level = log_level_of(f.level);
        let found = match &self.locs {
            Some(m) => m.get(&f.index),
            None => None,
        };
        match found {
            Some(loc) => LogRecord {
                level,
                message: f.message,
                file: Some(loc.file.clone()),
                line: Some((loc.line % 0x1_0000_0000) as u32),
                module: Some(loc.module.clone()),
            },
            None => LogRecord { level, message: f.message, file: None, line: None, module: None },
        }
    }

    /// Takes one step of the stream decoder: appends what it adds to the
    /// events, and says whether decoding stops there and how it ends.
    pub fn on_step(&self, step: DecodeStep, events: &mut Vec<DecodedEvent>) -> (stop: Option<
        Result<(), DefmtDecodeError>,
    >)
        ensures
            events_view(final(events)@) == events_view(old(events)@) + self.step_events(step.view()),
            stop is Some <==> self.stops_at(step.view()),
            stop == Some(Err::<(), DefmtDecodeError>(DefmtDecodeError::MalformedStream)) <==> (
            step is Malformed && !self.recovers()),
            stop == Some(Ok::<(), DefmtDecodeError>(())) <==> step is UnexpectedEof,
    {
        let ghost before = events@;
        let ghost sv = step.view();
        match step {
            DecodeStep::Frame(f) => {
                let r = self.record_of(f);
                events.push(DecodedEvent::Frame(r));
                assert(events_view(events@) =~= events_view(before) + self.step_events(sv));
                None
            },
            DecodeStep::UnexpectedEof => {
                assert(events_view(events@) =~= events_view(before) + self.step_events(sv));
                Some(Ok(()))
            },
            DecodeStep::Malformed => {
                if !self.can_recover {
                    assert(events_view(events@) =~= events_view(before) + self.step_events(sv));
                    return Some(Err(DefmtDecodeError::MalformedStream));
                }
                if self.show_skipped_frames {
                    events.push(DecodedEvent::SkippedMalformed);
                }
                assert(events_view(events@) =~= events_view(before) + self.step_events(sv));
                None
            },
        }
    }

    /// Hands the received bytes to the stream decoder and decodes every
    /// frame it can. A decoder that can skip malformed frames logs the
    /// record of each frame it holds, or a notice for each malformed one, in
    /// order, never fails, and keeps only the bytes after the last frame,
    /// which hold no separator. A decoder that cannot skip logs the records
    /// of the frames at the front of what it holds, fails when the next one
    /// is malformed, and keeps the bytes from there on.
    pub fn decode(&mut self, buf: &[u8]) -> (out: DecodeOutcome)
        requires
            old(self).wf(),
        ensures
            final(self).wf(),
            final(self).recovers() == old(self).recovers(),
            final(self).shows_skipped() == old(self).shows_skipped(),
            final(self).locations() == old(self).locations(),
            final(self).table() == old(self).table(),
            old(self).recovers() ==> {
                let r = received_buffer(true, old(self).pending(), buf@);
                &&& events_view(out.events@) == old(self).run_events(rzcobs_steps(old(self).table(), r))
                &&& out.result is Ok
                &&& final(self).pending() == leftover(r)
                &&& !final(self).pending().contains(0u8)
            },
            !old(self).recovers() ==> {
                let r = received_buffer(false, old(self).pending(), buf@);
                &&& events_view(out.events@) == old(self).run_events(raw_steps(old(self).table(), r))
                &&& (out.result is Err <==> raw_steps(old(self).table(), r).last() is Malformed)
                &&& final(self).pending() == raw_rest(old(self).table(), r)
            },
    {
        let ghost rec = self.can_recover;
        let ghost t = stream_table(self.stream_decoder);
        let ghost received = received_buffer(rec, buffered_bytes(self.stream_decoder), buf@);
        stream_received(&mut self.stream_decoder, buf);
        let mut events: Vec<DecodedEvent> = Vec::new();
        let ghost mut steps: Seq<DecodeStepView> = Seq::empty();
        proof {
            assert(steps + frames(received).map_values(|f: Seq<u8>| rzcobs_frame_step(t, f))
                =~= frames(received).map_values(|f: Seq<u8>| rzcobs_frame_step(t, f)));
            assert(steps + raw_steps(t, received) =~= raw_steps(t, received));
        }
        let result;
        loop
            invariant_except_break
                self.wf(),
                self.can_recover == old(self).can_recover,
                self.show_skipped_frames == old(self).show_skipped_frames,
                self.locs == old(self).locs,
                rec == old(self).can_recover,
                t == stream_table(self.stream_decoder),
                t == old(self).table(),
                received == received_buffer(rec, old(self).pending(), buf@),
                events_view(events@) == old(self).run_events(steps),
                rec ==> leftover(buffered_bytes(self.stream_decoder)) == leftover(received),
                rec ==> steps + frames(buffered_bytes(self.stream_decoder)).map_values(
                    |f: Seq<u8>| rzcobs_frame_step(t, f),
                ) == frames(received).map_values(|f: Seq<u8>| rzcobs_frame_step(t, f)),
                !rec ==> steps + raw_steps(t, buffered_bytes(self.stream_decoder)) == raw_steps(
                    t,
                    received,
                ),
                !rec ==> raw_rest(t, buffered_bytes(self.stream_decoder)) == raw_rest(t, received),
            ensures
                self.wf(),
                self.can_recover == old(self).can_recover,
                self.show_skipped_frames == old(self).show_skipped_frames,
                self.locs == old(self).locs,
                t == stream_table(self.stream_decoder),
                events_view(events@) == old(self).run_events(steps),
                rec ==> steps == rzcobs_steps(t, received),
                rec ==> result is Ok,
                rec ==> buffered_bytes(self.stream_decoder) == leftover(received),
                rec ==> !buffered_bytes(self.stream_decoder).contains(0u8),
                !rec ==> steps == raw_steps(t, received),
                !rec ==> (result is Err <==> steps.last() is Malformed),
                !rec ==> buffered_bytes(self.stream_decoder) == raw_rest(t, received),
            decreases buffered_bytes(self.stream_decoder).len(),
        {
            let ghost cur = buffered_bytes(self.stream_decoder);
            let step = stream_next(&mut self.stream_decoder);
            let ghost sv = step.view();
            let ghost prev = steps;
            let ghost next = buffered_bytes(self.stream_decoder);
            proof {
                steps = steps.push(sv);
                assert(steps.drop_last() =~= prev);
                lemma_first_zero(cur);
                if rec {
                    let g = |f: Seq<u8>| rzcobs_frame_step(t, f);
                    if !(step is UnexpectedEof) {
                        lemma_after_frame_shorter(cur);
                        assert(frames(cur) == seq![cur.take(first_zero(cur))] + frames(next));
                        assert(frames(cur).map_values(g) =~= seq![sv] + frames(next).map_values(g));
                        assert(steps + frames(next).map_values(g) =~= prev + frames(cur).map_values(g));
                        assert(leftover(cur) == leftover(next));
                    } else {
                        assert(frames(cur) == Seq::<Seq<u8>>::empty());
                        assert(frames(cur).map_values(g) =~= Seq::<DecodeStepView>::empty());
                        assert(prev =~= frames(received).map_values(g));
                        assert(leftover(cur) == cur);
                    }
                } else {
                    if step is Frame {
                        assert(raw_steps(t, cur) == seq![sv] + raw_steps(t, next));
                        assert(steps + raw_steps(t, next) =~= prev + raw_steps(t, cur));
                    } else {
                        assert(raw_steps(t, cur) == seq![sv]);
                        assert(raw_rest(t, cur) == cur);
                        assert(prev + seq![sv] =~= steps);
                    }
                }
            }
            let stop = self.on_step(step, &mut events);
            match stop {
                Some(r) => {
                    result = r;
                    break ;
                },
                None => {},
            }
        }
        DecodeOutcome { events, result }
    }
}

/// A run of decoding that meets a malformed frame goes on past it exactly
/// when the encoding can resynchronise: an error ends every run of a decoder
/// that cannot, and never one of a decoder that can.
pub proof fn lemma_error_only_without_recovery(d: DefmtLogDecoder, steps: Seq<DecodeStepView>)
    requires
        d.complete_run(steps),
    ensures
        steps.last() is Malformed ==> !d.recovers(),
        d.recovers() ==> steps.last() is UnexpectedEof,
{
}

/// Every frame of a run is logged, in order: the records of a run are the
/// records of its frames.
pub proof fn lemma_frames_logged_in_order(d: DefmtLogDecoder, steps: Seq<DecodeStepView>, f: FrameRecordView)
    ensures
        d.run_events(steps.push(DecodeStepView::Frame(f))) == d.run_events(steps).push(
            DecodedEventView::Frame(d.spec_record(f)),
        ),
{
    assert(steps.push(DecodeStepView::Frame(f)).drop_last() =~= steps);
}

/// The events of two runs one after the other are those of each, in order.
pub proof fn lemma_run_events_concat(d: DefmtLogDecoder, a: Seq<DecodeStepView>, b: Seq<DecodeStepView>)
    ensures
        d.run_events(a + b) == d.run_events(a) + d.run_events(b),
    decreases b.len(),
{
    if b.len() == 0 {
        assert(a + b =~= a);
        assert(d.run_events(a) + d.run_events(b) =~= d.run_events(a));
    } else {
        lemma_run_events_concat(d, a, b.drop_last());
        assert((a + b).drop_last() =~= a + b.drop_last());
        assert(d.run_events(a + b) =~= d.run_events(a) + d.run_events(b));
    }
}

/// Bytes split across two calls of `decode` are logged as in one call: for
/// a decoder that can skip malformed frames, the records of the frames
/// received in two parts, each decoded on arrival, are those of the frames
/// of both parts received at once.
pub proof fn lemma_split_receive_records(
    d: DefmtLogDecoder,
    table: Seq<char>,
    held: Seq<u8>,
    a: Seq<u8>,
    b: Seq<u8>,
)
    ensures
        ({
            let first = received_buffer(true, held, a);
            let second = received_buffer(true, leftover(first), b);
            d.run_events(rzcobs_steps(table, first)) + d.run_events(rzcobs_steps(table, second))
                == d.run_events(rzcobs_steps(table, received_buffer(true, held, a + b)))
        }),
{
    let first = received_buffer(true, held, a);
    let second = received_buffer(true, leftover(first), b);
    let whole = received_buffer(true, held, a + b);
    let g = |f: Seq<u8>| rzcobs_frame_step(table, f);
    lemma_split_receive(held, a, b);
    let fa = frames(first).map_values(g);
    let fb = frames(second).map_values(g);
    assert(frames(whole).map_values(g) =~= fa + fb);
    let eof = seq![DecodeStepView::UnexpectedEof];
    assert(rzcobs_steps(table, first) =~= fa + eof);
    assert(rzcobs_steps(table, second) =~= fb + eof);
    assert(rzcobs_steps(table, whole) =~= (fa + fb) + eof);
    lemma_run_events_concat(d, fa, eof);
    lemma_run_events_concat(d, fb, eof);
    lemma_run_events_concat(d, fa + fb, eof);
    lemma_run_events_concat(d, fa, fb);
    assert(eof.drop_last() =~= Seq::<DecodeStepView>::empty());
    assert(d.run_events(Seq::<DecodeStepView>::empty()) == Seq::<DecodedEventView>::empty());
    assert(d.step_events(DecodeStepView::UnexpectedEof) == Seq::<DecodedEventView>::empty());
    assert(d.run_events(eof) == d.run_events(eof.drop_last()) + d.step_events(eof.last()));
    assert(d.run_events(eof) =~= Seq::<DecodedEventView>::empty());
}

/// Decoders with the same encoding, notice setting and locations log the
/// same events for the same steps.
pub proof fn lemma_run_events_same(d1: DefmtLogDecoder, d2: DefmtLogDecoder, steps: Seq<DecodeStepView>)
    requires
        d1.recovers() == d2.recovers(),
        d1.shows_skipped() == d2.shows_skipped(),
        d1.locations() == d2.locations(),
    ensures
        d1.run_events(steps) == d2.run_events(steps),
    decreases steps.len(),
{
    if steps.len() > 0 {
        lemma_run_events_same(d1, d2, steps.drop_last());
    }
}

/// Two decoders made alike (such as two fresh decoders from the same ELF
/// file and working directory) log the same records for bytes that one
/// receives in two calls of `decode` as the other logs for all of them in
/// one call, when the encoding can skip malformed frames.
pub proof fn lemma_split_decoding_matches_whole(
    d1: DefmtLogDecoder,
    d2: DefmtLogDecoder,
    a: Seq<u8>,
    b: Seq<u8>,
)
    requires
        d1.recovers(),
        d1.recovers() == d2.recovers(),
        d1.shows_skipped() == d2.shows_skipped(),
        d1.locations() == d2.locations(),
        d1.table() == d2.table(),
        d1.pending() == d2.pending(),
    ensures
        ({
            let first = received_buffer(true, d1.pending(), a);
            d1.run_events(rzcobs_steps(d1.table(), first)) + d1.run_events(
                rzcobs_steps(d1.table(), received_buffer(true, leftover(first), b)),
            ) == d2.run_events(rzcobs_steps(d2.table(), received_buffer(true, d2.pending(), a + b)))
        }),
{
    lemma_split_receive_records(d1, d1.table(), d1.pending(), a, b);
    lemma_run_events_same(
        d1,
        d2,
        rzcobs_steps(d1.table(), received_buffer(true, d1.pending(), a + b)),
    );
}

/// A frame's record is at the frame's own level (trace, debug, info, warn,
/// error by its position, info when it has none), carries its message, and
/// carries the file, line (cut to 32 bits) and module of its statement when
/// the decoder has them, and none otherwise.
pub proof fn lemma_record_of_frame(d: DefmtLogDecoder, f: FrameRecordView)
    ensures
        f.level == Some(0u8) ==> d.spec_record(f).level == LogLevel::Trace,
        f.level == Some(1u8) ==> d.spec_record(f).level == LogLevel::Debug,
        f.level == Some(2u8) ==> d.spec_record(f).level == LogLevel::Info,
        f.level == Some(3u8) ==> d.spec_record(f).level == LogLevel::Warn,
        f.level == Some(4u8) ==> d.spec_record(f).level == LogLevel::Error,
        f.level is None ==> d.spec_record(f).level == LogLevel::Info,
        d.spec_record(f).message == f.message,
        d.locations() is Some && d.locations()->0.contains_key(f.index) ==> {
            &&& d.spec_record(f).file == Some(d.locations()->0[f.index].file)
            &&& d.spec_record(f).line == Some((d.locations()->0[f.index].line % 0x1_0000_0000) as u32)
            &&& d.spec_record(f).module == Some(d.locations()->0[f.index].module)
        },
        !(d.locations() is Some && d.locations()->0.contains_key(f.index)) ==> {
            &&& d.spec_record(f).file is None
            &&& d.spec_record(f).line is None
            &&& d.spec_record(f).module is None
        },
{
}

} // verus!
