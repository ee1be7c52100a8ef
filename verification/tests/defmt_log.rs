use plane_core::defmt_format::accepts_table;
use plane_core::defmt_log::{DecodeStep, FrameRecord, LoadError, DecodedEvent, DefmtDecodeError, DefmtLogDecoder, LogRecord, SourceLocation};
use plane_core::log_line::LogLevel;
use std::collections::BTreeMap;

fn table(encoding: &str) -> &'static defmt_decoder::Table {
    let json = format!(
        r#"{{"timestamp":null,"entries":{{"0":{{"string":{{"tag":"Info","string":"hello"}},"raw_symbol":"a"}},"1":{{"string":{{"tag":"Println","string":"plain"}},"raw_symbol":"b"}},"2":{{"string":{{"tag":"Error","string":"boom"}},"raw_symbol":"c"}}}},"bitflags":{{}},"encoding":"{}"}}"#,
        encoding
    );
    Box::leak(Box::new(serde_json::from_str(&json).unwrap()))
}

fn locations() -> BTreeMap<u64, SourceLocation> {
    let mut m = BTreeMap::new();
    m.insert(
        0,
        SourceLocation { file: "src/main.rs".to_string(), line: 42, module: "flight_controller".to_string() },
    );
    m.insert(2, SourceLocation { file: "src/pwm.rs".to_string(), line: (1u64 << 32) + 7, module: "pwm".to_string() });
    m
}

fn frame(e: &DecodedEvent) -> &LogRecord {
    match e {
        DecodedEvent::Frame(r) => r,
        DecodedEvent::SkippedMalformed => panic!("expected a frame"),
    }
}

#[test]
fn raw_frames_decode_with_locations() {
    let mut d = DefmtLogDecoder::from_table(table("Raw"), Some(locations())).unwrap();
    assert!(!d.can_recover());
    let out = d.decode(&[0, 0, 1, 0, 2, 0]);
    assert_eq!(out.result, Ok(()));
    assert_eq!(out.events.len(), 3);
    let a = frame(&out.events[0]);
    assert_eq!(a.level, LogLevel::Info);
    assert_eq!(a.message, "hello");
    assert_eq!(a.file.as_deref(), Some("src/main.rs"));
    assert_eq!(a.line, Some(42));
    assert_eq!(a.module.as_deref(), Some("flight_controller"));
    let b = frame(&out.events[1]);
    // no level: logged at info; no location known
    assert_eq!(b.level, LogLevel::Info);
    assert_eq!(b.message, "plain");
    assert_eq!(b.file, None);
    assert_eq!(b.line, None);
    assert_eq!(b.module, None);
    let c = frame(&out.events[2]);
    assert_eq!(c.level, LogLevel::Error);
    // the line is cut to 32 bits
    assert_eq!(c.line, Some(7));
}

#[test]
fn raw_partial_frame_waits_for_more_bytes() {
    let mut d = DefmtLogDecoder::from_table(table("Raw"), None).unwrap();
    let out = d.decode(&[0]);
    assert_eq!(out.result, Ok(()));
    assert_eq!(out.events.len(), 0);
    let out = d.decode(&[0]);
    assert_eq!(out.events.len(), 1);
    assert_eq!(frame(&out.events[0]).message, "hello");
    assert_eq!(frame(&out.events[0]).file, None);
}

#[test]
fn raw_malformed_frame_is_an_error() {
    let mut d = DefmtLogDecoder::from_table(table("Raw"), None).unwrap();
    let out = d.decode(&[0, 0, 9, 0]);
    assert_eq!(out.events.len(), 1);
    assert_eq!(out.result, Err(DefmtDecodeError::MalformedStream));
}

#[test]
fn rzcobs_malformed_frame_is_skipped() {
    let mut d = DefmtLogDecoder::from_table(table("Rzcobs"), None).unwrap();
    assert!(d.can_recover());
    // a frame, a malformed frame, another frame
    let out = d.decode(&[0x7f, 0x00, 0x05, 0x00, 0x7f, 0x00]);
    assert_eq!(out.result, Ok(()));
    assert_eq!(out.events.len(), 3);
    assert_eq!(frame(&out.events[0]).message, "hello");
    assert!(matches!(out.events[1], DecodedEvent::SkippedMalformed));
    assert_eq!(frame(&out.events[2]).message, "hello");
}

#[test]
fn level_defaults_to_info() {
    assert_eq!(plane_core::defmt_log::log_level_of(None), LogLevel::Info);
    assert_eq!(plane_core::defmt_log::log_level_of(Some(0)), LogLevel::Trace);
    assert_eq!(plane_core::defmt_log::log_level_of(Some(1)), LogLevel::Debug);
    assert_eq!(plane_core::defmt_log::log_level_of(Some(2)), LogLevel::Info);
    assert_eq!(plane_core::defmt_log::log_level_of(Some(3)), LogLevel::Warn);
    assert_eq!(plane_core::defmt_log::log_level_of(Some(4)), LogLevel::Error);
}

#[test]
fn locations_kept_only_when_complete() {
    let locs = locations();
    let kept = plane_core::defmt_log::complete_locations(&vec![0, 2], locs);
    assert_eq!(kept.map(|m| m.len()), Some(2));
    let dropped = plane_core::defmt_log::complete_locations(&vec![0, 1, 2], locations());
    assert!(dropped.is_none());
    let empty = plane_core::defmt_log::complete_locations(&vec![], BTreeMap::new());
    assert!(empty.is_some());
}

#[test]
fn one_step_at_a_time() {
    let d = DefmtLogDecoder::from_table(table("Raw"), Some(locations())).unwrap();
    let mut events = Vec::new();
    let stop = d.on_step(
        DecodeStep::Frame(FrameRecord { index: 0, level: Some(2), message: "hello".to_string() }),
        &mut events,
    );
    assert_eq!(stop, None);
    assert_eq!(events.len(), 1);
    assert_eq!(frame(&events[0]).file.as_deref(), Some("src/main.rs"));
    assert_eq!(d.on_step(DecodeStep::UnexpectedEof, &mut events), Some(Ok(())));
    assert_eq!(d.on_step(DecodeStep::Malformed, &mut events), Some(Err(DefmtDecodeError::MalformedStream)));
    assert_eq!(events.len(), 1);

    let r = DefmtLogDecoder::from_table(table("Rzcobs"), None).unwrap();
    let mut events = Vec::new();
    assert_eq!(r.on_step(DecodeStep::Malformed, &mut events), None);
    assert_eq!(events.len(), 1);
    assert!(matches!(events[0], DecodedEvent::SkippedMalformed));
}

#[test]
fn bytes_that_are_no_elf_file_are_refused() {
    let r = DefmtLogDecoder::decoder_from_elf(&[1, 2, 3, 4], ".");
    assert!(matches!(r, Err(LoadError::InvalidElf(_))));
}

#[test]
fn a_frame_split_across_two_calls_decodes_as_in_one() {
    let messages = |outs: Vec<plane_core::defmt_log::DecodeOutcome>| -> Vec<String> {
        outs.into_iter().flat_map(|o| o.events).map(|e| frame(&e).message.clone()).collect()
    };
    let mut split = DefmtLogDecoder::from_table(table("Rzcobs"), None).unwrap();
    let first = split.decode(&[0x7f]);
    assert_eq!(first.events.len(), 0);
    let second = split.decode(&[0x00, 0x7f, 0x00]);
    let mut whole = DefmtLogDecoder::from_table(table("Rzcobs"), None).unwrap();
    let once = whole.decode(&[0x7f, 0x00, 0x7f, 0x00]);
    assert_eq!(messages(vec![first, second]), messages(vec![once]));
}

fn table_with(format: &str) -> &'static defmt_decoder::Table {
    let json = format!(
        r#"{{"timestamp":null,"entries":{{"0":{{"string":{{"tag":"Info","string":"{}"}},"raw_symbol":"a"}}}},"bitflags":{{}},"encoding":"Rzcobs"}}"#,
        format
    );
    Box::leak(Box::new(serde_json::from_str(&json).unwrap()))
}

#[test]
fn tables_the_host_cannot_show_are_refused() {
    assert!(DefmtLogDecoder::from_table(table_with("x = {=isize:x}"), None).is_none());
    assert!(DefmtLogDecoder::from_table(table_with("t = {=u64:iso8601ms}"), None).is_none());
    assert!(DefmtLogDecoder::from_table(table_with("s = {=[?]}"), None).is_none());
    assert!(DefmtLogDecoder::from_table(table_with("x = {=isize}"), None).is_some());
    assert!(DefmtLogDecoder::from_table(table_with("x = {=i32:x}"), None).is_some());
    assert!(DefmtLogDecoder::from_table(table_with("A({=u8})|B({=isize:x})"), None).is_none());
}

#[test]
fn accepted_tables_by_json() {
    let ok = r#"{"timestamp":null,"entries":{"0":{"string":{"tag":"Info","string":"v = {=u8:x}"},"raw_symbol":"a"}},"bitflags":{},"encoding":"Raw"}"#;
    assert!(accepts_table(ok));
    let nested = r#"{"timestamp":null,"entries":{"0":{"string":{"tag":"Info","string":"v = {=?:x}"},"raw_symbol":"a"},"1":{"string":{"tag":"Derived","string":"{=isize}"},"raw_symbol":"b"}},"bitflags":{},"encoding":"Raw"}"#;
    assert!(!accepts_table(nested));
    assert!(!accepts_table("not json"));
}

#[test]
fn decoder_from_json_text() {
    let ok = r#"{"timestamp":null,"entries":{"0":{"string":{"tag":"Info","string":"hello"},"raw_symbol":"a"}},"bitflags":{},"encoding":"Rzcobs"}"#;
    let mut d = DefmtLogDecoder::from_json(ok, None).unwrap();
    assert!(d.can_recover());
    assert!(!d.locations_complete());
    let out = d.decode(&[0x7f, 0x00]);
    assert_eq!(out.events.len(), 1);
    assert_eq!(frame(&out.events[0]).message, "hello");
    assert!(DefmtLogDecoder::from_json("not json", None).is_none());
    let refused = r#"{"timestamp":null,"entries":{"0":{"string":{"tag":"Info","string":"{=isize:x}"},"raw_symbol":"a"}},"bitflags":{},"encoding":"Raw"}"#;
    assert!(DefmtLogDecoder::from_json(refused, None).is_none());
}
