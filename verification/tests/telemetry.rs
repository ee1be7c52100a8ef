use plane_core::telemetry::{
    defmt_log_output, fit_panic_message, panic_file_tail, panic_output, route_telemetry, FcOutput, TelemetryAction,
    DEFMT_LOG_CAPACITY, MAX_FC_INPUT_PAYLOAD, MAX_FC_OUTPUT_PACKET,
};

#[test]
fn limits() {
    assert_eq!(MAX_FC_INPUT_PAYLOAD, 32);
    assert_eq!(MAX_FC_OUTPUT_PACKET, 128);
    assert_eq!(DEFMT_LOG_CAPACITY, MAX_FC_OUTPUT_PACKET - 2);
}

#[test]
fn string_logs_are_shown_with_prefix() {
    match route_telemetry(FcOutput::StringLog("[ERROR] test log".to_string())) {
        TelemetryAction::ShowLog(l) => assert_eq!(l, "FC: [ERROR] test log"),
        TelemetryAction::DecodeDefmt(_) => panic!(),
    }
}

#[test]
fn panics_are_shown_with_location() {
    let msg = FcOutput::Panic { file: "src/main.rs".to_string(), line: 120, col: 9, message: "oops".to_string() };
    match route_telemetry(msg) {
        TelemetryAction::ShowLog(l) => assert_eq!(l, "FLIGHT CONTROLLER PANICKED: src/main.rs 120:9 oops"),
        TelemetryAction::DecodeDefmt(_) => panic!(),
    }
}

#[test]
fn defmt_frames_go_to_the_decoder() {
    match route_telemetry(FcOutput::DefmtLog(vec![1, 2, 3])) {
        TelemetryAction::DecodeDefmt(b) => assert_eq!(b, vec![1, 2, 3]),
        TelemetryAction::ShowLog(_) => panic!(),
    }
    match defmt_log_output(&[4, 5]) {
        FcOutput::DefmtLog(b) => assert_eq!(b, vec![4, 5]),
        _ => panic!(),
    }
}

#[test]
fn panic_file_keeps_last_24_bytes() {
    assert_eq!(panic_file_tail("src/main.rs"), "src/main.rs");
    let long = "flight-controller/src/panic_handler.rs";
    assert_eq!(panic_file_tail(long), "ler/src/panic_handler.rs");
    assert_eq!(panic_file_tail(long).len(), 24);
}

#[test]
fn panic_report_fields() {
    match panic_output(Some(("a/b.rs", 70_000, 3)), &vec!["bad"]) {
        FcOutput::Panic { file, line, col, message } => {
            assert_eq!(file, "a/b.rs");
            assert_eq!(line, (70_000u32 % 65536) as u16);
            assert_eq!(col, 3);
            assert_eq!(message, "bad");
        }
        _ => panic!(),
    }
    match panic_output(None, &vec![]) {
        FcOutput::Panic { file, line, col, message } => {
            assert_eq!(file, "");
            assert_eq!((line, col), (0, 0));
            assert_eq!(message, "");
        }
        _ => panic!(),
    }
}

#[test]
fn panic_message_keeps_leading_pieces_that_fit() {
    let a = "a".repeat(50);
    let b = "b".repeat(40);
    // the second piece overflows: writing stops there, the third is not written
    assert_eq!(fit_panic_message(&vec![a.as_str(), b.as_str(), "c"]), a);
    let b = "b".repeat(32);
    assert_eq!(fit_panic_message(&vec![a.as_str(), b.as_str(), "c"]), format!("{a}{b}"));
    assert_eq!(fit_panic_message(&vec!["x", "y"]), "xy");
    // a multi-byte character counts by its bytes
    let e = "é".repeat(41);
    assert_eq!(fit_panic_message(&vec![e.as_str()]), e);
    assert_eq!(fit_panic_message(&vec![e.as_str(), "z"]), e);
}
