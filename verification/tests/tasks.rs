use plane_core::async_stats::MAX_ASYNC_TASKS;
use plane_core::defmt_log::{DecodedEvent, DefmtLogDecoder};
use plane_core::tasks::{LogEncoder, SpawnError, Spawner, set_spawner};

#[test]
fn spawned_tasks_are_named() {
    let mut s: Spawner<&str> = Spawner::new();
    assert!(!s.is_named(7));
    assert_eq!(s.task_name(7, "<unknown>"), "<unknown>");
    assert_eq!(s.spawn(7, "radio"), Ok(()));
    assert!(s.is_named(7));
    assert_eq!(s.task_name(7, "<unknown>"), "radio");
    assert_eq!(s.spawn(7, "radio again"), Ok(()));
    assert_eq!(s.task_name(7, "<unknown>"), "radio again");
}

#[test]
fn spawning_past_capacity_is_busy() {
    let mut s: Spawner<u32> = Spawner::new();
    for id in 0..MAX_ASYNC_TASKS as u32 {
        assert_eq!(s.spawn(id, id * 10), Ok(()));
    }
    assert_eq!(s.spawn(100, 1000), Err(SpawnError::Busy));
    assert!(!s.is_named(100));
    // a task that is already named can be named again when full
    assert_eq!(s.spawn(3, 33), Ok(()));
    assert_eq!(s.task_name(3, 0), 33);
    assert_eq!(s.task_name(4, 0), 40);
}

#[test]
fn encoder_writes_one_frame_per_lock() {
    let mut e: LogEncoder<u8> = LogEncoder::new();
    set_spawner(&mut e, 5);
    let start = e.acquire();
    // the first frame is preceded by a separator
    assert_eq!(start, vec![0]);
    let body = e.write(&[0, 0]);
    assert!(body.is_empty());
    let end = e.release();
    assert_eq!(end, vec![0x7f, 0]);
    // later frames are not
    assert!(e.acquire().is_empty());
    let body = e.write(&[1, 2]);
    assert_eq!(body, vec![1, 2]);
    assert_eq!(e.release(), vec![0x7c, 0]);
}

#[test]
fn encoded_frame_is_received_whole() {
    let json = r#"{"timestamp":null,"entries":{"0":{"string":{"tag":"Info","string":"hello"},"raw_symbol":"a"}},"bitflags":{},"encoding":"Rzcobs"}"#;
    let table: &'static defmt_decoder::Table = Box::leak(Box::new(serde_json::from_str(json).unwrap()));
    let mut e: LogEncoder<u8> = LogEncoder::new();
    let mut bytes = e.acquire();
    bytes.extend(e.write(&[0, 0]));
    bytes.extend(e.release());
    let mut d = DefmtLogDecoder::from_table(table, None).unwrap();
    let out = d.decode(&bytes);
    assert_eq!(out.result, Ok(()));
    assert_eq!(out.events.len(), 1);
    match &out.events[0] {
        DecodedEvent::Frame(r) => assert_eq!(r.message, "hello"),
        DecodedEvent::SkippedMalformed => panic!("expected a frame"),
    }
}
