use rtio_runtime::analyzer::{thread, worker, AnalyzerEngine};
use rtio_runtime::sched::{Connection, IoError};

fn patterned(n: usize) -> Vec<u8> {
    (0..n).map(|i| (i % 256) as u8).collect()
}

fn engine_with(data: Vec<u8>, count: u64, overflow: bool) -> AnalyzerEngine {
    let mut engine = AnalyzerEngine::new(data.len());
    engine.buffer.data = data;
    engine.regs.byte_count = count;
    engine.regs.overflow = overflow;
    engine
}

#[test]
fn scenario_small_capture() {
    // 1024-byte buffer, 500 bytes captured: no wraparound.
    let data = patterned(1024);
    let engine = engine_with(data.clone(), 500, false);
    let mut conn = Connection::new();
    let r = worker(&engine, 10, &mut conn);
    assert!(r.is_ok());

    // Header: count 500, sent 500, overflow false, channel 10, compat true.
    let header = &conn.sent[..15];
    assert_eq!(header[..8], [0, 0, 0, 0, 0, 0, 1, 244]);
    assert_eq!(header[8..12], [0, 0, 1, 244]);
    assert_eq!(header[12], 0);
    assert_eq!(header[13], 10);
    assert_eq!(header[14], 1);

    // Payload: exactly the first 500 bytes of the buffer.
    assert_eq!(conn.sent.len(), 15 + 500);
    assert_eq!(&conn.sent[15..], &data[..500]);
}

#[test]
fn scenario_wrapped_capture() {
    // 1024-byte buffer, 1300 bytes captured: wrapped, pointer = 276.
    let data = patterned(1024);
    let engine = engine_with(data.clone(), 1300, false);
    let mut conn = Connection::new();
    let r = worker(&engine, 0, &mut conn);
    assert!(r.is_ok());

    // Header: count 1300, sent truncated to the buffer size 1024.
    let header = &conn.sent[..15];
    assert_eq!(header[..8], [0, 0, 0, 0, 0, 0, 5, 20]);
    assert_eq!(header[8..12], [0, 0, 4, 0]);

    // Payload: buffer[276..1024] then buffer[0..276], oldest first.
    assert_eq!(conn.sent.len(), 15 + 1024);
    let mut expected = data[276..].to_vec();
    expected.extend_from_slice(&data[..276]);
    assert_eq!(&conn.sent[15..], &expected[..]);
}

#[test]
fn sent_bytes_is_min_of_count_and_size() {
    // Below, at, and beyond the buffer size the header's sent-byte field is
    // min(count, size).
    for (count, expected_sent) in [(0u64, 0u32), (7, 7), (1024, 1024), (5000, 1024)] {
        let engine = engine_with(patterned(1024), count, false);
        let mut conn = Connection::new();
        worker(&engine, 0, &mut conn).unwrap();
        let sent = u32::from_be_bytes(conn.sent[8..12].try_into().unwrap());
        assert_eq!(sent, expected_sent);
        assert_eq!(conn.sent.len() - 15, expected_sent as usize);
    }
}

#[test]
fn overflow_latch_is_reported() {
    let engine = engine_with(patterned(64), 10, true);
    let mut conn = Connection::new();
    worker(&engine, 3, &mut conn).unwrap();
    assert_eq!(conn.sent[12], 1);
}

#[test]
fn header_precedes_payload_and_goes_whole() {
    // A peer that takes fewer bytes than a header gets nothing at all.
    let engine = engine_with(patterned(64), 10, false);
    let mut conn = Connection::with_limit(7);
    let r = worker(&engine, 0, &mut conn);
    assert_eq!(r, Err(IoError::ConnectionLost));
    assert!(conn.sent.is_empty());
}

#[test]
fn write_failure_mid_payload_rearms_cleanly() {
    // Scenario: the peer dies after the header and 100 payload bytes.
    let data = patterned(1024);
    let mut engine = engine_with(data.clone(), 500, false);
    engine.regs.enabled = true;
    let mut failing = Connection::with_limit(15 + 100);
    let r = thread(&mut engine, 10, &mut failing);
    assert_eq!(r, Err(IoError::ConnectionLost));
    // Whatever went out is a clean prefix of the dump: the whole header, no
    // partial write.
    assert_eq!(failing.sent.len(), 15);

    // The engine rearmed: enabled, fresh count, overflow latch cleared.
    assert!(engine.regs.enabled);
    assert_eq!(engine.regs.byte_count, 0);
    assert!(!engine.regs.overflow);
    assert_eq!(engine.buffer.data, data);

    // The next client is served an intact dump of the fresh cycle.
    let mut next = Connection::new();
    let r2 = thread(&mut engine, 10, &mut next);
    assert!(r2.is_ok());
    assert_eq!(next.sent.len(), 15);
    assert_eq!(u32::from_be_bytes(next.sent[8..12].try_into().unwrap()), 0);
    assert!(engine.regs.enabled);
}

#[test]
fn capture_then_dump_round_trip() {
    // One lap or less: the dump payload is exactly the captured stream.
    let mut engine = AnalyzerEngine::new(32);
    engine.arm();
    let events: Vec<u8> = (0..20).map(|i| (i * 3) as u8).collect();
    engine.capture(&events);
    engine.disarm();
    assert_eq!(engine.regs.byte_count, 20);
    let mut conn = Connection::new();
    worker(&engine, 0, &mut conn).unwrap();
    assert_eq!(&conn.sent[15..], &events[..]);
}

#[test]
fn capture_beyond_capacity_dumps_newest_lap_in_order() {
    // 40 bytes through a 16-byte ring: the dump is the last 16 bytes,
    // oldest first.
    let mut engine = AnalyzerEngine::new(16);
    engine.arm();
    let events: Vec<u8> = (0..40).collect();
    engine.capture(&events);
    engine.disarm();
    let mut conn = Connection::new();
    worker(&engine, 0, &mut conn).unwrap();
    assert_eq!(&conn.sent[15..], &events[24..40]);
}

#[test]
fn arm_and_disarm_drive_the_registers() {
    let mut engine = AnalyzerEngine::new(256);
    engine.regs.overflow = true;
    engine.regs.byte_count = 99;
    engine.arm();
    assert!(engine.regs.enabled);
    assert!(!engine.regs.overflow);
    assert_eq!(engine.regs.byte_count, 0);
    assert_eq!(engine.regs.dma_base, 0);
    assert_eq!(engine.regs.dma_last, 255);
    engine.disarm();
    assert!(!engine.regs.enabled);
    assert!(!engine.regs.busy);
}
