use rtio_runtime::analyzer_proto::{Header, HEADER_BYTES};
use rtio_runtime::console::Console;
use rtio_runtime::event_loop::{should_log, PollError};
use rtio_runtime::sched::{Connection, IoError};

#[test]
fn header_layout_is_fixed() {
    let header = Header {
        total_byte_count: 0x0102030405060708,
        sent_bytes: 0x0a0b0c0d,
        overflow_occurred: true,
        log_channel: 0x20,
        compat_flag: true,
    };
    let encoded = header.encode();
    assert_eq!(encoded.len(), HEADER_BYTES);
    assert_eq!(
        encoded,
        vec![1, 2, 3, 4, 5, 6, 7, 8, 0x0a, 0x0b, 0x0c, 0x0d, 1, 0x20, 1]
    );
}

#[test]
fn header_flag_bytes() {
    let header = Header {
        total_byte_count: 0,
        sent_bytes: 0,
        overflow_occurred: false,
        log_channel: 0,
        compat_flag: true,
    };
    let encoded = header.encode();
    assert_eq!(encoded, vec![0, 0, 0, 0, 0, 0, 0, 0, 0, 0, 0, 0, 0, 0, 1]);
}

#[test]
fn connection_write_is_all_or_nothing() {
    let mut conn = Connection::with_limit(4);
    assert_eq!(conn.write(&[1, 2, 3]), Ok(()));
    // The next write would pass the peer's limit: it delivers nothing.
    assert_eq!(conn.write(&[4, 5]), Err(IoError::ConnectionLost));
    assert_eq!(conn.sent, vec![1, 2, 3]);
    assert_eq!(conn.write(&[4]), Ok(()));
    assert_eq!(conn.sent, vec![1, 2, 3, 4]);
}

#[test]
fn console_pushes_every_byte_in_order() {
    let mut console = Console::new();
    console.write_str("boot ");
    console.write_str("ok\n");
    assert_eq!(console.out, b"boot ok\n".to_vec());
}

#[test]
fn poll_errors_are_classified() {
    assert!(!should_log(&Ok(())));
    assert!(!should_log(&Err(PollError::Exhausted)));
    assert!(!should_log(&Err(PollError::Unrecognized)));
    assert!(should_log(&Err(PollError::Malformed)));
    assert!(should_log(&Err(PollError::Checksum)));
    assert!(should_log(&Err(PollError::Dropped)));
}
