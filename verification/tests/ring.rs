use rkbpf::ringbuf::{MockRingBuf, RecordHeader, RingBuf};

#[test]
fn test_record_header_flags() {
    let busy = RecordHeader {
        len: (1u32 << 31) | 100,
        pg_off: 0,
    };
    assert!(busy.is_busy());
    assert!(!busy.is_discarded());
    assert_eq!(busy.data_len(), 100);

    let discarded = RecordHeader {
        len: (1u32 << 30) | 50,
        pg_off: 0,
    };
    assert!(!discarded.is_busy());
    assert!(discarded.is_discarded());
    assert_eq!(discarded.data_len(), 50);
}

#[test]
fn test_mock_ringbuf() {
    let events = vec![vec![1, 2, 3], vec![4, 5, 6], vec![7, 8, 9]];

    let mut mock = MockRingBuf::new(events);
    assert!(!mock.is_empty());

    assert_eq!(mock.read_event(), Some(vec![1, 2, 3]));
    assert_eq!(mock.read_event(), Some(vec![4, 5, 6]));
    assert_eq!(mock.read_event(), Some(vec![7, 8, 9]));
    assert_eq!(mock.read_event(), None);
    assert!(mock.is_empty());
}

#[test]
fn ring_buffer_round_trip() {
    // records of payload sizes 5, 13 and 200, in order; the consumer reads
    // all three byte-identical and then the positions meet
    let mut rb = RingBuf::with_size(65536).unwrap();
    let payloads: Vec<Vec<u8>> = vec![
        (0..5u8).collect(),
        (0..13u8).collect(),
        (0..200u8).map(|b| b.wrapping_mul(3)).collect(),
    ];
    for p in &payloads {
        assert!(rb.produce(p));
    }
    for p in &payloads {
        assert_eq!(rb.read_event().as_ref(), Some(p));
    }
    assert_eq!(rb.read_event(), None);
    assert_eq!(rb.consumer_pos(), rb.producer_pos());
}

#[test]
fn ring_buffer_wrap_reassembles_payload() {
    // a tiny ring: fill, drain, then write a payload that straddles the
    // wrap point and read it back intact
    let mut rb = RingBuf::with_size(64).unwrap();
    let first: Vec<u8> = (0..24u8).collect();
    assert!(rb.produce(&first));
    assert_eq!(rb.read_event(), Some(first));
    // positions now sit at 32; this 40-byte payload wraps past 64
    let second: Vec<u8> = (100..140u8).collect();
    assert!(rb.produce(&second));
    assert_eq!(rb.read_event(), Some(second));
    assert_eq!(rb.read_event(), None);
}

#[test]
fn ring_buffer_full_reservation_fails() {
    let mut rb = RingBuf::with_size(64).unwrap();
    let big: Vec<u8> = vec![9u8; 48];
    assert!(rb.produce(&big));
    // no room for another record of the same footprint
    assert!(!rb.produce(&big));
    // the consumer sees no gap: the committed record is intact
    assert_eq!(rb.read_event(), Some(big.clone()));
    assert!(rb.produce(&big));
}

#[test]
fn ring_buffer_oversized_payload_fails() {
    let mut rb = RingBuf::with_size(64).unwrap();
    let too_big: Vec<u8> = vec![1u8; 60];
    assert!(!rb.produce(&too_big));
    assert_eq!(rb.read_event(), None);
}

#[test]
fn ring_buffer_rejects_bad_sizes() {
    assert!(RingBuf::with_size(0).is_none());
    assert!(RingBuf::with_size(12).is_none());
    assert!(RingBuf::with_size(64).is_some());
}
