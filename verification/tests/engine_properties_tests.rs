use memcore::memory::key_value::KeyValue;
use memcore::memory::log::Log;
use memcore::memory::options::LogOptions;
use memcore::wire::DecodeError;

#[test]
fn capacity_boundary_rejects_record_and_leaves_no_index_entry() {
    let mut log = Log::new(LogOptions::new(16, 16));
    let appended = log.try_append(KeyValue::new(Vec::from(b"raft"), Vec::from(b"consensus")));
    assert_eq!(false, appended);
    assert!(log.try_get(b"raft").is_none());
}

#[test]
fn rollover_advances_to_the_next_segment_and_then_fills_up() {
    let mut log = Log::new(LogOptions::new(32, 16));

    // 14 encoded bytes: fits segment 0, leaving 2 bytes there.
    assert_eq!(
        true,
        log.try_append(KeyValue::new(Vec::from(b"k1"), Vec::from(b"aaaaaaaa")))
    );
    // Another 14 bytes: does not fit segment 0, rolls over into segment 1.
    assert_eq!(
        true,
        log.try_append(KeyValue::new(Vec::from(b"k2"), Vec::from(b"bbbbbbbb")))
    );
    // A third record fits neither; non-contiguous leftovers are never split.
    assert_eq!(
        false,
        log.try_append(KeyValue::new(Vec::from(b"k3"), Vec::from(b"cccccccc")))
    );

    assert_eq!(b"aaaaaaaa", log.try_get(b"k1").unwrap().unwrap().value());
    assert_eq!(b"bbbbbbbb", log.try_get(b"k2").unwrap().unwrap().value());
    assert!(log.try_get(b"k3").is_none());
}

#[test]
fn overwrite_makes_lookup_return_the_second_value() {
    let mut log = Log::new(LogOptions::new(64, 64));
    assert_eq!(
        true,
        log.try_append(KeyValue::new(Vec::from(b"raft"), Vec::from(b"one")))
    );
    assert_eq!(
        true,
        log.try_append(KeyValue::new(Vec::from(b"raft"), Vec::from(b"two")))
    );
    assert_eq!(b"two", log.try_get(b"raft").unwrap().unwrap().value());
}

#[test]
fn lookup_is_idempotent() {
    let mut log = Log::new(LogOptions::new(64, 64));
    assert_eq!(
        true,
        log.try_append(KeyValue::new(Vec::from(b"raft"), Vec::from(b"consensus")))
    );
    let first = log.try_get(b"raft").unwrap().unwrap();
    let second = log.try_get(b"raft").unwrap().unwrap();
    assert_eq!(first.value(), second.value());
    assert_eq!(first.key(), second.key());
    assert!(log.try_get(b"missing").is_none());
    assert!(log.try_get(b"missing").is_none());
}

#[test]
fn record_decode_fails_on_fewer_bytes_than_the_headers_declare() {
    // key_length 4, value_length 9, but only the key bytes follow.
    let bytes: &[u8] = &[4, 0, 9, 0, b'r', b'a', b'f', b't'];
    let buffer = bytes::BytesMut::from(bytes);
    match KeyValue::decode_from(buffer) {
        Err(error) => assert_eq!(DecodeError::UnexpectedEndOfBuffer, error),
        Ok(_) => panic!("decoding a truncated record must fail"),
    }
}

#[test]
fn command_decode_fails_on_fewer_bytes_than_the_headers_declare() {
    // key_length 4, value_length 9, tag 2 (put), but only the key follows.
    let bytes: &[u8] = &[4, 0, 9, 0, 2, b'r', b'a', b'f', b't'];
    let buffer = bytes::BytesMut::from(bytes);
    match memcore::executor::command::Command::decode_from(buffer) {
        Err(error) => assert_eq!(DecodeError::UnexpectedEndOfBuffer, error),
        Ok(_) => panic!("decoding a truncated command must fail"),
    }
}

#[test]
fn round_trip_at_the_largest_header_sizes() {
    let key = vec![b'k'; 65535];
    let value = vec![b'v'; 65535];
    let key_value = KeyValue::new(key.clone(), value.clone());
    let decoded = KeyValue::decode_from(key_value.encode()).expect("round trip must succeed");
    assert_eq!(key, decoded.key());
    assert_eq!(&value[..], decoded.value());
}

#[test]
fn append_then_read_returns_the_appended_value() {
    let mut log = Log::new(LogOptions::new(32, 32));
    assert_eq!(
        true,
        log.try_append(KeyValue::new(Vec::from(b"raft"), Vec::from(b"consensus")))
    );
    let found = log.try_get(b"raft").unwrap().unwrap();
    assert_eq!(b"raft", &found.key()[..]);
    assert_eq!(b"consensus", found.value());
}
