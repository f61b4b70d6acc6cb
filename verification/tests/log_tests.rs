use memcore::memory::key_value::KeyValue;
use memcore::memory::log::Log;
use memcore::memory::options::LogOptions;

#[test]
fn should_append_to_the_log() {
    let log_size_bytes = 64;
    let segment_size_bytes = 64;

    let mut log = Log::new(LogOptions::new(log_size_bytes, segment_size_bytes));
    assert_eq!(
        true,
        log.try_append(KeyValue::new(Vec::from(b"raft"), Vec::from(b"consensus")))
    );
}

#[test]
fn should_not_append_to_the_log() {
    let log_size_bytes = 32;
    let segment_size_bytes = 32;

    let mut log = Log::new(LogOptions::new(log_size_bytes, segment_size_bytes));
    assert_eq!(
        true,
        log.try_append(KeyValue::new(Vec::from(b"raft"), Vec::from(b"consensus")))
    );
    assert_eq!(
        false,
        log.try_append(KeyValue::new(Vec::from(b"raft"), Vec::from(b"consensus")))
    );
}

#[test]
fn get_from_log() {
    let log_size_bytes = 32;
    let segment_size_bytes = 32;

    let mut log = Log::new(LogOptions::new(log_size_bytes, segment_size_bytes));
    assert_eq!(
        true,
        log.try_append(KeyValue::new(Vec::from(b"raft"), Vec::from(b"consensus")))
    );

    let key_value = log.try_get(b"raft").unwrap().unwrap();
    assert_eq!(b"consensus", key_value.value());
}
