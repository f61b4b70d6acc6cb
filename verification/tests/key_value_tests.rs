#[test]
fn key_value_encodes_and_decodes_key_value() {
    let key_value =
        memcore::key_value::KeyValue::new(Vec::from(b"raft"), Vec::from(b"consensus"));
    let encoded = key_value.encode();

    let decoded =
        memcore::key_value::KeyValue::decode_from(encoded).expect("Failed to decode the key_value");
    assert_eq!(b"raft", &decoded.key()[..]);
    assert_eq!(b"consensus", decoded.value());
}

#[test]
fn encodes_and_decodes_key_value() {
    let key_value =
        memcore::memory::key_value::KeyValue::new(Vec::from(b"raft"), Vec::from(b"consensus"));
    let encoded = key_value.encode();

    let decoded = memcore::memory::key_value::KeyValue::decode_from(encoded)
        .expect("Failed to decode the key_value");
    assert_eq!(b"raft", &decoded.key()[..]);
    assert_eq!(b"consensus", decoded.value());
}

#[test]
fn get_the_hash_of_the_key() {
    let key_value =
        memcore::memory::key_value::KeyValue::new(Vec::from(b"raft"), Vec::from(b"consensus"));
    assert!(key_value.hash_of() > 0);
}

#[test]
fn hash_depends_on_the_key_bytes_alone() {
    let first =
        memcore::memory::key_value::KeyValue::new(Vec::from(b"raft"), Vec::from(b"consensus"));
    let second =
        memcore::memory::key_value::KeyValue::new(Vec::from(b"raft"), Vec::from(b"election"));
    let other =
        memcore::memory::key_value::KeyValue::new(Vec::from(b"paxos"), Vec::from(b"consensus"));
    assert_eq!(first.hash_of(), first.hash_of());
    assert_eq!(first.hash_of(), second.hash_of());
    assert_ne!(first.hash_of(), other.hash_of());
}
