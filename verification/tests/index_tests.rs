use memcore::memory::index::{Index, IndexMarker};

#[test]
fn should_not_find_the_key_in_index() {
    let index = Index::new();
    let optional_marker = index.get(b"non-existing");

    assert_eq!(true, optional_marker.is_none());
}

#[test]
fn should_find_the_key_in_index() {
    let mut index = Index::new();
    index.insert(Vec::from(b"raft"), IndexMarker::new(0, 16, 100));

    let optional_marker = index.get(b"raft");
    assert_eq!(true, optional_marker.is_some());
    assert_eq!(0, optional_marker.unwrap().segment_index);
    assert_eq!(16, optional_marker.unwrap().segment_position);
    assert_eq!(100, optional_marker.unwrap().key_value_size);
}
