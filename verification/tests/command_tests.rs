use memcore::executor::command::{Command, CommandType};

#[test]
fn encodes_and_decodes_a_get_command() {
    let get = Command::get(Vec::from(b"raft"));
    let encoded = get.encode();

    let decoded_result = Command::decode_from(encoded);
    assert_eq!(true, decoded_result.is_ok());

    let decoded = decoded_result.unwrap();
    assert_eq!(CommandType::Get, decoded.command_type);
    assert_eq!(Vec::from(b"raft"), decoded.key);
    assert_eq!(true, decoded.value.is_none());
}

#[test]
fn encodes_and_decodes_a_put_command() {
    let put = Command::put(Vec::from(b"raft"), Vec::from(b"consensus"));
    let encoded = put.encode();

    let decoded_result = Command::decode_from(encoded);
    assert_eq!(true, decoded_result.is_ok());

    let decoded = decoded_result.unwrap();
    assert_eq!(CommandType::Put, decoded.command_type);
    assert_eq!(Vec::from(b"raft"), decoded.key);
    assert_eq!(Vec::from(b"consensus"), decoded.value.unwrap());
}

#[test]
fn encodes_and_decodes_an_update_command() {
    let update = Command::update(Vec::from(b"raft"), Vec::from(b"consensus"));
    let encoded = update.encode();

    let decoded_result = Command::decode_from(encoded);
    assert_eq!(true, decoded_result.is_ok());

    let decoded = decoded_result.unwrap();
    assert_eq!(CommandType::Update, decoded.command_type);
    assert_eq!(Vec::from(b"raft"), decoded.key);
    assert_eq!(Vec::from(b"consensus"), decoded.value.unwrap());
}
