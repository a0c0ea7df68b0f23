use pointzerver::codec::{decode, encode};
use pointzerver::command::{Command, DecodeError};

fn all_kinds() -> Vec<Command> {
    vec![
        Command::Move { dx: 5, dy: 3 },
        Command::Move { dx: -1, dy: 0 },
        Command::Move { dx: i32::MIN, dy: i32::MAX },
        Command::Scroll { dx: 0, dy: -120 },
        Command::Scroll { dx: i32::MAX, dy: i32::MIN },
        Command::ButtonDown { button: 0 },
        Command::ButtonDown { button: 255 },
        Command::ButtonUp { button: 1 },
        Command::KeyDown { code: 0 },
        Command::KeyDown { code: 65 },
        Command::KeyUp { code: u32::MAX },
        Command::KeyUp { code: 1_000_000_007 },
    ]
}

#[test]
fn decodes_the_move_example() {
    let got = decode(b"{\"type\":\"move\",\"dx\":5,\"dy\":3}");
    assert_eq!(got, Ok(Command::Move { dx: 5, dy: 3 }));
}

#[test]
fn decodes_every_kind_of_command() {
    assert_eq!(
        decode(b"{\"type\":\"scroll\",\"dx\":0,\"dy\":-120}"),
        Ok(Command::Scroll { dx: 0, dy: -120 })
    );
    assert_eq!(
        decode(b"{\"type\":\"button_down\",\"button\":1}"),
        Ok(Command::ButtonDown { button: 1 })
    );
    assert_eq!(
        decode(b"{\"type\":\"button_up\",\"button\":255}"),
        Ok(Command::ButtonUp { button: 255 })
    );
    assert_eq!(
        decode(b"{\"type\":\"key_down\",\"code\":65}"),
        Ok(Command::KeyDown { code: 65 })
    );
    assert_eq!(
        decode(b"{\"type\":\"key_up\",\"code\":4294967295}"),
        Ok(Command::KeyUp { code: u32::MAX })
    );
}

#[test]
fn decodes_members_in_any_order_and_skips_strangers() {
    let got = decode(b" { \"dy\" : 3, \"note\": \"hi\", \"dx\": 5, \"tags\": [1, 2], \"type\": \"move\", \"o\": {\"dx\": 9} } ");
    assert_eq!(got, Ok(Command::Move { dx: 5, dy: 3 }));
}

#[test]
fn decodes_the_extremes_of_each_parameter() {
    assert_eq!(
        decode(b"{\"type\":\"move\",\"dx\":-2147483648,\"dy\":2147483647}"),
        Ok(Command::Move { dx: i32::MIN, dy: i32::MAX })
    );
    assert_eq!(
        decode(b"{\"type\":\"button_down\",\"button\":0}"),
        Ok(Command::ButtonDown { button: 0 })
    );
    assert_eq!(
        decode(b"{\"type\":\"key_down\",\"code\":0}"),
        Ok(Command::KeyDown { code: 0 })
    );
}

#[test]
fn rejects_a_json_string() {
    assert_eq!(decode(b"\"not json\""), Err(DecodeError::Malformed));
}

#[test]
fn rejects_what_is_no_json_object() {
    assert_eq!(decode(b"not json"), Err(DecodeError::Malformed));
    assert_eq!(decode(b""), Err(DecodeError::Malformed));
    assert_eq!(decode(b"   "), Err(DecodeError::Malformed));
    assert_eq!(decode(b"null"), Err(DecodeError::Malformed));
    assert_eq!(decode(b"[1,2]"), Err(DecodeError::Malformed));
    assert_eq!(decode(b"42"), Err(DecodeError::Malformed));
    assert_eq!(decode(&[0xff, 0xfe, 0x00]), Err(DecodeError::Malformed));
    assert_eq!(decode(b"{\"type\":\"move\",\"dx\":5,\"dy\":3} x"), Err(DecodeError::Malformed));
    assert_eq!(decode(b"{\"type\":\"move\",\"dx\":1e999,\"dy\":3}"), Err(DecodeError::Malformed));
}

#[test]
fn rejects_what_the_json_reader_does_not_accept_though_it_is_json() {
    assert_eq!(decode(b"{\"type\":\"move\",\"dx\":1e999,\"dy\":3}"), Err(DecodeError::Malformed));
    let mut deep = b"{\"type\":\"move\",\"dx\":5,\"dy\":3,\"deep\":".to_vec();
    deep.extend(std::iter::repeat(b'[').take(200));
    deep.extend(std::iter::repeat(b']').take(200));
    deep.push(b'}');
    assert_eq!(decode(&deep), Err(DecodeError::Malformed));
    let mut shallow = b"{\"type\":\"move\",\"dx\":5,\"dy\":3,\"deep\":".to_vec();
    shallow.extend(std::iter::repeat(b'[').take(20));
    shallow.extend(std::iter::repeat(b']').take(20));
    shallow.push(b'}');
    assert_eq!(decode(&shallow), Ok(Command::Move { dx: 5, dy: 3 }));
}

#[test]
fn rejects_a_datagram_that_was_cut_short() {
    let whole = b"{\"type\":\"move\",\"dx\":5,\"dy\":3}";
    for cut in 0..whole.len() {
        assert_eq!(decode(&whole[..cut]), Err(DecodeError::Malformed));
    }
    assert_eq!(decode(whole), Ok(Command::Move { dx: 5, dy: 3 }));
}

#[test]
fn rejects_an_object_without_a_type() {
    assert_eq!(decode(b"{}"), Err(DecodeError::MissingType));
    assert_eq!(decode(b"{\"dx\":5,\"dy\":3}"), Err(DecodeError::MissingType));
    assert_eq!(decode(b"{\"Type\":\"move\",\"dx\":5,\"dy\":3}"), Err(DecodeError::MissingType));
}

#[test]
fn rejects_a_type_that_is_no_string() {
    assert_eq!(decode(b"{\"type\":5,\"dx\":5,\"dy\":3}"), Err(DecodeError::InvalidType));
    assert_eq!(decode(b"{\"type\":null}"), Err(DecodeError::InvalidType));
    assert_eq!(decode(b"{\"type\":[\"move\"]}"), Err(DecodeError::InvalidType));
    assert_eq!(decode(b"{\"type\":{\"type\":\"move\"}}"), Err(DecodeError::InvalidType));
    assert_eq!(decode(b"{\"type\":true}"), Err(DecodeError::InvalidType));
}

#[test]
fn rejects_an_unknown_type() {
    assert_eq!(decode(b"{\"type\":\"fly\",\"dx\":5,\"dy\":3}"), Err(DecodeError::UnknownType));
    assert_eq!(decode(b"{\"type\":\"Move\",\"dx\":5,\"dy\":3}"), Err(DecodeError::UnknownType));
    assert_eq!(decode(b"{\"type\":\"\"}"), Err(DecodeError::UnknownType));
    assert_eq!(decode(b"{\"type\":\"move \",\"dx\":5,\"dy\":3}"), Err(DecodeError::UnknownType));
}

#[test]
fn rejects_a_missing_parameter() {
    assert_eq!(decode(b"{\"type\":\"move\",\"dx\":5}"), Err(DecodeError::MissingField));
    assert_eq!(decode(b"{\"type\":\"move\",\"dy\":3}"), Err(DecodeError::MissingField));
    assert_eq!(decode(b"{\"type\":\"scroll\"}"), Err(DecodeError::MissingField));
    assert_eq!(decode(b"{\"type\":\"button_down\",\"code\":1}"), Err(DecodeError::MissingField));
    assert_eq!(decode(b"{\"type\":\"key_up\",\"button\":1}"), Err(DecodeError::MissingField));
}

#[test]
fn rejects_a_parameter_that_is_no_integer_in_range() {
    let invalid = Err(DecodeError::InvalidField);
    assert_eq!(decode(b"{\"type\":\"move\",\"dx\":5.0,\"dy\":3}"), invalid);
    assert_eq!(decode(b"{\"type\":\"move\",\"dx\":\"5\",\"dy\":3}"), invalid);
    assert_eq!(decode(b"{\"type\":\"move\",\"dx\":5,\"dy\":null}"), invalid);
    assert_eq!(decode(b"{\"type\":\"move\",\"dx\":[5],\"dy\":3}"), invalid);
    assert_eq!(decode(b"{\"type\":\"move\",\"dx\":{},\"dy\":3}"), invalid);
    assert_eq!(decode(b"{\"type\":\"move\",\"dx\":true,\"dy\":3}"), invalid);
    assert_eq!(decode(b"{\"type\":\"move\",\"dx\":2147483648,\"dy\":3}"), invalid);
    assert_eq!(decode(b"{\"type\":\"move\",\"dx\":5,\"dy\":-2147483649}"), invalid);
    assert_eq!(decode(b"{\"type\":\"button_up\",\"button\":256}"), invalid);
    assert_eq!(decode(b"{\"type\":\"button_up\",\"button\":-1}"), invalid);
    assert_eq!(decode(b"{\"type\":\"key_down\",\"code\":4294967296}"), invalid);
    assert_eq!(decode(b"{\"type\":\"key_down\",\"code\":-1}"), invalid);
    assert_eq!(decode(b"{\"type\":\"key_down\",\"code\":18446744073709551615}"), invalid);
}

#[test]
fn reports_the_first_parameter_at_fault() {
    assert_eq!(
        decode(b"{\"type\":\"move\",\"dx\":\"x\"}"),
        Err(DecodeError::InvalidField)
    );
    assert_eq!(
        decode(b"{\"type\":\"move\",\"dy\":\"x\"}"),
        Err(DecodeError::MissingField)
    );
}

#[test]
fn the_last_of_two_members_with_one_name_counts_on_the_wire() {
    let got = decode(b"{\"type\":\"move\",\"type\":\"scroll\",\"dx\":1,\"dx\":7,\"dy\":2}");
    assert_eq!(got, Ok(Command::Scroll { dx: 7, dy: 2 }));
}

#[test]
fn encodes_the_move_example() {
    let bytes = encode(&Command::Move { dx: 5, dy: 3 });
    assert_eq!(bytes, b"{\"type\":\"move\",\"dx\":5,\"dy\":3}".to_vec());
}

#[test]
fn encodes_negative_and_extreme_parameters() {
    let bytes = encode(&Command::Scroll { dx: i32::MIN, dy: i32::MAX });
    assert_eq!(
        bytes,
        b"{\"type\":\"scroll\",\"dx\":-2147483648,\"dy\":2147483647}".to_vec()
    );
    let bytes = encode(&Command::KeyDown { code: u32::MAX });
    assert_eq!(bytes, b"{\"type\":\"key_down\",\"code\":4294967295}".to_vec());
    let bytes = encode(&Command::KeyUp { code: 10 });
    assert_eq!(bytes, b"{\"type\":\"key_up\",\"code\":10}".to_vec());
    let bytes = encode(&Command::ButtonUp { button: 0 });
    assert_eq!(bytes, b"{\"type\":\"button_up\",\"button\":0}".to_vec());
    let bytes = encode(&Command::ButtonDown { button: 109 });
    assert_eq!(bytes, b"{\"type\":\"button_down\",\"button\":109}".to_vec());
}

#[test]
fn decoding_what_was_encoded_gives_the_command_back() {
    for command in all_kinds() {
        let bytes = encode(&command);
        assert_eq!(decode(&bytes), Ok(command));
    }
}

#[test]
fn encoding_is_read_back_by_the_json_reader_as_the_same_numbers() {
    let bytes = encode(&Command::Move { dx: -17, dy: 1000 });
    let value: serde_json::Value = serde_json::from_slice(&bytes).unwrap();
    assert_eq!(value["type"].as_str(), Some("move"));
    assert_eq!(value["dx"].as_i64(), Some(-17));
    assert_eq!(value["dy"].as_i64(), Some(1000));
}
