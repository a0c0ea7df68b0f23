use pointzerver::command::{Command, DecodeError};
use pointzerver::json::{find, Field, Member};

fn text(name: &str, value: &str) -> Member {
    Member { name: name.to_string(), value: Field::Text(value.to_string()) }
}

fn number(name: &str, value: i64) -> Member {
    Member { name: name.to_string(), value: Field::Number(Some(value)) }
}

fn other(name: &str, value: Field) -> Member {
    Member { name: name.to_string(), value }
}

#[test]
fn reads_a_move_from_its_members() {
    let members = vec![text("type", "move"), number("dx", 5), number("dy", 3)];
    assert_eq!(Command::from_members(&members), Ok(Command::Move { dx: 5, dy: 3 }));
}

#[test]
fn reads_each_kind_from_its_members() {
    let members = vec![number("dy", -2), text("type", "scroll"), number("dx", 1)];
    assert_eq!(Command::from_members(&members), Ok(Command::Scroll { dx: 1, dy: -2 }));
    let members = vec![text("type", "button_down"), number("button", 2)];
    assert_eq!(Command::from_members(&members), Ok(Command::ButtonDown { button: 2 }));
    let members = vec![text("type", "button_up"), number("button", 2)];
    assert_eq!(Command::from_members(&members), Ok(Command::ButtonUp { button: 2 }));
    let members = vec![text("type", "key_down"), number("code", 300)];
    assert_eq!(Command::from_members(&members), Ok(Command::KeyDown { code: 300 }));
    let members = vec![text("type", "key_up"), number("code", 300)];
    assert_eq!(Command::from_members(&members), Ok(Command::KeyUp { code: 300 }));
}

#[test]
fn the_first_of_two_members_with_one_name_counts() {
    let members = vec![
        text("type", "move"),
        text("type", "scroll"),
        number("dx", 1),
        number("dx", 7),
        number("dy", 2),
    ];
    assert_eq!(Command::from_members(&members), Ok(Command::Move { dx: 1, dy: 2 }));
}

#[test]
fn members_without_a_type_are_no_command() {
    assert_eq!(Command::from_members(&[]), Err(DecodeError::MissingType));
    let members = vec![number("dx", 5), number("dy", 3)];
    assert_eq!(Command::from_members(&members), Err(DecodeError::MissingType));
}

#[test]
fn a_type_that_is_no_text_is_invalid() {
    for value in [
        Field::Null,
        Field::Bool(true),
        Field::Number(Some(1)),
        Field::Number(None),
        Field::Array,
        Field::Object,
    ] {
        let members = vec![other("type", value), number("dx", 5), number("dy", 3)];
        assert_eq!(Command::from_members(&members), Err(DecodeError::InvalidType));
    }
}

#[test]
fn a_type_that_names_no_command_is_unknown() {
    let members = vec![text("type", "teleport"), number("dx", 5), number("dy", 3)];
    assert_eq!(Command::from_members(&members), Err(DecodeError::UnknownType));
}

#[test]
fn an_absent_parameter_is_missing() {
    let members = vec![text("type", "move"), number("dy", 3)];
    assert_eq!(Command::from_members(&members), Err(DecodeError::MissingField));
    let members = vec![text("type", "key_down")];
    assert_eq!(Command::from_members(&members), Err(DecodeError::MissingField));
}

#[test]
fn a_parameter_out_of_range_or_of_another_kind_is_invalid() {
    let cases = vec![
        vec![text("type", "move"), number("dx", i32::MAX as i64 + 1), number("dy", 0)],
        vec![text("type", "move"), number("dx", 0), number("dy", i32::MIN as i64 - 1)],
        vec![text("type", "move"), other("dx", Field::Number(None)), number("dy", 0)],
        vec![text("type", "move"), text("dx", "0"), number("dy", 0)],
        vec![text("type", "button_down"), number("button", 256)],
        vec![text("type", "button_up"), number("button", -1)],
        vec![text("type", "key_down"), number("code", u32::MAX as i64 + 1)],
        vec![text("type", "key_up"), number("code", i64::MIN)],
        vec![text("type", "key_up"), other("code", Field::Bool(false))],
    ];
    for members in cases {
        assert_eq!(Command::from_members(&members), Err(DecodeError::InvalidField));
    }
}

#[test]
fn the_error_of_the_first_parameter_is_reported() {
    let members = vec![text("type", "scroll"), text("dy", "x")];
    assert_eq!(Command::from_members(&members), Err(DecodeError::MissingField));
    let members = vec![text("type", "scroll"), text("dx", "x")];
    assert_eq!(Command::from_members(&members), Err(DecodeError::InvalidField));
}

#[test]
fn writes_the_members_of_a_command() {
    let members = Command::Move { dx: 5, dy: 3 }.to_members();
    assert_eq!(members, vec![text("type", "move"), number("dx", 5), number("dy", 3)]);
    let members = Command::KeyUp { code: 7 }.to_members();
    assert_eq!(members, vec![text("type", "key_up"), number("code", 7)]);
    let members = Command::ButtonDown { button: 3 }.to_members();
    assert_eq!(members, vec![text("type", "button_down"), number("button", 3)]);
}

#[test]
fn reading_back_its_members_gives_the_command() {
    let commands = [
        Command::Move { dx: i32::MIN, dy: i32::MAX },
        Command::Scroll { dx: -3, dy: 4 },
        Command::ButtonDown { button: 255 },
        Command::ButtonUp { button: 0 },
        Command::KeyDown { code: u32::MAX },
        Command::KeyUp { code: 0 },
    ];
    for command in commands {
        let members = command.to_members();
        assert_eq!(Command::from_members(&members), Ok(command));
        let mut turned = command.to_members();
        turned.reverse();
        turned.insert(1, text("comment", "move"));
        assert_eq!(Command::from_members(&turned), Ok(command));
    }
}

#[test]
fn finds_the_first_member_by_name() {
    let members = vec![number("a", 1), number("b", 2), number("a", 3)];
    assert_eq!(find(&members, "a"), Some(&Field::Number(Some(1))));
    assert_eq!(find(&members, "b"), Some(&Field::Number(Some(2))));
    assert_eq!(find(&members, "c"), None);
    assert_eq!(find(&[], "a"), None);
}
