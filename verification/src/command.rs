//! The commands a client can send, and how one is read from the members of a
//! JSON object.

use vstd::prelude::*;
use crate::json::{find, lookup, Field, FieldView, Member, MemberView};

verus! {

/// One input action and its parameters.
///
/// On the wire a command is a JSON object: the member `type` names the
/// variant, the other members are its parameters, all integers.
#[derive(Clone, Copy, Debug, PartialEq, Eq, Structural)]
pub enum Command {
    /// `move`: move the pointer by `dx`, `dy`.
    Move { dx: i32, dy: i32 },
    /// `scroll`: scroll by `dx`, `dy`.
    Scroll { dx: i32, dy: i32 },
    /// `button_down`: press a pointer button.
    ButtonDown { button: u8 },
    /// `button_up`: release a pointer button.
    ButtonUp { button: u8 },
    /// `key_down`: press the key with this code.
    KeyDown { code: u32 },
    /// `key_up`: release the key with this code.
    KeyUp { code: u32 },
}

/// Why a datagram is no command.
#[derive(Clone, Copy, Debug, PartialEq, Eq, Structural)]
pub enum DecodeError {
    /// The JSON reader does not accept the bytes as one object.
    Malformed,
    /// The object has no member `type`.
    MissingType,
    /// The member `type` is not a string.
    InvalidType,
    /// The member `type` names no command.
    UnknownType,
    /// A parameter of the command is absent.
    MissingField,
    /// A parameter of the command is not an integer in the range of its type.
    InvalidField,
}

impl DecodeError {
    /// What is wrong, in words.
    pub open spec fn spec_reason(self) -> Seq<char> {
        match self {
            DecodeError::Malformed => "not accepted as one JSON object"@,
            DecodeError::MissingType => "no type"@,
            DecodeError::InvalidType => "type is not a string"@,
            DecodeError::UnknownType => "unknown type"@,
            DecodeError::MissingField => "missing parameter"@,
            DecodeError::InvalidField => "parameter is not an integer in range"@,
        }
    }

    /// What is wrong, in words.
    pub fn reason(self) -> (r: &'static str)
        ensures
            r@ == self.spec_reason(),
    {
        match self {
            DecodeError::Malformed => "not accepted as one JSON object",
            DecodeError::MissingType => "no type",
            DecodeError::InvalidType => "type is not a string",
            DecodeError::UnknownType => "unknown type",
            DecodeError::MissingField => "missing parameter",
            DecodeError::InvalidField => "parameter is not an integer in range",
        }
    }
}

/// The word that names the variant of `command` on the wire.
pub open spec fn tag_of(command: Command) -> Seq<char> {
    match command {
        Command::Move { .. } => "move"@,
        Command::Scroll { .. } => "scroll"@,
        Command::ButtonDown { .. } => "button_down"@,
        Command::ButtonUp { .. } => "button_up"@,
        Command::KeyDown { .. } => "key_down"@,
        Command::KeyUp { .. } => "key_up"@,
    }
}

/// The parameters of `command`, by name, in the order in which they are
/// written.
pub open spec fn params_of(command: Command) -> Seq<(Seq<char>, int)> {
    match command {
        Command::Move { dx, dy } => seq![("dx"@, dx as int), ("dy"@, dy as int)],
        Command::Scroll { dx, dy } => seq![("dx"@, dx as int), ("dy"@, dy as int)],
        Command::ButtonDown { button } => seq![("button"@, button as int)],
        Command::ButtonUp { button } => seq![("button"@, button as int)],
        Command::KeyDown { code } => seq![("code"@, code as int)],
        Command::KeyUp { code } => seq![("code"@, code as int)],
    }
}

/// The members of the JSON object that spells `command`: its `type`, then its
/// parameters.
pub open spec fn members_of(command: Command) -> Seq<MemberView> {
    seq![MemberView { name: "type"@, value: FieldView::Text(tag_of(command)) }]
        + params_of(command).map_values(
        |p: (Seq<char>, int)| MemberView { name: p.0, value: FieldView::Number(Some(p.1 as i64)) },
    )
}

/// The integer parameter `name` of `members`, which must lie in `lo ..= hi`.
pub open spec fn integer_member(
    members: Seq<MemberView>,
    name: Seq<char>,
    lo: int,
    hi: int,
) -> Result<int, DecodeError> {
    match lookup(members, name) {
        None => Err(DecodeError::MissingField),
        Some(FieldView::Number(Some(v))) => if lo <= v <= hi {
            Ok(v as int)
        } else {
            Err(DecodeError::InvalidField)
        },
        Some(_) => Err(DecodeError::InvalidField),
    }
}

/// Two integer parameters; where both are at fault, the first one's error
/// is reported.
pub open spec fn integer_pair(
    members: Seq<MemberView>,
    first: Seq<char>,
    second: Seq<char>,
    lo: int,
    hi: int,
) -> Result<(int, int), DecodeError> {
    match integer_member(members, first, lo, hi) {
        Err(e) => Err(e),
        Ok(a) => match integer_member(members, second, lo, hi) {
            Err(e) => Err(e),
            Ok(b) => Ok((a, b)),
        },
    }
}

/// The command that `tag` names, with its parameters taken from `members`.
pub open spec fn command_tagged(tag: Seq<char>, members: Seq<MemberView>) -> Result<
    Command,
    DecodeError,
> {
    if tag == "move"@ {
        match integer_pair(members, "dx"@, "dy"@, i32::MIN as int, i32::MAX as int) {
            Ok(p) => Ok(Command::Move { dx: p.0 as i32, dy: p.1 as i32 }),
            Err(e) => Err(e),
        }
    } else if tag == "scroll"@ {
        match integer_pair(members, "dx"@, "dy"@, i32::MIN as int, i32::MAX as int) {
            Ok(p) => Ok(Command::Scroll { dx: p.0 as i32, dy: p.1 as i32 }),
            Err(e) => Err(e),
        }
    } else if tag == "button_down"@ {
        match integer_member(members, "button"@, 0, u8::MAX as int) {
            Ok(b) => Ok(Command::ButtonDown { button: b as u8 }),
            Err(e) => Err(e),
        }
    } else if tag == "button_up"@ {
        match integer_member(members, "button"@, 0, u8::MAX as int) {
            Ok(b) => Ok(Command::ButtonUp { button: b as u8 }),
            Err(e) => Err(e),
        }
    } else if tag == "key_down"@ {
        match integer_member(members, "code"@, 0, u32::MAX as int) {
            Ok(c) => Ok(Command::KeyDown { code: c as u32 }),
            Err(e) => Err(e),
        }
    } else if tag == "key_up"@ {
        match integer_member(members, "code"@, 0, u32::MAX as int) {
            Ok(c) => Ok(Command::KeyUp { code: c as u32 }),
            Err(e) => Err(e),
        }
    } else {
        Err(DecodeError::UnknownType)
    }
}

/// The command that the members of a JSON object spell, or why they spell
/// none. Members that the command does not name are ignored.
pub open spec fn command_of(members: Seq<MemberView>) -> Result<Command, DecodeError> {
    match lookup(members, "type"@) {
        None => Err(DecodeError::MissingType),
        Some(FieldView::Text(tag)) => command_tagged(tag, members),
        Some(_) => Err(DecodeError::InvalidType),
    }
}

/// Whether `text` is the word `word`.
fn is_word(text: &String, word: &str) -> (r: bool)
    ensures
        r == (text@ == word@),
{
    let owned = word.to_owned();
    *text == owned
}

/// Reads the integer parameter `name`, which must lie in `lo ..= hi`.
fn integer(members: &[Member], name: &str, lo: i64, hi: i64) -> (r: Result<i64, DecodeError>)
    ensures
        match r {
            Ok(v) => integer_member(members.deep_view(), name@, lo as int, hi as int) == Ok::<
                int,
                DecodeError,
            >(v as int),
            Err(e) => integer_member(members.deep_view(), name@, lo as int, hi as int) == Err::<
                int,
                DecodeError,
            >(e),
        },
{
    match find(members, name) {
        None => Err(DecodeError::MissingField),
        Some(Field::Number(Some(v))) => {
            if lo <= *v && *v <= hi {
                Ok(*v)
            } else {
                Err(DecodeError::InvalidField)
            }
        },
        Some(_) => Err(DecodeError::InvalidField),
    }
}

/// Reads two integer parameters, the first one first.
fn integers(members: &[Member], first: &str, second: &str, lo: i64, hi: i64) -> (r: Result<
    (i64, i64),
    DecodeError,
>)
    ensures
        match r {
            Ok(p) => integer_pair(members.deep_view(), first@, second@, lo as int, hi as int)
                == Ok::<(int, int), DecodeError>((p.0 as int, p.1 as int)),
            Err(e) => integer_pair(members.deep_view(), first@, second@, lo as int, hi as int)
                == Err::<(int, int), DecodeError>(e),
        },
{
    let a = integer(members, first, lo, hi)?;
    let b = integer(members, second, lo, hi)?;
    Ok((a, b))
}

impl Command {
    /// Reads a command from the members of a JSON object.
    ///
    /// The member `type` must be a string that names a command, and each
    /// parameter of that command must be present as an integer in the range of
    /// its type. Where a name occurs twice, its first member counts.
    pub fn from_members(members: &[Member]) -> (r: Result<Command, DecodeError>)
        ensures
            r == command_of(members.deep_view()),
    {
        let tag = match find(members, "type") {
            None => { return Err(DecodeError::MissingType); },
            Some(Field::Text(tag)) => tag,
            Some(_) => { return Err(DecodeError::InvalidType); },
        };
        if is_word(tag, "move") {
            let p = integers(members, "dx", "dy", i32::MIN as i64, i32::MAX as i64)?;
            Ok(Command::Move { dx: p.0 as i32, dy: p.1 as i32 })
        } else if is_word(tag, "scroll") {
            let p = integers(members, "dx", "dy", i32::MIN as i64, i32::MAX as i64)?;
            Ok(Command::Scroll { dx: p.0 as i32, dy: p.1 as i32 })
        } else if is_word(tag, "button_down") {
            let b = integer(members, "button", 0, u8::MAX as i64)?;
            Ok(Command::ButtonDown { button: b as u8 })
        } else if is_word(tag, "button_up") {
            let b = integer(members, "button", 0, u8::MAX as i64)?;
            Ok(Command::ButtonUp { button: b as u8 })
        } else if is_word(tag, "key_down") {
            let c = integer(members, "code", 0, u32::MAX as i64)?;
            Ok(Command::KeyDown { code: c as u32 })
        } else if is_word(tag, "key_up") {
            let c = integer(members, "code", 0, u32::MAX as i64)?;
            Ok(Command::KeyUp { code: c as u32 })
        } else {
            Err(DecodeError::UnknownType)
        }
    }

    /// The members of the JSON object that spells this command.
    pub fn to_members(&self) -> (members: Vec<Member>)
        ensures
            members.deep_view() == members_of(*self),
    {
        let mut members: Vec<Member> = Vec::new();
        match *self {
            Command::Move { dx, dy } => {
                members.push(text_member("type", "move"));
                members.push(integer_member_of("dx", dx as i64));
                members.push(integer_member_of("dy", dy as i64));
            },
            Command::Scroll { dx, dy } => {
                members.push(text_member("type", "scroll"));
                members.push(integer_member_of("dx", dx as i64));
                members.push(integer_member_of("dy", dy as i64));
            },
            Command::ButtonDown { button } => {
                members.push(text_member("type", "button_down"));
                members.push(integer_member_of("button", button as i64));
            },
            Command::ButtonUp { button } => {
                members.push(text_member("type", "button_up"));
                members.push(integer_member_of("button", button as i64));
            },
            Command::KeyDown { code } => {
                members.push(text_member("type", "key_down"));
                members.push(integer_member_of("code", code as i64));
            },
            Command::KeyUp { code } => {
                members.push(text_member("type", "key_up"));
                members.push(integer_member_of("code", code as i64));
            },
        }
        members
    }
}

/// A member that holds a string.
fn text_member(name: &str, text: &str) -> (member: Member)
    ensures
        member@ == (MemberView { name: name@, value: FieldView::Text(text@) }),
{
    Member { name: name.to_owned(), value: Field::Text(text.to_owned()) }
}

/// A member that holds an integer.
fn integer_member_of(name: &str, value: i64) -> (member: Member)
    ensures
        member@ == (MemberView { name: name@, value: FieldView::Number(Some(value)) }),
{
    Member { name: name.to_owned(), value: Field::Number(Some(value)) }
}

/// The words of the wire format differ from one another where the format
/// tells them apart.
proof fn lemma_words_differ()
    ensures
        "type"@ != "dx"@,
        "type"@ != "dy"@,
        "type"@ != "button"@,
        "type"@ != "code"@,
        "dx"@ != "dy"@,
        "scroll"@ != "move"@,
        "button_down"@ != "move"@,
        "button_down"@ != "scroll"@,
        "button_up"@ != "move"@,
        "button_up"@ != "scroll"@,
        "button_up"@ != "button_down"@,
        "key_down"@ != "move"@,
        "key_down"@ != "scroll"@,
        "key_down"@ != "button_down"@,
        "key_down"@ != "button_up"@,
        "key_up"@ != "move"@,
        "key_up"@ != "scroll"@,
        "key_up"@ != "button_down"@,
        "key_up"@ != "button_up"@,
        "key_up"@ != "key_down"@,
{
    reveal_strlit("type");
    reveal_strlit("move");
    reveal_strlit("scroll");
    reveal_strlit("button_down");
    reveal_strlit("button_up");
    reveal_strlit("key_down");
    reveal_strlit("key_up");
    reveal_strlit("dx");
    reveal_strlit("dy");
    reveal_strlit("button");
    reveal_strlit("code");
    assert("button_down"@.len() == 11 && "button_up"@.len() == 9 && "key_down"@.len() == 8);
    assert("type"@[0] != "code"@[0]);
    assert("dx"@[1] != "dy"@[1]);
    assert("key_up"@[0] != "scroll"@[0]);
}

/// Whether `members` spell `command`: the member `type` is the word for its
/// variant, and each of its parameters is found under its name as that
/// integer.
pub open spec fn spells(members: Seq<MemberView>, command: Command) -> bool {
    &&& lookup(members, "type"@) == Some(FieldView::Text(tag_of(command)))
    &&& forall|i: int|
        0 <= i < params_of(command).len() ==> lookup(members, #[trigger] params_of(command)[i].0)
            == Some(FieldView::Number(Some(params_of(command)[i].1 as i64)))
}

/// Members are read as a command exactly where they spell it: every other
/// sequence of members is rejected.
pub proof fn lemma_reads_what_is_spelt(members: Seq<MemberView>, command: Command)
    ensures
        command_of(members) == Ok::<Command, DecodeError>(command) <==> spells(members, command),
{
    lemma_words_differ();
    let params = params_of(command);
    if spells(members, command) {
        assert(lookup(members, params[0].0) == Some(
            FieldView::Number(Some(params[0].1 as i64)),
        ));
        if params.len() == 2 {
            assert(lookup(members, params[1].0) == Some(
                FieldView::Number(Some(params[1].1 as i64)),
            ));
        }
    }
}

/// Whether no two of `members` have the same name.
pub open spec fn distinct_names(members: Seq<MemberView>) -> bool {
    forall|i: int, j: int| 0 <= i < j < members.len() ==> members[i].name != members[j].name
}

/// Among members with distinct names, each is found by its name.
proof fn lemma_lookup_finds(members: Seq<MemberView>, k: int)
    requires
        distinct_names(members),
        0 <= k < members.len(),
    ensures
        lookup(members, members[k].name) == Some(members[k].value),
    decreases members.len(),
{
    if k > 0 {
        let rest = members.drop_first();
        assert forall|i: int, j: int| 0 <= i < j < rest.len() implies rest[i].name
            != rest[j].name by {
        }
        lemma_lookup_finds(rest, k - 1);
    }
}

/// A command is read from its members in whatever order they come and
/// whatever other members stand among them, as long as no name occurs twice.
pub proof fn lemma_reads_in_any_order(members: Seq<MemberView>, command: Command)
    requires
        distinct_names(members),
        forall|i: int|
            0 <= i < members_of(command).len() ==> members.contains(
                #[trigger] members_of(command)[i],
            ),
    ensures
        command_of(members) == Ok::<Command, DecodeError>(command),
{
    lemma_words_differ();
    let own = members_of(command);
    let params = params_of(command);
    assert forall|i: int| 0 <= i < own.len() implies lookup(members, #[trigger] own[i].name)
        == Some(own[i].value) by {
        let k = choose|k: int| 0 <= k < members.len() && members[k] == own[i];
        lemma_lookup_finds(members, k);
    }
    assert(own[0].name == "type"@);
    assert(own[1].name == params[0].0);
    if params.len() == 2 {
        assert(own[2].name == params[1].0);
    }
}

/// Reading back the members that spell a command gives that command.
pub proof fn lemma_members_round_trip(command: Command)
    ensures
        command_of(members_of(command)) == Ok::<Command, DecodeError>(command),
{
    lemma_words_differ();
    let own = members_of(command);
    assert forall|i: int| 0 <= i < own.len() implies own.contains(#[trigger] own[i]) by {
    }
    lemma_reads_in_any_order(own, command);
}

} // verus!
