//! The wire format: one datagram holds the JSON text of one command.

use vstd::prelude::*;
use vstd::string::*;
use vstd::utf8::encode_utf8;
use crate::command::{
    command_of, lemma_reads_what_is_spelt, params_of, spells, tag_of, Command, DecodeError,
};
use crate::json::{json_object, read_object};
use crate::text::{decimal, push_decimal};

verus! {

/// What a datagram decodes to: the command that the members of its JSON
/// object spell, where the JSON reader accepts it as one object.
pub open spec fn decoded(bytes: Seq<u8>) -> Result<Command, DecodeError> {
    match json_object(bytes) {
        Some(members) => command_of(members),
        None => Err(DecodeError::Malformed),
    }
}

/// Whether `bytes` are a valid encoding of a command: the JSON reader accepts
/// them as one object, and the members of that object spell a command.
pub open spec fn is_encoding(bytes: Seq<u8>) -> bool {
    json_object(bytes) matches Some(members) && exists|command: Command|
        spells(members, command)
}

/// Decoding succeeds on the valid encodings and on nothing else, and gives the
/// command that the members spell.
pub proof fn lemma_decodes_encodings_only(bytes: Seq<u8>)
    ensures
        decoded(bytes) is Ok <==> is_encoding(bytes),
        forall|command: Command|
            decoded(bytes) == Ok::<Command, DecodeError>(command) <==> (json_object(bytes) matches Some(
                members,
            ) && spells(members, command)),
{
    match json_object(bytes) {
        Some(members) => {
            assert forall|command: Command|
                command_of(members) == Ok::<Command, DecodeError>(command) <==> spells(
                    members,
                    command,
                ) by {
                lemma_reads_what_is_spelt(members, command);
            }
            if decoded(bytes) is Ok {
                assert(spells(members, decoded(bytes)->Ok_0));
            }
        },
        None => {},
    }
}

/// Decodes one datagram.
///
/// Never fails otherwise than by returning the error: bytes that the JSON
/// reader does not accept as one object, or whose members spell no command,
/// are rejected as a whole.
pub fn decode(bytes: &[u8]) -> (r: Result<Command, DecodeError>)
    ensures
        r == decoded(bytes@),
{
    match read_object(bytes) {
        Ok(members) => Command::from_members(members.as_slice()),
        Err(_) => Err(DecodeError::Malformed),
    }
}

/// The text of the parameters: each as `,"name":value`.
pub open spec fn params_text(params: Seq<(Seq<char>, int)>) -> Seq<char>
    decreases params.len(),
{
    if params.len() == 0 {
        Seq::empty()
    } else {
        params_text(params.drop_last()) + ",\""@ + params.last().0 + "\":"@ + decimal(
            params.last().1,
        )
    }
}

/// The JSON text of `command`: `{"type":"move","dx":5,"dy":3}` for a move by
/// 5 and 3.
pub open spec fn wire_text(command: Command) -> Seq<char> {
    "{\"type\":\""@ + tag_of(command) + "\""@ + params_text(params_of(command)) + "}"@
}

/// One more parameter adds its text at the end.
proof fn lemma_params_text_push(params: Seq<(Seq<char>, int)>, name: Seq<char>, value: int)
    ensures
        params_text(params.push((name, value))) == params_text(params) + ",\""@ + name + "\":"@
            + decimal(value),
{
    assert(params.push((name, value)).drop_last() =~= params);
}

/// Appends one parameter, as `,"name":value`, to `out`.
fn push_param(out: &mut String, name: &str, value: i64)
    ensures
        final(out)@ == old(out)@ + ",\""@ + name@ + "\":"@ + decimal(value as int),
{
    out.append(",\"");
    out.append(name);
    out.append("\":");
    push_decimal(out, value);
}

/// Encodes `command` as the bytes of its JSON text.
pub fn encode(command: &Command) -> (bytes: Vec<u8>)
    ensures
        bytes@ == encode_utf8(wire_text(*command)),
{
    let mut out = String::new();
    out.append("{\"type\":\"");
    match *command {
        Command::Move { dx, dy } => {
            out.append("move");
            out.append("\"");
            push_param(&mut out, "dx", dx as i64);
            push_param(&mut out, "dy", dy as i64);
        },
        Command::Scroll { dx, dy } => {
            out.append("scroll");
            out.append("\"");
            push_param(&mut out, "dx", dx as i64);
            push_param(&mut out, "dy", dy as i64);
        },
        Command::ButtonDown { button } => {
            out.append("button_down");
            out.append("\"");
            push_param(&mut out, "button", button as i64);
        },
        Command::ButtonUp { button } => {
            out.append("button_up");
            out.append("\"");
            push_param(&mut out, "button", button as i64);
        },
        Command::KeyDown { code } => {
            out.append("key_down");
            out.append("\"");
            push_param(&mut out, "code", code as i64);
        },
        Command::KeyUp { code } => {
            out.append("key_up");
            out.append("\"");
            push_param(&mut out, "code", code as i64);
        },
    }
    out.append("}");
    proof {
        let params = params_of(*command);
        let none = Seq::<(Seq<char>, int)>::empty();
        lemma_params_text_push(none, params[0].0, params[0].1);
        if params.len() == 2 {
            lemma_params_text_push(none.push(params[0]), params[1].0, params[1].1);
            assert(params =~= none.push(params[0]).push(params[1]));
        }
        assert(out@ =~= wire_text(*command));
    }
    out.as_str().as_bytes_vec()
}

} // verus!
