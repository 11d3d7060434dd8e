//! The text frames exchanged with clients: one JSON object per frame, tagged
//! by a `type` field. String values are escaped by serde_json.
use vstd::prelude::*;
use vstd::string::StringExecFns;

use crate::events::{ClientMessage, ClientEventView, ServerMessage, ServerEventView};

verus! {

#[verifier::external_type_specification]
#[verifier::external_body]
pub struct ExJsonError(serde_json::Error);

/// The lowercase hexadecimal digit of `d`, for `d < 16`.
pub open spec fn hex_digit(d: u32) -> char {
    seq!['0', '1', '2', '3', '4', '5', '6', '7', '8', '9', 'a', 'b', 'c', 'd', 'e', 'f'][d as int]
}

/// How one character is written inside a JSON string literal: a quote and a
/// backslash are escaped by a backslash, the five controls with a short form
/// use it, every other control below 0x20 becomes `\u00XX` in lowercase hex,
/// and any other character stands as it is.
pub open spec fn escape_char(c: char) -> Seq<char> {
    if c == '"' {
        seq!['\\', '"']
    } else if c == '\\' {
        seq!['\\', '\\']
    } else if c == '\x08' {
        seq!['\\', 'b']
    } else if c == '\t' {
        seq!['\\', 't']
    } else if c == '\n' {
        seq!['\\', 'n']
    } else if c == '\x0c' {
        seq!['\\', 'f']
    } else if c == '\r' {
        seq!['\\', 'r']
    } else if (c as u32) < 0x20 {
        seq!['\\', 'u', '0', '0', hex_digit((c as u32) / 16), hex_digit((c as u32) % 16)]
    } else {
        seq![c]
    }
}

/// The characters of `s`, each escaped as `escape_char` says.
pub open spec fn escape_chars(s: Seq<char>) -> Seq<char>
    decreases s.len(),
{
    if s.len() == 0 {
        Seq::empty()
    } else {
        escape_chars(s.drop_last()) + escape_char(s.last())
    }
}

/// The JSON string literal for `s`: its escaped characters between quotes.
pub open spec fn json_text(s: Seq<char>) -> Seq<char> {
    seq!['"'] + escape_chars(s) + seq!['"']
}

/// Relies on serde_json::to_string on a `str`: it writes the string literal
/// through `format_escaped_str` into a `Vec`, which cannot fail.
#[verifier::external_body]
fn quote(s: &str) -> (r: Result<String, serde_json::Error>)
    ensures
        r is Ok,
        r->Ok_0@ == json_text(s@),
{
    serde_json::to_string(s)
}

/// `{"type":"Joined","user":U}` for the literal `U`.
pub open spec fn joined_frame(user: Seq<char>) -> Seq<char> {
    "{\"type\":\"Joined\",\"user\":"@ + user + "}"@
}

/// `{"type":"Left","user":U}` for the literal `U`.
pub open spec fn left_frame(user: Seq<char>) -> Seq<char> {
    "{\"type\":\"Left\",\"user\":"@ + user + "}"@
}

/// `{"type":"Message","user":U,"text":T}` for the literals `U` and `T`.
pub open spec fn message_frame(user: Seq<char>, text: Seq<char>) -> Seq<char> {
    "{\"type\":\"Message\",\"user\":"@ + user + ",\"text\":"@ + text + "}"@
}

/// `{"type":"SendMessage","text":T}` for the literal `T`.
pub open spec fn send_message_frame(text: Seq<char>) -> Seq<char> {
    "{\"type\":\"SendMessage\",\"text\":"@ + text + "}"@
}

/// `{"type":"Connect","room":R,"user":U}` for the literals `R` and `U`.
pub open spec fn connect_frame(room: Seq<char>, user: Seq<char>) -> Seq<char> {
    "{\"type\":\"Connect\",\"room\":"@ + room + ",\"user\":"@ + user + "}"@
}

/// The frame that carries a server event.
pub open spec fn server_frame(e: ServerEventView) -> Seq<char> {
    match e {
        ServerEventView::Message { user, text } => message_frame(json_text(user), json_text(text)),
        ServerEventView::Joined { user } => joined_frame(json_text(user)),
        ServerEventView::Left { user } => left_frame(json_text(user)),
    }
}

/// The frame that carries a client event.
pub open spec fn client_frame(e: ClientEventView) -> Seq<char> {
    match e {
        ClientEventView::SendMessage { text } => send_message_frame(json_text(text)),
        ClientEventView::Connect { room, user } => connect_frame(json_text(room), json_text(user)),
    }
}

/// Assembles the frame of a server event from its string fields, already
/// written as JSON literals (`text` is read for a `Message` only).
pub fn assemble_server_frame(e: &ServerMessage, user: &str, text: &str) -> (r: String)
    ensures
        r@ == match e@ {
            ServerEventView::Message { .. } => message_frame(user@, text@),
            ServerEventView::Joined { .. } => joined_frame(user@),
            ServerEventView::Left { .. } => left_frame(user@),
        },
{
    match e {
        ServerMessage::Message { .. } => {
            let mut r = String::from_str("{\"type\":\"Message\",\"user\":");
            r.append(user);
            r.append(",\"text\":");
            r.append(text);
            r.append("}");
            r
        },
        ServerMessage::Joined { .. } => {
            let mut r = String::from_str("{\"type\":\"Joined\",\"user\":");
            r.append(user);
            r.append("}");
            r
        },
        ServerMessage::Left { .. } => {
            let mut r = String::from_str("{\"type\":\"Left\",\"user\":");
            r.append(user);
            r.append("}");
            r
        },
    }
}

/// Assembles the frame of a client event from its string fields, already
/// written as JSON literals (`second` is the user of a `Connect`, and is not
/// read for a `SendMessage`).
pub fn assemble_client_frame(e: &ClientMessage, first: &str, second: &str) -> (r: String)
    ensures
        r@ == match e@ {
            ClientEventView::SendMessage { .. } => send_message_frame(first@),
            ClientEventView::Connect { .. } => connect_frame(first@, second@),
        },
{
    match e {
        ClientMessage::SendMessage { .. } => {
            let mut r = String::from_str("{\"type\":\"SendMessage\",\"text\":");
            r.append(first);
            r.append("}");
            r
        },
        ClientMessage::Connect { .. } => {
            let mut r = String::from_str("{\"type\":\"Connect\",\"room\":");
            r.append(first);
            r.append(",\"user\":");
            r.append(second);
            r.append("}");
            r
        },
    }
}

/// Encodes a server event as one text frame.
pub fn encode_server_message(e: &ServerMessage) -> (r: String)
    ensures
        r@ == server_frame(e@),
{
    match e {
        ServerMessage::Message { text, user } => {
            let u = quote_ok(user.as_str());
            let t = quote_ok(text.as_str());
            assemble_server_frame(e, u.as_str(), t.as_str())
        },
        ServerMessage::Joined { user } | ServerMessage::Left { user } => {
            let u = quote_ok(user.as_str());
            assemble_server_frame(e, u.as_str(), "")
        },
    }
}

/// Encodes a client event as one text frame.
pub fn encode_client_message(e: &ClientMessage) -> (r: String)
    ensures
        r@ == client_frame(e@),
{
    match e {
        ClientMessage::SendMessage { text } => {
            let t = quote_ok(text.as_str());
            assemble_client_frame(e, t.as_str(), "")
        },
        ClientMessage::Connect { room, user } => {
            let r = quote_ok(room.as_str());
            let u = quote_ok(user.as_str());
            assemble_client_frame(e, r.as_str(), u.as_str())
        },
    }
}

/// The JSON string literal for `s`.
fn quote_ok(s: &str) -> (r: String)
    ensures
        r@ == json_text(s@),
{
    match quote(s) {
        Ok(q) => q,
        Err(_) => unreached(),
    }
}

} // verus!
