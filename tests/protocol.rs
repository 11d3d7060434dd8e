use room_chat::client::{line_of, ChatLog, Status};
use room_chat::events::{ClientMessage, Connect, ConnectionEvent, Message, SendMessage, ServerMessage};
use room_chat::reader::{after_join, handshake, Inbound, ReaderStep};
use room_chat::room::{leaves_for, RoomEvent};
use room_chat::wire::{
    assemble_client_frame, assemble_server_frame, encode_client_message, encode_server_message,
};

#[test]
fn joined_frame_encodes() {
    let e = ServerMessage::Joined { user: "alice".to_string() };
    assert_eq!(encode_server_message(&e), r#"{"type":"Joined","user":"alice"}"#);
}

#[test]
fn left_frame_encodes() {
    let e = ServerMessage::Left { user: "bob".to_string() };
    assert_eq!(encode_server_message(&e), r#"{"type":"Left","user":"bob"}"#);
}

#[test]
fn message_frame_escapes_strings() {
    let e = ServerMessage::Message { text: "say \"hi\"\n".to_string(), user: "al\\ice".to_string() };
    assert_eq!(
        encode_server_message(&e),
        r#"{"type":"Message","user":"al\\ice","text":"say \"hi\"\n"}"#
    );
}

#[test]
fn client_frames_encode() {
    let c = ClientMessage::Connect { room: "lobby".to_string(), user: "alice".to_string() };
    assert_eq!(
        encode_client_message(&c),
        r#"{"type":"Connect","room":"lobby","user":"alice"}"#
    );
    let s = ClientMessage::SendMessage { text: "hi".to_string() };
    assert_eq!(encode_client_message(&s), r#"{"type":"SendMessage","text":"hi"}"#);
}

#[test]
fn frames_assemble_from_literals() {
    let e = ServerMessage::Message { text: String::new(), user: String::new() };
    assert_eq!(assemble_server_frame(&e, "\"u\"", "\"t\""), r#"{"type":"Message","user":"u","text":"t"}"#);
    let c = ClientMessage::Connect { room: String::new(), user: String::new() };
    assert_eq!(assemble_client_frame(&c, "\"r\"", "\"u\""), r#"{"type":"Connect","room":"r","user":"u"}"#);
}

#[test]
fn handshake_needs_connect_first() {
    let ok = handshake(Inbound::Event(ClientMessage::Connect {
        room: "lobby".to_string(),
        user: "alice".to_string(),
    }));
    assert_eq!(ok, Some(Connect { room: "lobby".to_string(), user: "alice".to_string() }));
    assert_eq!(handshake(Inbound::Event(ClientMessage::SendMessage { text: "hi".to_string() })), None);
    assert_eq!(handshake(Inbound::Undecodable), None);
    assert_eq!(handshake(Inbound::NonText), None);
    assert_eq!(handshake(Inbound::Closed), None);
}

#[test]
fn reader_after_join() {
    match after_join(Inbound::Event(ClientMessage::SendMessage { text: "hi".to_string() }), 3) {
        ReaderStep::Forward(RoomEvent::ClientMessage { message, member }) => {
            assert_eq!(member, 3);
            assert_eq!(message, ClientMessage::SendMessage { text: "hi".to_string() });
        }
        other => panic!("unexpected {:?}", other),
    }
    assert!(matches!(after_join(Inbound::Undecodable, 3), ReaderStep::Skip));
    assert!(matches!(after_join(Inbound::NonText, 3), ReaderStep::Skip));
    assert!(matches!(after_join(Inbound::Closed, 3), ReaderStep::Finish(RoomEvent::Leave { member: 3 })));
}

#[test]
fn chat_log_follows_connection_events() {
    let mut log = ChatLog::new();
    assert_eq!(log.status, Status::Connecting);
    log.apply_all(vec![
        ConnectionEvent::Opened,
        ConnectionEvent::Message(ServerMessage::Joined { user: "a".to_string() }),
        ConnectionEvent::Message(ServerMessage::Left { user: "a".to_string() }),
    ]);
    assert_eq!(log.status, Status::Connected);
    assert_eq!(log.messages.len(), 2);
    assert_eq!(log.messages[1], ServerMessage::Left { user: "a".to_string() });
    log.apply(ConnectionEvent::Error("boom".to_string()));
    assert_eq!(log.status, Status::Error("boom".to_string()));
    log.apply(ConnectionEvent::Closed);
    assert_eq!(log.status, Status::Closed);
    assert_eq!(log.messages.len(), 2);
}

#[test]
fn lines_show_each_event() {
    let m = Message { text: "hi".to_string(), user: "alice".to_string() }.into_server_message();
    assert_eq!(line_of(&m), "alice: hi");
    assert_eq!(line_of(&ServerMessage::Joined { user: "bob".to_string() }), "bob joined the room");
    assert_eq!(line_of(&ServerMessage::Left { user: "bob".to_string() }), "bob left the room");
}

#[test]
fn bodies_become_client_events() {
    let s = SendMessage { text: "x".to_string() }.into_client_message();
    assert_eq!(s, ClientMessage::SendMessage { text: "x".to_string() });
    let c = Connect { room: "r".to_string(), user: "u".to_string() }.into_client_message();
    assert_eq!(c, ClientMessage::Connect { room: "r".to_string(), user: "u".to_string() });
}

#[test]
fn control_characters_use_lowercase_hex() {
    let e = ServerMessage::Joined { user: "a\u{1b}\tb\u{8}\u{c}\r".to_string() };
    assert_eq!(encode_server_message(&e), r#"{"type":"Joined","user":"a\u001b\tb\b\f\r"}"#);
}

#[test]
fn non_ascii_is_kept_as_is() {
    let e = ClientMessage::SendMessage { text: "héllo ✓".to_string() };
    assert_eq!(encode_client_message(&e), "{\"type\":\"SendMessage\",\"text\":\"héllo ✓\"}");
}

#[test]
fn failed_deliveries_become_leaves() {
    let events = leaves_for(&vec![4, 2]);
    assert_eq!(events.len(), 2);
    assert!(matches!(events[0], RoomEvent::Leave { member: 4 }));
    assert!(matches!(events[1], RoomEvent::Leave { member: 2 }));
    assert!(leaves_for(&Vec::new()).is_empty());
}
