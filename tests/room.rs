use room_chat::events::{ClientMessage, ServerMessage};
use room_chat::room::{Outcome, Room, RoomEvent};

fn join(room: &mut Room, user: &str) -> Outcome {
    room.step(RoomEvent::Join { user: user.to_string() })
}

fn say(room: &mut Room, member: u64, text: &str) -> Outcome {
    room.step(RoomEvent::ClientMessage {
        message: ClientMessage::SendMessage { text: text.to_string() },
        member,
    })
}

fn leave(room: &mut Room, member: u64) -> Outcome {
    room.step(RoomEvent::Leave { member })
}

#[test]
fn first_join_is_announced_to_the_newcomer() {
    let mut lobby = Room::new();
    let o = join(&mut lobby, "alice");
    assert_eq!(o.assigned, Some(0));
    assert_eq!(o.broadcast, Some(ServerMessage::Joined { user: "alice".to_string() }));
    assert_eq!(o.recipients, vec![0]);
    assert_eq!(lobby.len(), 1);
}

#[test]
fn second_join_reaches_both_members() {
    let mut lobby = Room::new();
    join(&mut lobby, "alice");
    let o = join(&mut lobby, "bob");
    assert_eq!(o.assigned, Some(1));
    assert_eq!(o.broadcast, Some(ServerMessage::Joined { user: "bob".to_string() }));
    assert_eq!(o.recipients, vec![0, 1]);
}

#[test]
fn message_is_attributed_by_member_id() {
    let mut lobby = Room::new();
    let alice = join(&mut lobby, "alice").assigned.unwrap();
    join(&mut lobby, "bob");
    let o = say(&mut lobby, alice, "hi");
    assert_eq!(o.assigned, None);
    assert_eq!(
        o.broadcast,
        Some(ServerMessage::Message { text: "hi".to_string(), user: "alice".to_string() })
    );
    assert_eq!(o.recipients, vec![0, 1]);
}

#[test]
fn closed_transport_announces_left_and_stale_sends_are_dropped() {
    let mut lobby = Room::new();
    let alice = join(&mut lobby, "alice").assigned.unwrap();
    let bob = join(&mut lobby, "bob").assigned.unwrap();
    let o = leave(&mut lobby, alice);
    assert_eq!(o.broadcast, Some(ServerMessage::Left { user: "alice".to_string() }));
    assert_eq!(o.recipients, vec![bob]);
    let stale = say(&mut lobby, alice, "still here?");
    assert_eq!(stale.broadcast, None);
    assert!(stale.recipients.is_empty());
    assert_eq!(lobby.len(), 1);
    assert_eq!(lobby.user_of(bob), Some("bob".to_string()));
}

#[test]
fn leave_of_absent_member_is_noop() {
    let mut lobby = Room::new();
    let alice = join(&mut lobby, "alice").assigned.unwrap();
    leave(&mut lobby, alice);
    let again = leave(&mut lobby, alice);
    assert_eq!(again.assigned, None);
    assert_eq!(again.broadcast, None);
    assert!(again.recipients.is_empty());
    let never = leave(&mut lobby, 42);
    assert_eq!(never.broadcast, None);
    assert_eq!(lobby.len(), 0);
}

#[test]
fn rooms_do_not_share_broadcasts() {
    let mut a = Room::new();
    let mut b = Room::new();
    let x = join(&mut a, "x").assigned.unwrap();
    let y = join(&mut b, "y").assigned.unwrap();
    let in_a = say(&mut a, x, "only a");
    assert_eq!(in_a.recipients, vec![x]);
    assert_eq!(b.member_ids(), vec![y]);
    assert_eq!(b.user_of(y), Some("y".to_string()));
    let in_b = say(&mut b, y, "only b");
    assert_eq!(
        in_b.broadcast,
        Some(ServerMessage::Message { text: "only b".to_string(), user: "y".to_string() })
    );
    assert_eq!(a.member_ids(), vec![x]);
}

#[test]
fn ids_are_never_reused() {
    let mut room = Room::new();
    let mut seen: Vec<u64> = Vec::new();
    for name in ["a", "b", "c", "d"] {
        let id = join(&mut room, name).assigned.unwrap();
        assert!(!seen.contains(&id));
        seen.push(id);
        leave(&mut room, id);
    }
    let id = join(&mut room, "e").assigned.unwrap();
    assert_eq!(id, 4);
    assert!(!seen.contains(&id));
}

#[test]
fn joins_yield_distinct_ids_in_join_order() {
    let mut room = Room::new();
    for name in ["a", "b", "c"] {
        join(&mut room, name);
    }
    assert_eq!(room.len(), 3);
    assert_eq!(room.member_ids(), vec![0, 1, 2]);
}

#[test]
fn leave_broadcasts_to_remaining_members_only() {
    let mut room = Room::new();
    join(&mut room, "a");
    join(&mut room, "b");
    join(&mut room, "c");
    let o = leave(&mut room, 1);
    assert_eq!(o.broadcast, Some(ServerMessage::Left { user: "b".to_string() }));
    assert_eq!(o.recipients, vec![0, 2]);
}

#[test]
fn connect_after_join_is_dropped() {
    let mut room = Room::new();
    let a = join(&mut room, "a").assigned.unwrap();
    let o = room.step(RoomEvent::ClientMessage {
        message: ClientMessage::Connect { room: "other".to_string(), user: "z".to_string() },
        member: a,
    });
    assert_eq!(o.broadcast, None);
    assert!(o.recipients.is_empty());
    assert_eq!(room.member_ids(), vec![a]);
}

#[test]
fn message_from_a_member_is_never_seen_before_its_join() {
    let mut room = Room::new();
    let early = say(&mut room, 0, "too early");
    assert_eq!(early.broadcast, None);
    let a = join(&mut room, "a").assigned.unwrap();
    assert_eq!(a, 0);
    let now = say(&mut room, a, "now");
    assert!(now.broadcast.is_some());
}

#[test]
fn run_applies_events_in_order() {
    let mut room = Room::new();
    let outcomes = room.run(vec![
        RoomEvent::Join { user: "alice".to_string() },
        RoomEvent::Join { user: "bob".to_string() },
        RoomEvent::ClientMessage {
            message: ClientMessage::SendMessage { text: "hi".to_string() },
            member: 0,
        },
        RoomEvent::Leave { member: 0 },
        RoomEvent::ClientMessage {
            message: ClientMessage::SendMessage { text: "late".to_string() },
            member: 0,
        },
        RoomEvent::Leave { member: 0 },
    ]);
    assert_eq!(outcomes.len(), 6);
    assert_eq!(outcomes[0].assigned, Some(0));
    assert_eq!(outcomes[1].assigned, Some(1));
    assert_eq!(outcomes[1].recipients, vec![0, 1]);
    assert_eq!(
        outcomes[2].broadcast,
        Some(ServerMessage::Message { text: "hi".to_string(), user: "alice".to_string() })
    );
    assert_eq!(outcomes[3].broadcast, Some(ServerMessage::Left { user: "alice".to_string() }));
    assert_eq!(outcomes[3].recipients, vec![1]);
    assert_eq!(outcomes[4].broadcast, None);
    assert_eq!(outcomes[5].broadcast, None);
    assert_eq!(room.member_ids(), vec![1]);
}
