//! The room actor's state: an ordered membership table keyed by member id,
//! and the transition taken on each join, client message and leave.
use vstd::prelude::*;

use crate::events::{ClientMessage, ClientEventView, ServerMessage, ServerEventView};
use crate::history::{state_after, outcome_at};

verus! {

/// One joined participant: its member id and display name.
#[derive(Debug)]
pub struct Member {
    pub id: u64,
    pub user: String,
}

/// The membership state owned by one room actor.
///
/// Members are kept in join order; ids are issued from a counter that only
/// grows, so no id is ever issued twice.
#[derive(Debug)]
pub struct Room {
    next_id: u64,
    members: Vec<Member>,
}

/// The mathematical value of a room: the counter and the members in join order.
pub struct RoomState {
    pub next_id: nat,
    pub members: Seq<(u64, Seq<char>)>,
}

/// An event processed by a room, in the order in which it reaches the room.
#[derive(Debug)]
pub enum RoomEvent {
    /// A connection joins under a display name.
    Join { user: String },
    /// A decoded client event from the connection with this member id.
    ClientMessage { message: ClientMessage, member: u64 },
    /// The connection with this member id is gone.
    Leave { member: u64 },
}

pub enum RoomEventView {
    Join { user: Seq<char> },
    ClientMessage { message: ClientEventView, member: u64 },
    Leave { member: u64 },
}

impl View for RoomEvent {
    type V = RoomEventView;

    open spec fn view(&self) -> RoomEventView {
        match self {
            RoomEvent::Join { user } => RoomEventView::Join { user: user@ },
            RoomEvent::ClientMessage { message, member } => RoomEventView::ClientMessage {
                message: message@,
                member: *member,
            },
            RoomEvent::Leave { member } => RoomEventView::Leave { member: *member },
        }
    }
}

/// What a room does in answer to one event: the id it assigned (on a join),
/// and the event it broadcasts with the member ids it is delivered to.
#[derive(Debug)]
pub struct Outcome {
    pub assigned: Option<u64>,
    pub broadcast: Option<ServerMessage>,
    pub recipients: Vec<u64>,
}

pub struct OutcomeView {
    pub assigned: Option<u64>,
    pub broadcast: Option<ServerEventView>,
    pub recipients: Seq<u64>,
}

impl View for Outcome {
    type V = OutcomeView;

    open spec fn view(&self) -> OutcomeView {
        OutcomeView {
            assigned: self.assigned,
            broadcast: match self.broadcast {
                Some(m) => Some(m@),
                None => None,
            },
            recipients: self.recipients@,
        }
    }
}

impl View for Room {
    type V = RoomState;

    closed spec fn view(&self) -> RoomState {
        RoomState {
            next_id: self.next_id as nat,
            members: self.members@.map_values(|m: Member| (m.id, m.user@)),
        }
    }
}

/// The member ids of a membership table, in join order.
pub open spec fn ids(members: Seq<(u64, Seq<char>)>) -> Seq<u64> {
    members.map_values(|m: (u64, Seq<char>)| m.0)
}

pub open spec fn has_member(members: Seq<(u64, Seq<char>)>, id: u64) -> bool {
    exists|i: int| 0 <= i < members.len() && #[trigger] members[i].0 == id
}

/// The position of the member with this id (meaningful where `has_member`).
pub open spec fn position(members: Seq<(u64, Seq<char>)>, id: u64) -> int {
    choose|i: int| 0 <= i < members.len() && #[trigger] members[i].0 == id
}

impl RoomState {
    /// Ids increase along the join order, and every id is below the counter.
    pub open spec fn wf(self) -> bool {
        &&& self.next_id <= u64::MAX
        &&& forall|i: int, j: int|
            0 <= i < j < self.members.len() ==> #[trigger] self.members[i].0 < #[trigger] self.members[j].0
        &&& forall|i: int| 0 <= i < self.members.len() ==> #[trigger] self.members[i].0 < self.next_id
    }
}

/// A room in which nobody has joined yet.
pub open spec fn empty_room() -> RoomState {
    RoomState { next_id: 0, members: Seq::empty() }
}

pub open spec fn quiet() -> OutcomeView {
    OutcomeView { assigned: None, broadcast: None, recipients: Seq::empty() }
}

/// The transition of a room on one event.
///
/// - A join takes the next id, appends the member, and announces it to every
///   member, the newcomer included. Once every id has been issued, a join is
///   refused: no id, no change, no broadcast.
/// - A `SendMessage` from a present member is broadcast to every member under
///   the name that member joined with; from an absent member it is dropped.
///   A `Connect` after the join is dropped.
/// - A leave of a present member removes it and announces it to the members
///   that remain; a leave of an absent member changes nothing.
pub open spec fn step_spec(v: RoomState, e: RoomEventView) -> (RoomState, OutcomeView) {
    match e {
        RoomEventView::Join { user } => {
            if v.next_id < u64::MAX {
                let members = v.members.push((v.next_id as u64, user));
                (
                    RoomState { next_id: v.next_id + 1, members },
                    OutcomeView {
                        assigned: Some(v.next_id as u64),
                        broadcast: Some(ServerEventView::Joined { user }),
                        recipients: ids(members),
                    },
                )
            } else {
                (v, quiet())
            }
        },
        RoomEventView::ClientMessage { message, member } => {
            match message {
                ClientEventView::SendMessage { text } => {
                    if has_member(v.members, member) {
                        let user = v.members[position(v.members, member)].1;
                        (
                            v,
                            OutcomeView {
                                assigned: None,
                                broadcast: Some(ServerEventView::Message { user, text }),
                                recipients: ids(v.members),
                            },
                        )
                    } else {
                        (v, quiet())
                    }
                },
                ClientEventView::Connect { .. } => (v, quiet()),
            }
        },
        RoomEventView::Leave { member } => {
            if has_member(v.members, member) {
                let i = position(v.members, member);
                let members = v.members.remove(i);
                (
                    RoomState { next_id: v.next_id, members },
                    OutcomeView {
                        assigned: None,
                        broadcast: Some(ServerEventView::Left { user: v.members[i].1 }),
                        recipients: ids(members),
                    },
                )
            } else {
                (v, quiet())
            }
        },
    }
}

impl Room {
    /// The table's ids increase in join order and are below the counter.
    pub open spec fn wf(&self) -> bool {
        self@.wf()
    }

    /// A room with no members whose first id will be 0.
    pub fn new() -> (r: Room)
        ensures
            r.wf(),
            r@ == empty_room(),
    {
        let r = Room { next_id: 0, members: Vec::new() };
        assert(r@.members =~= Seq::<(u64, Seq<char>)>::empty());
        r
    }

    /// The number of members.
    pub fn len(&self) -> (r: usize)
        ensures
            r == self@.members.len(),
    {
        self.members.len()
    }

    /// The position in the table of the member with this id, if present.
    fn find(&self, id: u64) -> (r: Option<usize>)
        requires
            self.wf(),
        ensures
            r.is_some() <==> has_member(self@.members, id),
            r matches Some(i) ==> i == position(self@.members, id) && i < self@.members.len(),
    {
        let ghost ms = self@.members;
        let mut i: usize = 0;
        while i < self.members.len()
            invariant
                i <= self.members.len(),
                ms == self@.members,
                ms.len() == self.members@.len(),
                self@.wf(),
                forall|j: int| 0 <= j < i ==> #[trigger] ms[j].0 != id,
            decreases self.members.len() - i,
        {
            assert(ms[i as int].0 == self.members@[i as int].id);
            if self.members[i].id == id {
                assert(has_member(ms, id));
                let ghost p = position(ms, id);
                assert(ms[p].0 == id);
                assert(p == i) by {
                    if p < i {
                        assert(ms[p].0 < ms[i as int].0);
                    } else if p > i {
                        assert(ms[i as int].0 < ms[p].0);
                    }
                }
                return Some(i);
            }
            i += 1;
        }
        assert(!has_member(ms, id));
        None
    }

    /// The display name of the member with this id, if present.
    pub fn user_of(&self, id: u64) -> (r: Option<String>)
        requires
            self.wf(),
        ensures
            r.is_some() <==> has_member(self@.members, id),
            r matches Some(u) ==> u@ == self@.members[position(self@.members, id)].1,
    {
        match self.find(id) {
            Some(i) => Some(self.members[i].user.clone()),
            None => None,
        }
    }

    /// The ids of every member, in join order: the recipients of a broadcast.
    pub fn member_ids(&self) -> (r: Vec<u64>)
        ensures
            r@ == ids(self@.members),
    {
        let ghost ms = self@.members;
        let mut r: Vec<u64> = Vec::new();
        let mut i: usize = 0;
        while i < self.members.len()
            invariant
                i <= self.members.len(),
                ms == self@.members,
                ms.len() == self.members@.len(),
                r@ == ids(ms.take(i as int)),
            decreases self.members.len() - i,
        {
            r.push(self.members[i].id);
            assert(ms.take(i + 1) =~= ms.take(i as int).push(ms[i as int]));
            i += 1;
        }
        assert(ms.take(i as int) =~= ms);
        r
    }

    /// Admits a member under `user`: it gets the next id, and joins the end
    /// of the table. Refused, with nothing changed, once every id is issued.
    pub fn join(&mut self, user: String) -> (r: Option<u64>)
        requires
            old(self).wf(),
        ensures
            final(self).wf(),
            old(self)@.next_id < u64::MAX ==> {
                &&& r == Some(old(self)@.next_id as u64)
                &&& final(self)@.next_id == old(self)@.next_id + 1
                &&& final(self)@.members == old(self)@.members.push((old(self)@.next_id as u64, user@))
            },
            old(self)@.next_id == u64::MAX ==> r.is_none() && final(self)@ == old(self)@,
    {
        if self.next_id == u64::MAX {
            return None;
        }
        let ghost old_ms = self@.members;
        let id = self.next_id;
        self.members.push(Member { id, user });
        self.next_id = id + 1;
        assert(self@.members =~= old_ms.push((id, user@)));
        Some(id)
    }

    /// Removes the member with this id and hands back its display name;
    /// an id that is not present changes nothing.
    pub fn remove_user(&mut self, id: u64) -> (r: Option<String>)
        requires
            old(self).wf(),
        ensures
            final(self).wf(),
            has_member(old(self)@.members, id) ==> {
                let i = position(old(self)@.members, id);
                &&& r matches Some(u) && u@ == old(self)@.members[i].1
                &&& final(self)@.next_id == old(self)@.next_id
                &&& final(self)@.members == old(self)@.members.remove(i)
            },
            !has_member(final(self)@.members, id),
            !has_member(old(self)@.members, id) ==> r.is_none() && final(self)@ == old(self)@,
    {
        match self.find(id) {
            Some(i) => {
                let ghost old_ms = self@.members;
                let m = self.members.remove(i);
                assert(self@.members =~= old_ms.remove(i as int));
                assert forall|a: int, b: int| 0 <= a < b < self@.members.len() implies
                    #[trigger] self@.members[a].0 < #[trigger] self@.members[b].0 by {
                    if a < i {
                        if b < i {
                        } else {
                            assert(self@.members[b] == old_ms[b + 1]);
                        }
                    } else {
                        assert(self@.members[a] == old_ms[a + 1]);
                        assert(self@.members[b] == old_ms[b + 1]);
                    }
                }
                assert forall|a: int| 0 <= a < self@.members.len() implies
                    #[trigger] self@.members[a].0 < self@.next_id by {
                    if a >= i {
                        assert(self@.members[a] == old_ms[a + 1]);
                    }
                }
                proof {
                    if has_member(self@.members, id) {
                        let q = choose|q: int| 0 <= q < self@.members.len() && #[trigger] self@.members[q].0 == id;
                        if q < i {
                            assert(old_ms[q].0 < old_ms[i as int].0);
                        } else {
                            assert(self@.members[q] == old_ms[q + 1]);
                            assert(old_ms[i as int].0 < old_ms[q + 1].0);
                        }
                    }
                }
                Some(m.user)
            },
            None => None,
        }
    }

    /// Processes one event: updates the table and says what to broadcast to
    /// whom, as `step_spec` describes.
    pub fn step(&mut self, event: RoomEvent) -> (r: Outcome)
        requires
            old(self).wf(),
        ensures
            final(self).wf(),
            (final(self)@, r@) == step_spec(old(self)@, event@),
    {
        match event {
            RoomEvent::Join { user } => {
                let name = user.clone();
                match self.join(user) {
                    Some(id) => Outcome {
                        assigned: Some(id),
                        broadcast: Some(ServerMessage::Joined { user: name }),
                        recipients: self.member_ids(),
                    },
                    None => Outcome { assigned: None, broadcast: None, recipients: Vec::new() },
                }
            },
            RoomEvent::ClientMessage { message, member } => {
                match message {
                    ClientMessage::SendMessage { text } => {
                        match self.user_of(member) {
                            Some(user) => Outcome {
                                assigned: None,
                                broadcast: Some(ServerMessage::Message { text, user }),
                                recipients: self.member_ids(),
                            },
                            None => Outcome { assigned: None, broadcast: None, recipients: Vec::new() },
                        }
                    },
                    ClientMessage::Connect { .. } => Outcome {
                        assigned: None,
                        broadcast: None,
                        recipients: Vec::new(),
                    },
                }
            },
            RoomEvent::Leave { member } => {
                match self.remove_user(member) {
                    Some(user) => Outcome {
                        assigned: None,
                        broadcast: Some(ServerMessage::Left { user }),
                        recipients: self.member_ids(),
                    },
                    None => Outcome { assigned: None, broadcast: None, recipients: Vec::new() },
                }
            },
        }
    }
}

/// The views of a sequence of events.
pub open spec fn events_view(es: Seq<RoomEvent>) -> Seq<RoomEventView> {
    es.map_values(|e: RoomEvent| e@)
}

impl Room {
    /// Processes events one at a time, in order, and returns what each did:
    /// the room ends as `state_after` says, and outcome `k` is `outcome_at`.
    pub fn run(&mut self, events: Vec<RoomEvent>) -> (r: Vec<Outcome>)
        requires
            old(self).wf(),
        ensures
            final(self).wf(),
            final(self)@ == state_after(old(self)@, events_view(events@), events@.len() as nat),
            r@.len() == events@.len(),
            forall|k: int| 0 <= k < events@.len() ==>
                (#[trigger] r@[k])@ == outcome_at(old(self)@, events_view(events@), k as nat),
    {
        let ghost v0 = self@;
        let ghost es = events_view(events@);
        let ghost n = events@.len();
        let mut events = events;
        let mut r: Vec<Outcome> = Vec::new();
        while events.len() > 0
            invariant
                events@.len() <= n,
                es.len() == n,
                forall|j: int| 0 <= j < events@.len() ==> (#[trigger] events@[j])@ == es[n - events@.len() + j],
                v0.wf(),
                self.wf(),
                r@.len() == n - events@.len(),
                self@ == state_after(v0, es, (n - events@.len()) as nat),
                forall|k: int| 0 <= k < r@.len() ==> (#[trigger] r@[k])@ == outcome_at(v0, es, k as nat),
            decreases events@.len(),
        {
            let ghost k = (n - events@.len()) as nat;
            let ghost before = events@;
            let e = events.remove(0);
            assert(e@ == es[k as int]);
            assert forall|j: int| 0 <= j < events@.len() implies
                (#[trigger] events@[j])@ == es[n - events@.len() + j] by {
                assert(events@[j] == before[j + 1]);
            }
            let o = self.step(e);
            r.push(o);
        }
        r
    }
}

/// The leaves forced on members whose outbound queue refused a frame: one
/// `Leave` per id, in the same order.
pub fn leaves_for(dead: &Vec<u64>) -> (r: Vec<RoomEvent>)
    ensures
        r@.len() == dead@.len(),
        forall|i: int| 0 <= i < dead@.len() ==> (#[trigger] r@[i])@ == (RoomEventView::Leave { member: dead@[i] }),
{
    let mut r: Vec<RoomEvent> = Vec::new();
    let mut i: usize = 0;
    while i < dead.len()
        invariant
            i <= dead@.len(),
            r@.len() == i,
            forall|j: int| 0 <= j < i ==> (#[trigger] r@[j])@ == (RoomEventView::Leave { member: dead@[j] }),
        decreases dead@.len() - i,
    {
        r.push(RoomEvent::Leave { member: dead[i] });
        i += 1;
    }
    r
}

} // verus!
