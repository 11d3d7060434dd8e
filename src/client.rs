//! The chat client's record of one connection: its status and the events
//! the room has broadcast to it, in arrival order.
use vstd::prelude::*;
use vstd::string::StringExecFns;

use crate::events::{ConnectionEvent, ServerMessage, ServerEventView};

verus! {

/// Where a client's connection stands.
#[derive(Debug, Clone, PartialEq, Eq)]
pub enum Status {
    Connecting,
    Connected,
    Error(String),
    Closed,
}

pub enum StatusView {
    Connecting,
    Connected,
    Error(Seq<char>),
    Closed,
}

impl View for Status {
    type V = StatusView;

    open spec fn view(&self) -> StatusView {
        match self {
            Status::Connecting => StatusView::Connecting,
            Status::Connected => StatusView::Connected,
            Status::Error(e) => StatusView::Error(e@),
            Status::Closed => StatusView::Closed,
        }
    }
}

/// The status of a connection and the events received on it.
#[derive(Debug)]
pub struct ChatLog {
    pub status: Status,
    pub messages: Vec<ServerMessage>,
}

pub struct ChatLogView {
    pub status: StatusView,
    pub messages: Seq<ServerEventView>,
}

impl View for ChatLog {
    type V = ChatLogView;

    open spec fn view(&self) -> ChatLogView {
        ChatLogView {
            status: self.status@,
            messages: self.messages@.map_values(|m: ServerMessage| m@),
        }
    }
}

/// The record after one connection event: a broadcast is appended, and the
/// other events set the status.
pub open spec fn apply_spec(v: ChatLogView, e: ConnectionEvent) -> ChatLogView {
    match e {
        ConnectionEvent::Opened => ChatLogView { status: StatusView::Connected, ..v },
        ConnectionEvent::Message(m) => ChatLogView { messages: v.messages.push(m@), ..v },
        ConnectionEvent::Error(s) => ChatLogView { status: StatusView::Error(s@), ..v },
        ConnectionEvent::Closed => ChatLogView { status: StatusView::Closed, ..v },
    }
}

/// The record after a sequence of connection events, applied in order.
pub open spec fn apply_all_spec(v: ChatLogView, es: Seq<ConnectionEvent>) -> ChatLogView
    decreases es.len(),
{
    if es.len() == 0 {
        v
    } else {
        apply_spec(apply_all_spec(v, es.drop_last()), es.last())
    }
}

impl ChatLog {
    /// A connection that is being opened, with nothing received yet.
    pub fn new() -> (r: ChatLog)
        ensures
            r@.status == StatusView::Connecting,
            r@.messages == Seq::<ServerEventView>::empty(),
    {
        let r = ChatLog { status: Status::Connecting, messages: Vec::new() };
        assert(r@.messages =~= Seq::<ServerEventView>::empty());
        r
    }

    /// Records one connection event.
    pub fn apply(&mut self, event: ConnectionEvent)
        ensures
            final(self)@ == apply_spec(old(self)@, event),
    {
        let ghost old_v = self@;
        let ghost ev = event;
        match event {
            ConnectionEvent::Opened => self.status = Status::Connected,
            ConnectionEvent::Message(m) => {
                self.messages.push(m);
                assert(self@.messages =~= old_v.messages.push(ev->Message_0@));
            },
            ConnectionEvent::Error(e) => self.status = Status::Error(e),
            ConnectionEvent::Closed => self.status = Status::Closed,
        }
    }

    /// Records the events drained from a connection, in order.
    pub fn apply_all(&mut self, events: Vec<ConnectionEvent>)
        ensures
            final(self)@ == apply_all_spec(old(self)@, events@),
    {
        let ghost es = events@;
        let ghost v0 = self@;
        let mut events = events;
        assert(es.take(0) =~= Seq::<ConnectionEvent>::empty());
        while events.len() > 0
            invariant
                events@.len() <= es.len(),
                events@ == es.skip(es.len() - events@.len()),
                self@ == apply_all_spec(v0, es.take(es.len() - events@.len())),
            decreases events@.len(),
        {
            let ghost k = es.len() - events@.len();
            let e = events.remove(0);
            assert(e == es[k]);
            assert(es.take(k + 1).drop_last() =~= es.take(k));
            assert(events@ =~= es.skip(k + 1));
            self.apply(e);
        }
        assert(es.take(es.len() as int) =~= es);
    }
}

/// The line that shows a broadcast: `user: text`, `user joined the room` or
/// `user left the room`.
pub open spec fn line_spec(m: ServerEventView) -> Seq<char> {
    match m {
        ServerEventView::Message { user, text } => user + ": "@ + text,
        ServerEventView::Joined { user } => user + " joined the room"@,
        ServerEventView::Left { user } => user + " left the room"@,
    }
}

/// The line that shows a broadcast in the scrollback.
pub fn line_of(m: &ServerMessage) -> (r: String)
    ensures
        r@ == line_spec(m@),
{
    match m {
        ServerMessage::Message { text, user } => {
            let mut r = user.clone();
            r.append(": ");
            r.append(text.as_str());
            r
        },
        ServerMessage::Joined { user } => {
            let mut r = user.clone();
            r.append(" joined the room");
            r
        },
        ServerMessage::Left { user } => {
            let mut r = user.clone();
            r.append(" left the room");
            r
        },
    }
}

} // verus!
