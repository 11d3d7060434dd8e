//! Events sent by clients to a room and broadcast by a room to its members.
use vstd::prelude::*;

verus! {

/// An event broadcast from a room to its members.
#[derive(Debug, Clone, PartialEq, Eq)]
pub enum ServerMessage {
    Message { text: String, user: String },
    Joined { user: String },
    Left { user: String },
}

/// An event sent by a participant to its room.
#[derive(Debug, Clone, PartialEq, Eq)]
pub enum ClientMessage {
    SendMessage { text: String },
    Connect { room: String, user: String },
}

/// The mathematical value of a `ServerMessage`.
pub enum ServerEventView {
    Message { user: Seq<char>, text: Seq<char> },
    Joined { user: Seq<char> },
    Left { user: Seq<char> },
}

/// The mathematical value of a `ClientMessage`.
pub enum ClientEventView {
    SendMessage { text: Seq<char> },
    Connect { room: Seq<char>, user: Seq<char> },
}

impl View for ServerMessage {
    type V = ServerEventView;

    open spec fn view(&self) -> ServerEventView {
        match self {
            ServerMessage::Message { text, user } => ServerEventView::Message { user: user@, text: text@ },
            ServerMessage::Joined { user } => ServerEventView::Joined { user: user@ },
            ServerMessage::Left { user } => ServerEventView::Left { user: user@ },
        }
    }
}

impl View for ClientMessage {
    type V = ClientEventView;

    open spec fn view(&self) -> ClientEventView {
        match self {
            ClientMessage::SendMessage { text } => ClientEventView::SendMessage { text: text@ },
            ClientMessage::Connect { room, user } => ClientEventView::Connect { room: room@, user: user@ },
        }
    }
}

/// A chat line as shown to a participant.
#[derive(Debug, Clone, PartialEq, Eq)]
pub struct Message {
    pub text: String,
    pub user: String,
}

/// The body of a `SendMessage` client event.
#[derive(Debug, Clone, PartialEq, Eq)]
pub struct SendMessage {
    pub text: String,
}

/// The body of a `Connect` client event.
#[derive(Debug, Clone, PartialEq, Eq)]
pub struct Connect {
    pub room: String,
    pub user: String,
}

impl Message {
    /// The `Message` broadcast that carries this line.
    pub fn into_server_message(self) -> (r: ServerMessage)
        ensures
            r@ == (ServerEventView::Message { user: self.user@, text: self.text@ }),
    {
        ServerMessage::Message { text: self.text, user: self.user }
    }
}

impl SendMessage {
    /// The client event that sends this text.
    pub fn into_client_message(self) -> (r: ClientMessage)
        ensures
            r@ == (ClientEventView::SendMessage { text: self.text@ }),
    {
        ClientMessage::SendMessage { text: self.text }
    }
}

impl Connect {
    /// The client event that asks to join `room` as `user`.
    pub fn into_client_message(self) -> (r: ClientMessage)
        ensures
            r@ == (ClientEventView::Connect { room: self.room@, user: self.user@ }),
    {
        ClientMessage::Connect { room: self.room, user: self.user }
    }
}

/// What a client's connection reports to its user interface.
#[derive(Debug, Clone, PartialEq, Eq)]
pub enum ConnectionEvent {
    Opened,
    Message(ServerMessage),
    Error(String),
    Closed,
}

} // verus!
