//! The decisions of a connection's inbound reader: what its first frame must
//! be, and what each later frame becomes for the room.
use vstd::prelude::*;

use crate::events::{ClientMessage, ClientEventView, Connect};
use crate::room::{RoomEvent, RoomEventView};

verus! {

/// One read from a connection, as the transport and the decoder saw it.
#[derive(Debug)]
pub enum Inbound {
    /// A text frame that decoded to a client event.
    Event(ClientMessage),
    /// A text frame that did not decode.
    Undecodable,
    /// A frame that is not text.
    NonText,
    /// The stream ended or the transport failed.
    Closed,
}

/// What the reader does with a frame once its connection has joined.
#[derive(Debug)]
pub enum ReaderStep {
    /// Hand this event to the room and read on.
    Forward(RoomEvent),
    /// Drop the frame and read on.
    Skip,
    /// Hand this event to the room and stop reading.
    Finish(RoomEvent),
}

/// The first frame of a connection: only a decoded `Connect` lets it join,
/// with the room and display name it names; anything else aborts the setup.
pub fn handshake(first: Inbound) -> (r: Option<Connect>)
    ensures
        r is Some <==> (first matches Inbound::Event(ClientMessage::Connect { .. })),
        r matches Some(c) ==> (first matches Inbound::Event(m) && m@ == (ClientEventView::Connect {
            room: c.room@,
            user: c.user@,
        })),
{
    match first {
        Inbound::Event(ClientMessage::Connect { room, user }) => Some(Connect { room, user }),
        _ => None,
    }
}

/// A frame after the join of member `member`: decoded events go to the room
/// tagged with the member id, undecodable and non-text frames are dropped,
/// and the end of the stream becomes the member's leave.
pub fn after_join(frame: Inbound, member: u64) -> (r: ReaderStep)
    ensures
        match frame {
            Inbound::Event(m) => r matches ReaderStep::Forward(e)
                && e@ == (RoomEventView::ClientMessage { message: m@, member }),
            Inbound::Undecodable => r is Skip,
            Inbound::NonText => r is Skip,
            Inbound::Closed => r matches ReaderStep::Finish(e) && e@ == (RoomEventView::Leave { member }),
        },
{
    match frame {
        Inbound::Event(message) => ReaderStep::Forward(RoomEvent::ClientMessage { message, member }),
        Inbound::Undecodable => ReaderStep::Skip,
        Inbound::NonText => ReaderStep::Skip,
        Inbound::Closed => ReaderStep::Finish(RoomEvent::Leave { member }),
    }
}

} // verus!
