//! Room-scoped chat fan-out: the event types exchanged with clients, the
//! per-room membership state machine, the wire encoding of events, and the
//! decisions taken by the per-connection reader and by the chat client.

pub mod events;
pub mod room;
pub mod history;
pub mod wire;
pub mod reader;
pub mod client;
