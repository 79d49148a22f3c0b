//! Rooms of a chat service: who is in a room, who moderates it, what was said
//! in it, and the fan-out of each new message to the live listeners of the
//! room.
//!
//! [`managers::room_manager::RoomManager`] is the one entry point. It owns
//! every [`models::room::Room`] together with the broadcast channel of that
//! room, checks each request against the room's state and answers with a
//! [`error::RoomError`] where the request is refused. A listener follows a
//! room through a [`stream::StreamSession`].

pub mod channel;
pub mod error;
pub mod ids;
pub mod launch;
pub mod managers;
pub mod models;
pub mod stream;

pub use launch::rocket;
