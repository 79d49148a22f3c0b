//! What the rest of a service talks to.

pub mod room_manager;
pub mod user_manager;
