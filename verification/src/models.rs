//! The values that rooms are made of.

pub mod message;
pub mod room;
pub mod user;
