//! The records of the persistent store and the shapes that answer requests.

pub mod message;
pub mod room;
pub mod user;
