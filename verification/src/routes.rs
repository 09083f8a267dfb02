//! What the routes decide.

pub mod room;
pub mod websocket;
