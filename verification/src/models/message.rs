//! Chat messages.

use chrono::NaiveDateTime;
use vstd::prelude::*;

verus! {

/// A message as the persistent store holds it. The store assigns `id`.
#[derive(Clone, Debug, PartialEq)]
pub struct Model {
    pub id: i32,
    pub sender_id: i32,
    pub room_id: i32,
    pub content: String,
    pub created_at: NaiveDateTime,
}

/// A message as it answers a request.
#[derive(Clone, Debug, PartialEq)]
pub struct MessageResponse {
    pub id: i32,
    pub sender_id: i32,
    pub room_id: i32,
    pub content: String,
    pub created_at: NaiveDateTime,
}

impl MessageResponse {
    /// The answer that shows `message`.
    pub open spec fn of(message: Model) -> MessageResponse {
        MessageResponse {
            id: message.id,
            sender_id: message.sender_id,
            room_id: message.room_id,
            content: message.content,
            created_at: message.created_at,
        }
    }
}

impl From<Model> for MessageResponse {
    fn from(message: Model) -> (r: MessageResponse) {
        MessageResponse {
            id: message.id,
            sender_id: message.sender_id,
            room_id: message.room_id,
            content: message.content,
            created_at: message.created_at,
        }
    }
}

impl vstd::std_specs::convert::FromSpecImpl<Model> for MessageResponse {
    open spec fn obeys_from_spec() -> bool {
        true
    }

    open spec fn from_spec(message: Model) -> MessageResponse {
        MessageResponse::of(message)
    }
}

/// The body of a request to post a message.
#[derive(Clone, Debug, PartialEq)]
pub struct CreateMessageRequest {
    pub content: String,
}

} // verus!
