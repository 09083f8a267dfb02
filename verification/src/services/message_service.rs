//! The message pipeline: a submission is checked, then persisted by the
//! caller, and only then published to the room.

use crate::errors::AppError;
use crate::models::message::{CreateMessageRequest, MessageResponse, Model};
use crate::registry::RoomRegistry;
use crate::routes::websocket::WsBroadcast;
use crate::services::jwt_service::Identity;
use chrono::NaiveDateTime;
use vstd::prelude::*;
use vstd::string::StringExecFns;

verus! {

/// A message that is about to be written to the persistent store, which will
/// assign its id.
#[derive(Clone, Debug, PartialEq)]
pub struct NewMessage {
    pub sender_id: i32,
    pub room_id: i32,
    pub content: String,
    pub created_at: NaiveDateTime,
}

/// The text that reports an empty message.
pub open spec fn empty_content() -> Seq<char> {
    "Message content cannot be empty"@
}

/// A submission that passed the check and waits for the persistent store.
/// Only [`MessageService::submit`] makes one, so its content is never empty.
pub struct Submission {
    handle: String,
    row: NewMessage,
}

impl Submission {
    #[verifier::type_invariant]
    spec fn accepted(&self) -> bool {
        self.row.content@.len() > 0
    }

    /// The handle of the sender.
    pub closed spec fn spec_handle(&self) -> Seq<char> {
        self.handle@
    }

    /// The message to persist.
    pub closed spec fn spec_row(&self) -> NewMessage {
        self.row
    }

    /// The message to persist.
    pub fn row(&self) -> (r: &NewMessage)
        ensures
            *r == self.spec_row(),
            r.content@.len() > 0,
    {
        proof {
            use_type_invariant(self);
        }
        &self.row
    }

    /// The payload that subscribers of the room get once the message is
    /// persisted.
    pub open spec fn frame(&self) -> Seq<char> {
        WsBroadcast::frame_of(
            self.spec_handle(),
            self.spec_row().sender_id,
            self.spec_row().content@,
        )
    }
}

/// The message pipeline.
#[derive(Clone, Copy, Debug)]
pub struct MessageService;

impl MessageService {
    /// The pipeline. It keeps nothing between two submissions.
    pub fn new() -> (r: MessageService)
        ensures
            r == MessageService,
    {
        MessageService
    }

    /// Checks a message posted by `sender_id` to `room_id` at `now` and
    /// gives the row to persist. Empty content is refused.
    pub fn create_message(
        &self,
        sender_id: i32,
        room_id: i32,
        req: CreateMessageRequest,
        now: NaiveDateTime,
    ) -> (r: Result<NewMessage, AppError>)
        ensures
            match r {
                Ok(row) => {
                    &&& req.content@.len() > 0
                    &&& row.sender_id == sender_id
                    &&& row.room_id == room_id
                    &&& row.content@ == req.content@
                    &&& row.created_at == now
                },
                Err(e) => {
                    &&& req.content@.len() == 0
                    &&& e matches AppError::ValidationError(reason)
                    &&& reason@ == empty_content()
                },
            },
    {
        if req.content.as_str().is_empty() {
            return Err(
                AppError::ValidationError(String::from_str("Message content cannot be empty")),
            );
        }
        Ok(NewMessage { sender_id, room_id, content: req.content, created_at: now })
    }

    /// The answer to a posted message once the store has been asked to
    /// persist it: the stored message, or the store's failure.
    pub fn stored(&self, inserted: Result<Model, String>) -> (r: Result<MessageResponse, AppError>)
        ensures
            match inserted {
                Ok(model) => r == Ok::<MessageResponse, AppError>(MessageResponse::of(model)),
                Err(cause) => r matches Err(AppError::DatabaseError(c)) && c == cause,
            },
    {
        match inserted {
            Ok(model) => Ok(MessageResponse::from(model)),
            Err(cause) => Err(AppError::DatabaseError(cause)),
        }
    }

    /// First half of the pipeline: checks a chat submission of `sender` to
    /// `room_id`. Empty content is refused, so it is neither persisted nor
    /// broadcast; anything else becomes a [`Submission`] whose row the caller
    /// persists.
    pub fn submit(
        &self,
        sender: &Identity,
        room_id: i32,
        content: String,
        now: NaiveDateTime,
    ) -> (r: Result<Submission, AppError>)
        ensures
            match r {
                Ok(submission) => {
                    &&& content@.len() > 0
                    &&& submission.spec_handle() == sender.handle@
                    &&& submission.spec_row().sender_id == sender.user_id
                    &&& submission.spec_row().room_id == room_id
                    &&& submission.spec_row().content@ == content@
                    &&& submission.spec_row().created_at == now
                },
                Err(e) => {
                    &&& content@.len() == 0
                    &&& e matches AppError::ValidationError(reason)
                    &&& reason@ == empty_content()
                },
            },
    {
        let row = match self.create_message(
            sender.user_id,
            room_id,
            CreateMessageRequest { content },
            now,
        ) {
            Ok(row) => row,
            Err(e) => { return Err(e); },
        };
        Ok(Submission { handle: sender.handle.clone(), row })
    }

    /// Second half of the pipeline: what follows the store's answer. A
    /// message that was persisted is published to its room, to whoever is
    /// subscribed there, and answered with; whether anyone got it or was cut
    /// off does not matter to the sender. A message that was not persisted is
    /// not published: the registry stays as it was and the store's failure is
    /// the answer.
    pub fn complete(
        &self,
        registry: &mut RoomRegistry,
        submission: Submission,
        inserted: Result<Model, String>,
    ) -> (r: Result<MessageResponse, AppError>)
        requires
            old(registry).wf(),
        ensures
            final(registry).wf(),
            submission.spec_row().content@.len() > 0,
            match inserted {
                Ok(model) => {
                    &&& r == Ok::<MessageResponse, AppError>(MessageResponse::of(model))
                    &&& final(registry)@ == old(registry)@.published(
                        submission.spec_row().room_id,
                        submission.frame(),
                    )
                },
                Err(cause) => {
                    &&& r matches Err(AppError::DatabaseError(c)) && c == cause
                    &&& final(registry)@ == old(registry)@
                },
            },
    {
        proof {
            use_type_invariant(&submission);
        }
        match inserted {
            Ok(model) => {
                let broadcast = WsBroadcast::message(
                    submission.handle,
                    submission.row.sender_id,
                    submission.row.content,
                );
                let frame = broadcast.to_frame();
                let _ = registry.publish(submission.row.room_id, frame);
                Ok(MessageResponse::from(model))
            },
            Err(cause) => Err(AppError::DatabaseError(cause)),
        }
    }
}

} // verus!
