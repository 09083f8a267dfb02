//! The room routes: the cache-aside listing of rooms and the posting of a
//! message.

use crate::errors::AppError;
use crate::models::message::CreateMessageRequest;
use crate::models::room::{responses_of, to_responses, Model, RoomResponse};
use crate::services::jwt_service::Claims;
use crate::services::message_service::{empty_content, MessageService, NewMessage};
use crate::services::redis_service::Cached;
use chrono::NaiveDateTime;
use vstd::prelude::*;

verus! {

/// What the cache answered to the read of the room list.
#[derive(Clone, Debug, PartialEq)]
pub enum CacheRead {
    /// No cache is configured.
    Off,
    /// The cache could not be read.
    Failed,
    /// The cache was read.
    Answered(Cached<Vec<RoomResponse>>),
}

/// What listing the rooms does next.
#[derive(Clone, Debug, PartialEq)]
pub enum ListStep {
    /// Answer with these rooms; the store is not asked.
    Respond(Vec<RoomResponse>),
    /// Ask the store for the rooms.
    QueryStore,
}

/// What listing the rooms does once the store has answered.
#[derive(Clone, Debug, PartialEq)]
pub struct Listing {
    /// The rooms to answer with.
    pub rooms: Vec<RoomResponse>,
    /// Whether to write them to the cache before answering.
    pub write_back: bool,
}

/// Decides what follows the read of the cache: a hit answers the request
/// without the store; a miss, an unreadable entry, a cache that failed and no
/// cache at all each fall through to the store and fail nothing.
pub fn get_rooms(read: CacheRead) -> (r: ListStep)
    ensures
        r == match read {
            CacheRead::Answered(Cached::Found(rooms)) => ListStep::Respond(rooms),
            _ => ListStep::QueryStore,
        },
{
    match read {
        CacheRead::Answered(Cached::Found(rooms)) => ListStep::Respond(rooms),
        _ => ListStep::QueryStore,
    }
}

/// Decides what follows the store's answer: its rooms, in its order, are the
/// answer, and go to the cache first if there is one; the store's failure
/// fails the request.
pub fn rooms_from_store(stored: Result<Vec<Model>, String>, cache_on: bool) -> (r: Result<
    Listing,
    AppError,
>)
    ensures
        match stored {
            Ok(rooms) => r matches Ok(listing) && listing.rooms@ == responses_of(rooms@)
                && listing.write_back == cache_on,
            Err(cause) => r matches Err(AppError::DatabaseError(c)) && c == cause,
        },
{
    match stored {
        Ok(rooms) => Ok(Listing { rooms: to_responses(rooms), write_back: cache_on }),
        Err(cause) => Err(AppError::DatabaseError(cause)),
    }
}

/// The answer once the cache has been written, or not: the rooms, whether
/// the write succeeded or failed.
pub fn rooms_after_write(listing: Listing, written: bool) -> (r: Vec<RoomResponse>)
    ensures
        r == listing.rooms,
{
    listing.rooms
}

/// Checks a message that the bearer of `claims` posts to `room_id` at `now`
/// and gives the row to persist. Claims whose subject is no user id make the
/// token invalid; empty content is refused.
pub fn create_message(
    service: &MessageService,
    room_id: i32,
    claims: &Claims,
    req: CreateMessageRequest,
    now: NaiveDateTime,
) -> (r: Result<NewMessage, AppError>)
    ensures
        match r {
            Ok(row) => {
                &&& claims.subject() == Some(row.sender_id as int)
                &&& req.content@.len() > 0
                &&& row.room_id == room_id
                &&& row.content@ == req.content@
                &&& row.created_at == now
            },
            Err(e) => match claims.subject() {
                None => e is InvalidToken,
                Some(_) => {
                    &&& req.content@.len() == 0
                    &&& e matches AppError::ValidationError(reason)
                    &&& reason@ == empty_content()
                },
            },
        },
{
    let user_id = match claims.user_id() {
        Ok(id) => id,
        Err(e) => { return Err(e); },
    };
    service.create_message(user_id, room_id, req, now)
}

} // verus!
