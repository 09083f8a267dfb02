//! Chat rooms.

use chrono::NaiveDateTime;
use vstd::prelude::*;

verus! {

/// A room as the persistent store holds it.
#[derive(Clone, Debug, PartialEq)]
pub struct Model {
    pub id: i32,
    pub name: String,
    pub created_at: NaiveDateTime,
}

/// A room as it answers a request.
#[derive(Clone, Debug, PartialEq)]
pub struct RoomResponse {
    pub id: i32,
    pub name: String,
    pub created_at: NaiveDateTime,
}

impl RoomResponse {
    /// The answer that shows `room`.
    pub open spec fn of(room: Model) -> RoomResponse {
        RoomResponse { id: room.id, name: room.name, created_at: room.created_at }
    }
}

impl From<Model> for RoomResponse {
    fn from(room: Model) -> (r: RoomResponse) {
        RoomResponse { id: room.id, name: room.name, created_at: room.created_at }
    }
}

impl vstd::std_specs::convert::FromSpecImpl<Model> for RoomResponse {
    open spec fn obeys_from_spec() -> bool {
        true
    }

    open spec fn from_spec(room: Model) -> RoomResponse {
        RoomResponse::of(room)
    }
}

/// The answers for a list of rooms, in the same order.
pub open spec fn responses_of(rooms: Seq<Model>) -> Seq<RoomResponse> {
    rooms.map_values(|room: Model| RoomResponse::of(room))
}

/// Turns the rooms that the store returned into answers, in the same order.
pub fn to_responses(rooms: Vec<Model>) -> (r: Vec<RoomResponse>)
    ensures
        r@ == responses_of(rooms@),
{
    let ghost all = rooms@;
    let mut responses: Vec<RoomResponse> = Vec::new();
    for room in it: rooms
        invariant
            it.seq() == all,
            responses@ == responses_of(all.take(it.index() as int)),
    {
        responses.push(RoomResponse::from(room));
        proof {
            assert(all.take(it.index() + 1) =~= all.take(it.index() as int).push(
                all[it.index() as int],
            ));
        }
    }
    responses
}

} // verus!
