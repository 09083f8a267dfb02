use chat_backend::errors::AppError;
use chat_backend::models::room::{to_responses, Model, RoomResponse};
use chat_backend::routes::room::{
    get_rooms, rooms_after_write, rooms_from_store, CacheRead, ListStep, Listing,
};
use chat_backend::services::redis_service::{CacheKey, CacheWrite, Cached, RedisService};
use chrono::NaiveDateTime;

fn at(seconds: i64) -> NaiveDateTime {
    chrono::DateTime::from_timestamp(seconds, 0).unwrap().naive_utc()
}

fn room(id: i32, name: &str) -> Model {
    Model { id, name: name.to_string(), created_at: at(id as i64) }
}

fn answer(id: i32, name: &str) -> RoomResponse {
    RoomResponse { id, name: name.to_string(), created_at: at(id as i64) }
}

#[test]
fn populated_cache_answers_without_the_store() {
    let cached = vec![answer(1, "general"), answer(2, "random")];
    let step = get_rooms(CacheRead::Answered(Cached::Found(cached.clone())));
    assert_eq!(step, ListStep::Respond(cached));
}

#[test]
fn unavailable_cache_falls_through_to_the_store() {
    for read in [
        CacheRead::Off,
        CacheRead::Failed,
        CacheRead::Answered(Cached::Missing),
        CacheRead::Answered(Cached::Unreadable),
    ] {
        assert_eq!(get_rooms(read), ListStep::QueryStore);
    }
    let listing = rooms_from_store(Ok(vec![room(1, "general"), room(2, "random")]), false).unwrap();
    assert_eq!(listing.rooms, vec![answer(1, "general"), answer(2, "random")]);
    assert!(!listing.write_back);
}

#[test]
fn store_answer_is_written_back_when_there_is_a_cache() {
    let listing = rooms_from_store(Ok(vec![room(3, "help")]), true).unwrap();
    assert_eq!(listing, Listing { rooms: vec![answer(3, "help")], write_back: true });
    assert_eq!(rooms_after_write(listing.clone(), false), vec![answer(3, "help")]);
    assert_eq!(rooms_after_write(listing, true), vec![answer(3, "help")]);
}

#[test]
fn store_failure_fails_the_listing() {
    assert_eq!(
        rooms_from_store(Err("down".to_string()), true),
        Err(AppError::DatabaseError("down".to_string()))
    );
}

#[test]
fn responses_keep_the_order_of_the_rooms() {
    assert_eq!(to_responses(vec![]), vec![]);
    let rooms = vec![room(3, "c"), room(1, "a"), room(2, "b")];
    assert_eq!(to_responses(rooms), vec![answer(3, "c"), answer(1, "a"), answer(2, "b")]);
    assert_eq!(RoomResponse::from(room(9, "z")), answer(9, "z"));
}

#[test]
fn cache_keys() {
    assert_eq!(CacheKey::rooms_list(), "rooms:list");
    assert_eq!(CacheKey::room(42), "room:42");
    assert_eq!(CacheKey::room(-1), "room:-1");
    assert_eq!(CacheKey::room_messages(42), "room:42:messages");
    assert_eq!(CacheKey::room_messages(0), "room:0:messages");
    assert_eq!(CacheKey::user(7), "user:7");
    assert_eq!(CacheKey::user(i32::MIN), "user:-2147483648");
    assert_eq!(CacheKey::rooms_pattern(), "room*");
}

#[test]
fn cache_read_is_a_value_only_when_it_decodes() {
    let cache = RedisService::new(300);
    assert_eq!(cache.get(Cached::Found(5)), Some(5));
    assert_eq!(cache.get(Cached::<i32>::Unreadable), None);
    assert_eq!(cache.get(Cached::<i32>::Missing), None);
}

#[test]
fn cache_writes_carry_key_and_lifetime() {
    let cache = RedisService::new(300);
    assert_eq!(cache.default_ttl(), 300);
    assert_eq!(cache.set("rooms:list"), CacheWrite { key: "rooms:list".to_string(), ttl_seconds: 300 });
    assert_eq!(cache.set_with_ttl("k", 60), CacheWrite { key: "k".to_string(), ttl_seconds: 60 });
    assert_eq!(cache.set_with_ttl("", 0), CacheWrite { key: String::new(), ttl_seconds: 0 });
}

#[test]
fn delete_pattern_sends_nothing_for_no_keys() {
    let cache = RedisService::new(300);
    assert_eq!(cache.delete_pattern(vec![]), None);
    assert_eq!(cache.delete_pattern(vec!["room:1".to_string()]), Some(vec!["room:1".to_string()]));
}
