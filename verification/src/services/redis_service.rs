//! The read-through cache: how its keys are named, how long entries live and
//! what a read counts as. Talking to the cache server is done by the caller.

use crate::text::{decimal_string, decimal_text};
use vstd::prelude::*;
use vstd::string::StringExecFns;

verus! {

/// What a read of one key found.
#[derive(Clone, Debug, PartialEq)]
pub enum Cached<T> {
    /// The key holds nothing.
    Missing,
    /// The key holds something that does not decode.
    Unreadable,
    /// The key holds this value.
    Found(T),
}

/// A write to the cache: the key, and the seconds the entry lives.
#[derive(Clone, Debug, PartialEq)]
pub struct CacheWrite {
    pub key: String,
    pub ttl_seconds: u64,
}

/// The settings of the cache.
#[derive(Clone, Debug, PartialEq)]
pub struct RedisService {
    /// Seconds an entry lives unless said otherwise.
    default_ttl: usize,
}

impl RedisService {
    /// Seconds an entry lives unless said otherwise.
    pub closed spec fn spec_default_ttl(&self) -> usize {
        self.default_ttl
    }

    /// A cache whose entries live `default_ttl` seconds unless said
    /// otherwise.
    pub fn new(default_ttl: usize) -> (r: RedisService)
        ensures
            r.spec_default_ttl() == default_ttl,
    {
        RedisService { default_ttl }
    }

    /// Seconds an entry lives unless said otherwise.
    pub fn default_ttl(&self) -> (r: usize)
        ensures
            r == self.spec_default_ttl(),
    {
        self.default_ttl
    }

    /// What a read counts as: a value only where the key held one that
    /// decodes. An entry that does not decode is a miss, not an error.
    pub fn get<T>(&self, found: Cached<T>) -> (r: Option<T>)
        ensures
            r == match found {
                Cached::Found(value) => Some(value),
                Cached::Unreadable => None,
                Cached::Missing => None,
            },
    {
        match found {
            Cached::Found(value) => Some(value),
            Cached::Unreadable => None,
            Cached::Missing => None,
        }
    }

    /// The write that stores a value under `key` for the default lifetime.
    pub fn set(&self, key: &str) -> (r: CacheWrite)
        ensures
            r.key@ == key@,
            r.ttl_seconds == self.spec_default_ttl(),
    {
        self.set_with_ttl(key, self.default_ttl)
    }

    /// The write that stores a value under `key` for `ttl_seconds` seconds.
    pub fn set_with_ttl(&self, key: &str, ttl_seconds: usize) -> (r: CacheWrite)
        ensures
            r.key@ == key@,
            r.ttl_seconds == ttl_seconds,
    {
        CacheWrite { key: String::from_str(key), ttl_seconds: ttl_seconds as u64 }
    }

    /// The keys to delete once those that match a pattern are known: a
    /// delete is sent only for one key or more.
    pub fn delete_pattern(&self, keys: Vec<String>) -> (r: Option<Vec<String>>)
        ensures
            r == if keys@.len() > 0 {
                Some(keys)
            } else {
                None
            },
    {
        if keys.is_empty() {
            None
        } else {
            Some(keys)
        }
    }
}

/// Names of cache keys.
pub struct CacheKey;

impl CacheKey {
    /// The key of the list of rooms.
    pub open spec fn spec_rooms_list() -> Seq<char> {
        "rooms:list"@
    }

    /// The key of one room.
    pub open spec fn spec_room(room_id: i32) -> Seq<char> {
        "room:"@ + decimal_text(room_id as int)
    }

    /// The key of one room's messages.
    pub open spec fn spec_room_messages(room_id: i32) -> Seq<char> {
        "room:"@ + decimal_text(room_id as int) + ":messages"@
    }

    /// The key of one user.
    pub open spec fn spec_user(user_id: i32) -> Seq<char> {
        "user:"@ + decimal_text(user_id as int)
    }

    /// The pattern that matches every key of a room and the list of rooms.
    pub open spec fn spec_rooms_pattern() -> Seq<char> {
        "room*"@
    }

    /// The key of the list of rooms.
    pub fn rooms_list() -> (r: String)
        ensures
            r@ == CacheKey::spec_rooms_list(),
    {
        String::from_str("rooms:list")
    }

    /// The key of one room.
    pub fn room(room_id: i32) -> (r: String)
        ensures
            r@ == CacheKey::spec_room(room_id),
    {
        String::from_str("room:").concat(decimal_string(room_id as i64).as_str())
    }

    /// The key of one room's messages.
    pub fn room_messages(room_id: i32) -> (r: String)
        ensures
            r@ == CacheKey::spec_room_messages(room_id),
    {
        String::from_str("room:").concat(decimal_string(room_id as i64).as_str()).concat(
            ":messages",
        )
    }

    /// The key of one user.
    pub fn user(user_id: i32) -> (r: String)
        ensures
            r@ == CacheKey::spec_user(user_id),
    {
        String::from_str("user:").concat(decimal_string(user_id as i64).as_str())
    }

    /// The pattern that matches every key of a room and the list of rooms.
    pub fn rooms_pattern() -> (r: String)
        ensures
            r@ == CacheKey::spec_rooms_pattern(),
    {
        String::from_str("room*")
    }
}

} // verus!
