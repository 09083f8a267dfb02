//! Core of a multi-room chat backend: the room registry and its bounded
//! fan-out, the per-connection session life cycle, the message pipeline,
//! the authentication gate and the cache-aside room lister.

pub mod channel;
pub mod clock;
pub mod config;
pub mod errors;
pub mod json;
pub mod models;
pub mod registry;
pub mod routes;
pub mod services;
pub mod text;
pub mod utils;
