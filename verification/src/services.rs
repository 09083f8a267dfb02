//! The services behind the routes.

pub mod auth_service;
pub mod jwt_service;
pub mod message_service;
pub mod redis_service;
