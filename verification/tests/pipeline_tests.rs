use chat_backend::channel::Delivery;
use chat_backend::errors::AppError;
use chat_backend::models::message::{CreateMessageRequest, MessageResponse, Model};
use chat_backend::registry::RoomRegistry;
use chat_backend::routes::room::create_message;
use chat_backend::services::jwt_service::{Claims, Identity};
use chat_backend::services::message_service::{MessageService, NewMessage};
use chrono::NaiveDateTime;

fn now() -> NaiveDateTime {
    chrono::DateTime::from_timestamp(1_700_000_000, 0).unwrap().naive_utc()
}

fn alice() -> Identity {
    Identity { user_id: 7, handle: "alice".to_string() }
}

fn empty() -> AppError {
    AppError::ValidationError("Message content cannot be empty".to_string())
}

#[test]
fn empty_content_is_neither_persisted_nor_broadcast() {
    let mut registry = RoomRegistry::new();
    let listener = registry.subscribe(1).unwrap();
    let service = MessageService::new();
    let refused = service.submit(&alice(), 1, String::new(), now());
    assert!(matches!(refused, Err(e) if e == empty()));
    assert_eq!(registry.receive(&listener), Delivery::Empty);
}

#[test]
fn store_failure_prevents_the_broadcast() {
    let mut registry = RoomRegistry::new();
    let listener = registry.subscribe(1).unwrap();
    let service = MessageService::new();
    let submission = service.submit(&alice(), 1, "hi".to_string(), now()).unwrap();
    let answer = service.complete(&mut registry, submission, Err("disk full".to_string()));
    assert_eq!(answer, Err(AppError::DatabaseError("disk full".to_string())));
    assert_eq!(registry.receive(&listener), Delivery::Empty);
}

#[test]
fn persisted_message_is_broadcast_and_answered() {
    let mut registry = RoomRegistry::new();
    let listener = registry.subscribe(1).unwrap();
    let elsewhere = registry.subscribe(2).unwrap();
    let service = MessageService::new();
    let submission = service.submit(&alice(), 1, "hi".to_string(), now()).unwrap();
    assert_eq!(
        *submission.row(),
        NewMessage { sender_id: 7, room_id: 1, content: "hi".to_string(), created_at: now() }
    );
    let model = Model { id: 11, sender_id: 7, room_id: 1, content: "hi".to_string(), created_at: now() };
    let answer = service.complete(&mut registry, submission, Ok(model)).unwrap();
    assert_eq!(
        answer,
        MessageResponse { id: 11, sender_id: 7, room_id: 1, content: "hi".to_string(), created_at: now() }
    );
    assert_eq!(
        registry.receive(&listener),
        Delivery::Message(
            "{\"type\":\"message\",\"sender\":\"alice\",\"sender_id\":7,\"content\":\"hi\"}".to_string()
        )
    );
    assert_eq!(registry.receive(&elsewhere), Delivery::Empty);
}

#[test]
fn broadcast_to_a_lagging_room_does_not_fail_the_sender() {
    let mut registry = RoomRegistry::with_capacity(0);
    let listener = registry.subscribe(1).unwrap();
    let service = MessageService::new();
    let submission = service.submit(&alice(), 1, "hi".to_string(), now()).unwrap();
    let model = Model { id: 1, sender_id: 7, room_id: 1, content: "hi".to_string(), created_at: now() };
    assert!(service.complete(&mut registry, submission, Ok(model)).is_ok());
    assert_eq!(registry.receive(&listener), Delivery::Lagged);
}

#[test]
fn broadcast_without_a_channel_does_not_fail_the_sender() {
    let mut registry = RoomRegistry::new();
    let service = MessageService::new();
    let submission = service.submit(&alice(), 9, "hi".to_string(), now()).unwrap();
    let model = Model { id: 1, sender_id: 7, room_id: 9, content: "hi".to_string(), created_at: now() };
    assert!(service.complete(&mut registry, submission, Ok(model)).is_ok());
    assert!(!registry.has_room(9));
}

#[test]
fn create_message_gives_the_row_to_persist() {
    let service = MessageService::new();
    let req = CreateMessageRequest { content: "hello".to_string() };
    let row = service.create_message(3, 4, req, now()).unwrap();
    assert_eq!(row, NewMessage { sender_id: 3, room_id: 4, content: "hello".to_string(), created_at: now() });
    let req = CreateMessageRequest { content: String::new() };
    assert_eq!(service.create_message(3, 4, req, now()), Err(empty()));
}

#[test]
fn stored_message_or_store_failure_is_the_answer() {
    let service = MessageService::new();
    let model = Model { id: 2, sender_id: 3, room_id: 4, content: "x".to_string(), created_at: now() };
    assert_eq!(
        service.stored(Ok(model.clone())),
        Ok(MessageResponse { id: 2, sender_id: 3, room_id: 4, content: "x".to_string(), created_at: now() })
    );
    assert_eq!(MessageResponse::from(model).id, 2);
    assert_eq!(
        service.stored(Err("timeout".to_string())),
        Err(AppError::DatabaseError("timeout".to_string()))
    );
}

#[test]
fn posting_needs_a_subject_that_is_a_user_id() {
    let service = MessageService::new();
    let claims = Claims { sub: "12".to_string(), email: "a@example.com".to_string(), exp: 1 };
    let req = CreateMessageRequest { content: "hello".to_string() };
    let row = create_message(&service, 5, &claims, req, now()).unwrap();
    assert_eq!((row.sender_id, row.room_id), (12, 5));
    let claims = Claims { sub: "twelve".to_string(), email: "a@example.com".to_string(), exp: 1 };
    let req = CreateMessageRequest { content: "hello".to_string() };
    assert_eq!(create_message(&service, 5, &claims, req, now()), Err(AppError::InvalidToken));
    let claims = Claims { sub: "12".to_string(), email: "a@example.com".to_string(), exp: 1 };
    let req = CreateMessageRequest { content: String::new() };
    assert_eq!(create_message(&service, 5, &claims, req, now()), Err(empty()));
}
