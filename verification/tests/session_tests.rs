use chat_backend::channel::Delivery;
use chat_backend::errors::AppError;
use chat_backend::models::message::Model;
use chat_backend::registry::RoomRegistry;
use chat_backend::routes::websocket::{
    InboundAction, InboundEvent, OutboundAction, Session, SessionState, WsBroadcast, WsMessage,
    WsQuery,
};
use chat_backend::services::jwt_service::{Claims, TokenCheck};
use chat_backend::services::message_service::MessageService;
use chrono::NaiveDateTime;

fn now() -> NaiveDateTime {
    chrono::DateTime::from_timestamp(1_700_000_000, 0).unwrap().naive_utc()
}

fn valid(id: i32, email: &str) -> Option<TokenCheck> {
    Some(TokenCheck::Valid(Claims { sub: id.to_string(), email: email.to_string(), exp: 2_000_000_000 }))
}

fn active(registry: &mut RoomRegistry, room: i32, id: i32, email: &str) -> Session {
    let mut session = Session::new(room);
    session.authenticate(valid(id, email)).unwrap();
    session.join(registry).unwrap();
    assert!(session.start());
    session
}

fn stored(id: i32, sender_id: i32, room_id: i32, content: &str) -> Model {
    Model { id, sender_id, room_id, content: content.to_string(), created_at: now() }
}

#[test]
fn two_sessions_in_room_42_both_receive_the_frame() {
    let mut registry = RoomRegistry::new();
    let service = MessageService::new();
    let mut a = active(&mut registry, 42, 7, "alice@example.com");
    let mut b = active(&mut registry, 42, 8, "bob@example.com");

    let decoded = WsMessage::Message { content: "hi".to_string() };
    let content = match a.inbound(InboundEvent::Text(Some(decoded))) {
        InboundAction::Submit(content) => content,
        other => panic!("unexpected {:?}", other),
    };
    let submission = service.submit(a.peer().unwrap(), a.room_id(), content, now()).unwrap();
    let row = submission.row().clone();
    assert_eq!((row.sender_id, row.room_id, row.content.as_str()), (7, 42, "hi"));
    let answer = service.complete(&mut registry, submission, Ok(stored(1, 7, 42, "hi"))).unwrap();
    assert_eq!(answer.id, 1);

    let frame = "{\"type\":\"message\",\"sender\":\"alice@example.com\",\"sender_id\":7,\"content\":\"hi\"}";
    assert_eq!(a.outbound(&mut registry), OutboundAction::Send(frame.to_string()));
    assert_eq!(b.outbound(&mut registry), OutboundAction::Send(frame.to_string()));
    assert_eq!(a.outbound(&mut registry), OutboundAction::Wait);
    assert_eq!(b.outbound(&mut registry), OutboundAction::Wait);

    let mut c = active(&mut registry, 42, 9, "carol@example.com");
    assert_eq!(c.outbound(&mut registry), OutboundAction::Wait);
    assert_eq!(registry.room_count(), 1);
}

#[test]
fn garbage_token_is_refused_without_a_subscription() {
    let mut registry = RoomRegistry::new();
    let mut session = Session::new(7);
    let refused = session.authenticate(Some(TokenCheck::Malformed));
    assert_eq!(refused, Err(AppError::InvalidToken));
    assert_eq!(session.current_state(), SessionState::Closed);
    assert_eq!(session.join(&mut registry), Err(AppError::InternalServerError));
    assert!(!registry.has_room(7));
    assert_eq!(registry.room_count(), 0);
    assert_eq!(session.held_subscription(), None);
    assert!(!session.start());
}

#[test]
fn missing_and_expired_credentials_close_the_session() {
    let mut session = Session::new(1);
    assert_eq!(
        session.authenticate(None),
        Err(AppError::AuthError("Missing credential".to_string()))
    );
    assert_eq!(session.current_state(), SessionState::Closed);
    let mut session = Session::new(1);
    assert_eq!(session.authenticate(Some(TokenCheck::Expired)), Err(AppError::TokenExpired));
    assert_eq!(session.current_state(), SessionState::Closed);
}

#[test]
fn session_walks_through_its_states() {
    let mut registry = RoomRegistry::new();
    let mut session = Session::new(3);
    assert_eq!(session.current_state(), SessionState::Connecting);
    assert_eq!(session.room_id(), 3);
    assert!(session.peer().is_none());
    assert_eq!(session.join(&mut registry), Err(AppError::InternalServerError));
    assert_eq!(registry.room_count(), 0);
    session.authenticate(valid(5, "eve@example.com")).unwrap();
    assert_eq!(session.current_state(), SessionState::Authenticated);
    assert_eq!(session.peer().unwrap().user_id, 5);
    assert_eq!(session.peer().unwrap().handle, "eve@example.com");
    assert_eq!(session.authenticate(valid(6, "x")), Err(AppError::InternalServerError));
    let sub = session.join(&mut registry).unwrap();
    assert_eq!(session.current_state(), SessionState::Subscribed);
    assert_eq!(session.held_subscription(), Some(sub));
    assert_eq!(sub.room_id, 3);
    assert!(session.start());
    assert!(!session.start());
    assert_eq!(session.current_state(), SessionState::Active);
    assert_eq!(session.inbound(InboundEvent::Close), InboundAction::Stop);
    assert_eq!(session.current_state(), SessionState::Closing);
    session.close(&mut registry);
    assert_eq!(session.current_state(), SessionState::Closed);
    assert_eq!(session.held_subscription(), None);
    assert_eq!(registry.receive(&sub), Delivery::Closed);
    assert!(registry.has_room(3));
}

#[test]
fn subject_that_is_no_number_is_user_zero() {
    let mut session = Session::new(1);
    let claims = Claims { sub: "abc".to_string(), email: "m@example.com".to_string(), exp: 1 };
    session.authenticate(Some(TokenCheck::Valid(claims))).unwrap();
    assert_eq!(session.peer().unwrap().user_id, 0);
}

#[test]
fn inbound_ignores_what_does_not_decode() {
    let mut registry = RoomRegistry::new();
    let mut session = active(&mut registry, 1, 1, "a@example.com");
    assert_eq!(session.inbound(InboundEvent::Text(None)), InboundAction::Ignore);
    assert_eq!(session.inbound(InboundEvent::Other), InboundAction::Ignore);
    assert_eq!(session.current_state(), SessionState::Active);
    let decoded = WsMessage::Message { content: String::new() };
    assert_eq!(
        session.inbound(InboundEvent::Text(Some(decoded))),
        InboundAction::Submit(String::new())
    );
    assert_eq!(session.current_state(), SessionState::Active);
}

#[test]
fn inbound_stops_on_close_failure_and_end() {
    for event in [InboundEvent::Close, InboundEvent::Failed, InboundEvent::Ended] {
        let mut registry = RoomRegistry::new();
        let mut session = active(&mut registry, 1, 1, "a@example.com");
        assert_eq!(session.inbound(event), InboundAction::Stop);
        assert_eq!(session.current_state(), SessionState::Closing);
        assert_eq!(session.inbound(InboundEvent::Other), InboundAction::Stop);
        assert_eq!(session.outbound(&mut registry), OutboundAction::Stop);
    }
}

#[test]
fn lagging_session_is_closed_and_the_other_goes_on() {
    let mut registry = RoomRegistry::with_capacity(1);
    let mut slow = active(&mut registry, 1, 1, "slow@example.com");
    let mut fast = active(&mut registry, 1, 2, "fast@example.com");
    registry.publish(1, "first".to_string()).unwrap();
    assert_eq!(fast.outbound(&mut registry), OutboundAction::Send("first".to_string()));
    registry.publish(1, "second".to_string()).unwrap();
    assert_eq!(slow.outbound(&mut registry), OutboundAction::Stop);
    assert_eq!(slow.current_state(), SessionState::Closing);
    assert_eq!(fast.outbound(&mut registry), OutboundAction::Send("second".to_string()));
    assert_eq!(fast.current_state(), SessionState::Active);
    slow.close(&mut registry);
    registry.publish(1, "third".to_string()).unwrap();
    assert_eq!(fast.outbound(&mut registry), OutboundAction::Send("third".to_string()));
    assert_eq!(registry.subscriber_count(1), 1);
}

#[test]
fn write_failure_closes_an_active_session() {
    let mut registry = RoomRegistry::new();
    let mut session = active(&mut registry, 1, 1, "a@example.com");
    session.write_failed();
    assert_eq!(session.current_state(), SessionState::Closing);
    let mut fresh = Session::new(1);
    fresh.write_failed();
    assert_eq!(fresh.current_state(), SessionState::Connecting);
}

#[test]
fn broadcast_frame_has_the_wire_shape() {
    let frame = WsBroadcast::message("bob \"the\" builder".to_string(), -3, "line\nbreak".to_string());
    assert_eq!(frame.msg_type, "message");
    assert_eq!(
        frame.to_frame(),
        "{\"type\":\"message\",\"sender\":\"bob \\\"the\\\" builder\",\"sender_id\":-3,\"content\":\"line\\nbreak\"}"
    );
}

#[test]
fn broadcast_frame_is_json_with_four_members() {
    let frame = WsBroadcast::message("é€😀".to_string(), 2147483647, "\u{1}\\/".to_string());
    let value: serde_json::Value = serde_json::from_str(&frame.to_frame()).unwrap();
    let object = value.as_object().unwrap();
    assert_eq!(object.len(), 4);
    assert_eq!(object.get("type").unwrap().as_str().unwrap(), "message");
    assert_eq!(object.get("sender").unwrap().as_str().unwrap(), "é€😀");
    assert_eq!(object.get("sender_id").unwrap().as_i64().unwrap(), 2147483647);
    assert_eq!(object.get("content").unwrap().as_str().unwrap(), "\u{1}\\/");
}

#[test]
fn broadcast_frame_round_trip() {
    for (sender, id, content) in [
        ("alice", 1, "hi"),
        ("", 0, ""),
        ("a\"b\\c", -2147483648, "tab\there\nnew\r\u{8}\u{c}\u{0}\u{1f}"),
        ("é€😀", 2147483647, "{\"type\":\"message\"}"),
    ] {
        let frame = WsBroadcast::message(sender.to_string(), id, content.to_string());
        let read = WsBroadcast::from_frame(&frame.to_frame()).unwrap();
        assert_eq!(read.sender_id, id);
        assert_eq!(read.content, content);
        assert_eq!(read, frame);
    }
}

#[test]
fn from_frame_refuses_what_to_frame_does_not_write() {
    for text in [
        "",
        "{}",
        "{\"type\":\"message\",\"content\":\"hi\"}",
        "{\"type\":\"message\",\"sender\":\"a\",\"sender_id\":1,\"content\":\"hi\"} ",
        " {\"type\":\"message\",\"sender\":\"a\",\"sender_id\":1,\"content\":\"hi\"}",
        "{\"type\":\"message\",\"sender\":\"a\",\"sender_id\":01,\"content\":\"hi\"}",
        "{\"type\":\"message\",\"sender\":\"a\",\"sender_id\":1.0,\"content\":\"hi\"}",
        "{\"type\":\"message\",\"sender\":\"a\",\"sender_id\":\"1\",\"content\":\"hi\"}",
        "{\"sender\":\"a\",\"type\":\"message\",\"sender_id\":1,\"content\":\"hi\"}",
        "{\"type\":\"message\",\"sender\":\"a\",\"sender_id\":1,\"content\":\"hi\"",
    ] {
        assert_eq!(WsBroadcast::from_frame(text), None);
    }
    let read = WsBroadcast::from_frame("{\"type\":\"other\",\"sender\":\"a\",\"sender_id\":1,\"content\":\"hi\"}");
    assert_eq!(read.unwrap().msg_type, "other");
}

#[test]
fn broadcast_turns_into_the_client_frame() {
    let frame = WsBroadcast::message("a".to_string(), 1, "hi".to_string());
    assert_eq!(frame.to_message(), WsMessage::Message { content: "hi".to_string() });
}

#[test]
fn query_carries_the_token() {
    let query = WsQuery::new("garbage".to_string());
    assert_eq!(query.token(), "garbage");
}
