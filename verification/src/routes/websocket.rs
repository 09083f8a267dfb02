//! The realtime connection: the frames that go over it and the life cycle
//! of one session, from the connection attempt to its end.

use crate::channel::{delivery_for, Delivery};
use crate::errors::AppError;
use crate::json::{
    expect, int_after, json_string, lemma_int_after_written,
    lemma_string_after_written, lemma_written_of_int_after, lemma_written_of_string_after, quote,
    read_int_after, read_string_after, string_after,
};
use crate::registry::{RoomRegistry, Subscription};
use crate::services::jwt_service::{missing_credential, verify, Identity, TokenCheck};
use crate::text::{chars_of, decimal_string, decimal_text, is_digit};
use vstd::prelude::*;
use vstd::string::StringExecFns;

verus! {

/// A frame from a client, decoded: one variant per accepted `type`.
#[derive(Clone, Debug, PartialEq)]
pub enum WsMessage {
    /// `{"type":"message","content":"<text>"}`
    Message { content: String },
}

/// A frame to the clients of a room.
#[derive(Clone, Debug, PartialEq)]
pub struct WsBroadcast {
    pub msg_type: String,
    pub sender: String,
    pub sender_id: i32,
    pub content: String,
}

/// The query of the request that opens a realtime connection.
#[derive(Clone, Debug, PartialEq)]
pub struct WsQuery {
    token: String,
}

impl WsQuery {
    /// The bearer token that the request presents.
    pub closed spec fn spec_token(&self) -> Seq<char> {
        self.token@
    }

    pub fn new(token: String) -> (r: WsQuery)
        ensures
            r.spec_token() == token@,
    {
        WsQuery { token }
    }

    /// The bearer token that the request presents.
    pub fn token(&self) -> (r: &str)
        ensures
            r@ == self.spec_token(),
    {
        self.token.as_str()
    }
}

/// The text of the frame with these members: a JSON object with the members
/// `type`, `sender`, `sender_id` and `content`, in this order and without
/// white space.
pub open spec fn frame_text(
    msg_type: Seq<char>,
    sender: Seq<char>,
    sender_id: i32,
    content: Seq<char>,
) -> Seq<char> {
    "{\"type\":"@ + json_string(msg_type) + ",\"sender\":"@ + json_string(sender)
        + ",\"sender_id\":"@ + decimal_text(sender_id as int) + ",\"content\":"@ + json_string(
        content,
    ) + "}"@
}

/// What reading a frame gives: its four members, if `s` is a frame in the
/// form of [`frame_text`], with nothing before or behind it.
pub open spec fn frame_reading(s: Seq<char>) -> Option<(Seq<char>, Seq<char>, i32, Seq<char>)> {
    match string_after(s, "{\"type\":"@) {
        None => None,
        Some((msg_type, s1)) => match string_after(s1, ",\"sender\":"@) {
            None => None,
            Some((sender, s2)) => match int_after(s2, ",\"sender_id\":"@) {
                None => None,
                Some((sender_id, s3)) => match string_after(s3, ",\"content\":"@) {
                    None => None,
                    Some((content, s4)) => if s4 == "}"@ {
                        Some((msg_type, sender, sender_id as i32, content))
                    } else {
                        None
                    },
                },
            },
        },
    }
}

/// Writing a frame and reading it back gives the same members: the same
/// type, sender, sender id and content.
pub proof fn law_frame_round_trip(
    msg_type: Seq<char>,
    sender: Seq<char>,
    sender_id: i32,
    content: Seq<char>,
)
    ensures
        frame_reading(frame_text(msg_type, sender, sender_id, content)) == Some(
            (msg_type, sender, sender_id, content),
        ),
{
    let k_type = "{\"type\":"@;
    let k_sender = ",\"sender\":"@;
    let k_id = ",\"sender_id\":"@;
    let k_content = ",\"content\":"@;
    let number = decimal_text(sender_id as int);
    let s4 = "}"@;
    let s3 = k_content + json_string(content) + s4;
    let s2 = k_id + number + s3;
    let s1 = k_sender + json_string(sender) + s2;
    let s0 = k_type + json_string(msg_type) + s1;
    assert(frame_text(msg_type, sender, sender_id, content) =~= s0);
    lemma_string_after_written(k_type, msg_type, s1);
    lemma_string_after_written(k_sender, sender, s2);
    reveal_strlit(",\"content\":");
    assert(!is_digit(s3[0]));
    lemma_int_after_written(k_id, sender_id as int, s3);
    lemma_string_after_written(k_content, content, s4);
}

/// Only a written frame reads as a frame: what was read, written again, is
/// the text that was read.
pub proof fn law_frame_reading_is_exact(s: Seq<char>)
    requires
        frame_reading(s) is Some,
    ensures
        ({
            let (msg_type, sender, sender_id, content) = frame_reading(s)->0;
            s == frame_text(msg_type, sender, sender_id, content)
        }),
{
    let k_type = "{\"type\":"@;
    let k_sender = ",\"sender\":"@;
    let k_id = ",\"sender_id\":"@;
    let k_content = ",\"content\":"@;
    let (_, s1) = string_after(s, k_type)->0;
    let (_, s2) = string_after(s1, k_sender)->0;
    let (_, s3) = int_after(s2, k_id)->0;
    lemma_written_of_string_after(s, k_type);
    lemma_written_of_string_after(s1, k_sender);
    lemma_written_of_int_after(s2, k_id);
    lemma_written_of_string_after(s3, k_content);
}

impl WsBroadcast {
    /// The text of the frame that announces a chat message.
    pub open spec fn frame_of(sender: Seq<char>, sender_id: i32, content: Seq<char>) -> Seq<char> {
        frame_text("message"@, sender, sender_id, content)
    }

    /// The text of this frame.
    pub open spec fn frame(&self) -> Seq<char> {
        frame_text(self.msg_type@, self.sender@, self.sender_id, self.content@)
    }

    /// The frame that announces the chat message `content` of `sender`.
    pub fn message(sender: String, sender_id: i32, content: String) -> (r: WsBroadcast)
        ensures
            r.msg_type@ == "message"@,
            r.sender == sender,
            r.sender_id == sender_id,
            r.content == content,
            r.frame() == WsBroadcast::frame_of(sender@, sender_id, content@),
    {
        WsBroadcast { msg_type: String::from_str("message"), sender, sender_id, content }
    }

    /// Writes this frame as text.
    pub fn to_frame(&self) -> (r: String)
        ensures
            r@ == self.frame(),
    {
        let mut text = String::from_str("{\"type\":");
        text.append(quote(self.msg_type.as_str()).as_str());
        text.append(",\"sender\":");
        text.append(quote(self.sender.as_str()).as_str());
        text.append(",\"sender_id\":");
        text.append(decimal_string(self.sender_id as i64).as_str());
        text.append(",\"content\":");
        text.append(quote(self.content.as_str()).as_str());
        text.append("}");
        text
    }

    /// Reads a frame that [`to_frame`](WsBroadcast::to_frame) wrote. Any
    /// other text is no frame.
    pub fn from_frame(text: &str) -> (r: Option<WsBroadcast>)
        ensures
            match r {
                Some(frame) => frame_reading(text@) == Some(
                    (frame.msg_type@, frame.sender@, frame.sender_id, frame.content@),
                ),
                None => frame_reading(text@) is None,
            },
    {
        let chars = chars_of(text);
        proof {
            assert(chars@.skip(0) =~= chars@);
        }
        let (msg_type, at) = match read_string_after(&chars, 0, "{\"type\":") {
            Some(read) => read,
            None => { return None; },
        };
        let (sender, at) = match read_string_after(&chars, at, ",\"sender\":") {
            Some(read) => read,
            None => { return None; },
        };
        let (sender_id, at) = match read_int_after(&chars, at, ",\"sender_id\":") {
            Some(read) => read,
            None => { return None; },
        };
        let (content, at) = match read_string_after(&chars, at, ",\"content\":") {
            Some(read) => read,
            None => { return None; },
        };
        let ghost tail = chars@.skip(at as int);
        match expect(&chars, at, "}") {
            Some(end) => {
                if end != chars.len() {
                    proof {
                        assert(tail.len() != "}"@.len());
                    }
                    return None;
                }
                proof {
                    assert(tail =~= tail.subrange(0, "}"@.len() as int));
                }
            },
            None => {
                proof {
                    if tail == "}"@ {
                        assert(tail.subrange(0, tail.len() as int) =~= tail);
                    }
                }
                return None;
            },
        }
        Some(WsBroadcast { msg_type, sender, sender_id, content })
    }

    /// The client frame that carries the same content.
    pub fn to_message(self) -> (r: WsMessage)
        ensures
            r == (WsMessage::Message { content: self.content }),
    {
        WsMessage::Message { content: self.content }
    }
}

/// Where a session stands.
#[derive(Clone, Copy, Debug, PartialEq, Eq, Structural)]
pub enum SessionState {
    /// The connection attempt has arrived; nothing is known of the peer.
    Connecting,
    /// The credential was accepted.
    Authenticated,
    /// The session holds a subscription to its room.
    Subscribed,
    /// Both directions are running.
    Active,
    /// One direction has ended; the other is being stopped.
    Closing,
    /// Nothing is left of the session.
    Closed,
}

/// What the inbound direction got from the connection.
#[derive(Clone, Debug, PartialEq)]
pub enum InboundEvent {
    /// A text frame, decoded where it has an accepted shape.
    Text(Option<WsMessage>),
    /// A frame that carries no text.
    Other,
    /// The peer announced that it closes.
    Close,
    /// Reading failed.
    Failed,
    /// The connection is at its end.
    Ended,
}

/// What the inbound direction does next.
#[derive(Clone, Debug, PartialEq)]
pub enum InboundAction {
    /// Hand this content to the message pipeline, then read on.
    Submit(String),
    /// Read on.
    Ignore,
    /// Stop reading; the session closes.
    Stop,
}

/// What the outbound direction does next.
#[derive(Clone, Debug, PartialEq)]
pub enum OutboundAction {
    /// Write this frame to the connection, then ask again.
    Send(String),
    /// Nothing is pending: wait for the next publish, then ask again.
    Wait,
    /// Stop writing; the session closes.
    Stop,
}

/// What the inbound direction does with `event` while the session is active.
pub open spec fn inbound_action(event: InboundEvent) -> InboundAction {
    match event {
        InboundEvent::Text(Some(WsMessage::Message { content })) => InboundAction::Submit(content),
        InboundEvent::Text(None) => InboundAction::Ignore,
        InboundEvent::Other => InboundAction::Ignore,
        InboundEvent::Close => InboundAction::Stop,
        InboundEvent::Failed => InboundAction::Stop,
        InboundEvent::Ended => InboundAction::Stop,
    }
}

/// One realtime session.
pub struct Session {
    state: SessionState,
    room_id: i32,
    identity: Option<Identity>,
    subscription: Option<Subscription>,
}

impl Session {
    /// Where the session stands.
    pub closed spec fn state(&self) -> SessionState {
        self.state
    }

    /// The room that the session is for.
    pub closed spec fn room(&self) -> i32 {
        self.room_id
    }

    /// Who the session acts for, once that is known.
    pub closed spec fn identity(&self) -> Option<Identity> {
        self.identity
    }

    /// The subscription that the session holds, while it holds one.
    pub closed spec fn subscription(&self) -> Option<Subscription> {
        self.subscription
    }

    /// The invariant of a session: it knows its peer from `Authenticated`
    /// on, and it holds a subscription, to its own room, exactly while it is
    /// `Subscribed`, `Active` or `Closing`.
    pub open spec fn wf(&self) -> bool {
        &&& self.identity() is Some <==> (self.state() == SessionState::Authenticated
            || self.holds_subscription())
        &&& self.subscription() is Some <==> self.holds_subscription()
        &&& self.subscription() matches Some(sub) ==> sub.room_id == self.room()
    }

    /// Whether the session is in a state in which it holds a subscription.
    pub open spec fn holds_subscription(&self) -> bool {
        self.state() == SessionState::Subscribed || self.state() == SessionState::Active
            || self.state() == SessionState::Closing
    }

    /// A session for a connection attempt on `room_id`.
    pub fn new(room_id: i32) -> (r: Session)
        ensures
            r.wf(),
            r.state() == SessionState::Connecting,
            r.room() == room_id,
    {
        Session { state: SessionState::Connecting, room_id, identity: None, subscription: None }
    }

    /// Where the session stands.
    pub fn current_state(&self) -> (r: SessionState)
        ensures
            r == self.state(),
    {
        self.state
    }

    /// The room that the session is for.
    pub fn room_id(&self) -> (r: i32)
        ensures
            r == self.room(),
    {
        self.room_id
    }

    /// Who the session acts for, once that is known.
    pub fn peer(&self) -> (r: Option<&Identity>)
        ensures
            match r {
                Some(identity) => self.identity() == Some(*identity),
                None => self.identity() is None,
            },
    {
        self.identity.as_ref()
    }

    /// The subscription that the session holds, while it holds one.
    pub fn held_subscription(&self) -> (r: Option<Subscription>)
        ensures
            r == self.subscription(),
    {
        self.subscription
    }

    /// Admits or refuses the connection attempt. An accepted credential makes
    /// the session `Authenticated`; a credential that is missing, malformed or
    /// expired closes the session, and the reason is returned. A session that
    /// is past `Connecting` is not touched.
    pub fn authenticate(&mut self, credential: Option<TokenCheck>) -> (r: Result<(), AppError>)
        requires
            old(self).wf(),
        ensures
            final(self).wf(),
            final(self).room() == old(self).room(),
            final(self).subscription() == old(self).subscription(),
            old(self).state() != SessionState::Connecting ==> {
                &&& *final(self) == *old(self)
                &&& r matches Err(e)
                &&& e is InternalServerError
            },
            old(self).state() == SessionState::Connecting ==> match credential {
                Some(TokenCheck::Valid(claims)) => {
                    &&& r is Ok
                    &&& final(self).state() == SessionState::Authenticated
                    &&& final(self).identity() matches Some(identity)
                    &&& identity.handle@ == claims.email@
                    &&& identity.user_id == match claims.subject() {
                        Some(id) => id,
                        None => 0,
                    }
                },
                Some(TokenCheck::Expired) => {
                    &&& final(self).state() == SessionState::Closed
                    &&& r matches Err(e)
                    &&& e is TokenExpired
                },
                Some(TokenCheck::Malformed) => {
                    &&& final(self).state() == SessionState::Closed
                    &&& r matches Err(e)
                    &&& e is InvalidToken
                },
                None => {
                    &&& final(self).state() == SessionState::Closed
                    &&& r matches Err(AppError::AuthError(reason))
                    &&& reason@ == missing_credential()
                },
            },
    {
        if !matches!(self.state, SessionState::Connecting) {
            return Err(AppError::InternalServerError);
        }
        match verify(credential) {
            Ok(identity) => {
                self.identity = Some(identity);
                self.state = SessionState::Authenticated;
                Ok(())
            },
            Err(e) => {
                self.state = SessionState::Closed;
                Err(e)
            },
        }
    }

    /// Subscribes an authenticated session to its room; the room's channel
    /// is created if need be. A session in any other state subscribes to
    /// nothing and leaves the registry as it is. A registry that cannot take
    /// the subscription closes the session.
    pub fn join(&mut self, registry: &mut RoomRegistry) -> (r: Result<Subscription, AppError>)
        requires
            old(self).wf(),
            old(registry).wf(),
        ensures
            final(self).wf(),
            final(registry).wf(),
            final(self).room() == old(self).room(),
            old(self).state() != SessionState::Authenticated ==> {
                &&& *final(self) == *old(self)
                &&& final(registry)@ == old(registry)@
                &&& r matches Err(e)
                &&& e is InternalServerError
            },
            old(self).state() == SessionState::Authenticated ==> {
                if old(registry)@.can_subscribe(old(self).room()) {
                    &&& final(self).identity() == old(self).identity()
                    &&& r == Ok::<Subscription, AppError>(
                        old(registry)@.next_subscription(old(self).room()),
                    )
                    &&& final(self).state() == SessionState::Subscribed
                    &&& final(self).subscription() == Some(
                        old(registry)@.next_subscription(old(self).room()),
                    )
                    &&& final(registry)@ == old(registry)@.subscribed(old(self).room())
                } else {
                    &&& r matches Err(e)
                &&& e is InternalServerError
                    &&& final(self).state() == SessionState::Closed
                    &&& final(registry)@ == old(registry)@
                }
            },
    {
        if !matches!(self.state, SessionState::Authenticated) {
            return Err(AppError::InternalServerError);
        }
        match registry.subscribe(self.room_id) {
            Ok(sub) => {
                self.subscription = Some(sub);
                self.state = SessionState::Subscribed;
                Ok(sub)
            },
            Err(_) => {
                self.identity = None;
                self.state = SessionState::Closed;
                Err(AppError::InternalServerError)
            },
        }
    }

    /// Starts both directions of a subscribed session; says whether it did.
    pub fn start(&mut self) -> (r: bool)
        requires
            old(self).wf(),
        ensures
            final(self).wf(),
            r == (old(self).state() == SessionState::Subscribed),
            r ==> {
                &&& final(self).state() == SessionState::Active
                &&& final(self).room() == old(self).room()
                &&& final(self).identity() == old(self).identity()
                &&& final(self).subscription() == old(self).subscription()
            },
            !r ==> *final(self) == *old(self),
    {
        if matches!(self.state, SessionState::Subscribed) {
            self.state = SessionState::Active;
            true
        } else {
            false
        }
    }

    /// Decides what the inbound direction does with what it read. A chat
    /// submission goes to the pipeline; a frame that does not decode, or
    /// carries no text, is passed over and the session stays open; a close
    /// frame, a failed read or the end of the connection stops the direction
    /// and turns the session to `Closing`. A session that is not active only
    /// stops.
    pub fn inbound(&mut self, event: InboundEvent) -> (r: InboundAction)
        requires
            old(self).wf(),
        ensures
            final(self).wf(),
            final(self).room() == old(self).room(),
            final(self).identity() == old(self).identity(),
            final(self).subscription() == old(self).subscription(),
            old(self).state() == SessionState::Active ==> {
                &&& r == inbound_action(event)
                &&& final(self).state() == (if inbound_action(event) is Stop {
                    SessionState::Closing
                } else {
                    SessionState::Active
                })
            },
            old(self).state() != SessionState::Active ==> {
                &&& r is Stop
                &&& final(self).state() == old(self).state()
            },
    {
        if !matches!(self.state, SessionState::Active) {
            return InboundAction::Stop;
        }
        match event {
            InboundEvent::Text(Some(WsMessage::Message { content })) => InboundAction::Submit(
                content,
            ),
            InboundEvent::Text(None) => InboundAction::Ignore,
            InboundEvent::Other => InboundAction::Ignore,
            InboundEvent::Close => {
                self.state = SessionState::Closing;
                InboundAction::Stop
            },
            InboundEvent::Failed => {
                self.state = SessionState::Closing;
                InboundAction::Stop
            },
            InboundEvent::Ended => {
                self.state = SessionState::Closing;
                InboundAction::Stop
            },
        }
    }

    /// Decides what the outbound direction does next. It takes the oldest
    /// payload pending for the session's subscription and has it sent; with
    /// nothing pending it waits. A subscription that was cut off for lagging,
    /// or is gone, stops the direction and turns the session to `Closing`. A
    /// session that is not active only stops and takes nothing.
    pub fn outbound(&mut self, registry: &mut RoomRegistry) -> (r: OutboundAction)
        requires
            old(self).wf(),
            old(registry).wf(),
        ensures
            final(self).wf(),
            final(registry).wf(),
            final(self).room() == old(self).room(),
            final(self).identity() == old(self).identity(),
            final(self).subscription() == old(self).subscription(),
            old(self).state() != SessionState::Active ==> {
                &&& r is Stop
                &&& final(self).state() == old(self).state()
                &&& final(registry)@ == old(registry)@
            },
            old(self).state() == SessionState::Active ==> {
                &&& old(self).subscription() matches Some(sub)
                &&& final(registry)@ == old(registry)@.received(sub)
                &&& match delivery_for(old(registry)@.channel(sub.room_id), sub.subscriber) {
                    Some(Some(text)) => {
                        &&& r matches OutboundAction::Send(frame)
                        &&& frame@ == text
                        &&& final(self).state() == SessionState::Active
                    },
                    Some(None) => r is Wait && final(self).state() == SessionState::Active,
                    None => r is Stop && final(self).state() == SessionState::Closing,
                }
            },
    {
        if !matches!(self.state, SessionState::Active) {
            return OutboundAction::Stop;
        }
        let sub = match self.subscription {
            Some(sub) => sub,
            None => { return OutboundAction::Stop; },
        };
        match registry.receive(&sub) {
            Delivery::Message(frame) => OutboundAction::Send(frame),
            Delivery::Empty => OutboundAction::Wait,
            Delivery::Lagged => {
                self.state = SessionState::Closing;
                OutboundAction::Stop
            },
            Delivery::Closed => {
                self.state = SessionState::Closing;
                OutboundAction::Stop
            },
        }
    }

    /// Tells the session that a write to the connection failed: an active
    /// session turns to `Closing`.
    pub fn write_failed(&mut self)
        requires
            old(self).wf(),
        ensures
            final(self).wf(),
            final(self).room() == old(self).room(),
            final(self).identity() == old(self).identity(),
            final(self).subscription() == old(self).subscription(),
            final(self).state() == (if old(self).state() == SessionState::Active {
                SessionState::Closing
            } else {
                old(self).state()
            }),
    {
        if matches!(self.state, SessionState::Active) {
            self.state = SessionState::Closing;
        }
    }

    /// Ends the session once both directions have stopped: its subscription,
    /// if it holds one, is given up, and the session is `Closed`. The room's
    /// channel and its other subscribers stay as they are.
    pub fn close(&mut self, registry: &mut RoomRegistry)
        requires
            old(self).wf(),
            old(registry).wf(),
        ensures
            final(self).wf(),
            final(registry).wf(),
            final(self).state() == SessionState::Closed,
            final(self).room() == old(self).room(),
            final(registry)@ == match old(self).subscription() {
                Some(sub) => old(registry)@.unsubscribed(sub),
                None => old(registry)@,
            },
    {
        match self.subscription {
            Some(sub) => {
                let _ = registry.unsubscribe(&sub);
            },
            None => {},
        }
        self.subscription = None;
        self.identity = None;
        self.state = SessionState::Closed;
    }
}

} // verus!
