//! The room registry: one broadcast channel per room, created when the room
//! gets its first subscriber and kept from then on.

use crate::channel::{delivery_for, ChannelView, Delivery, PublishReport, RoomChannel};
use std::collections::HashMap;
use vstd::prelude::*;

verus! {

broadcast use vstd::std_specs::hash::group_hash_axioms;

/// Payloads that may wait for one subscriber unless the registry is made with
/// another bound.
pub const DEFAULT_CHANNEL_CAPACITY: usize = 100;

/// The handle of one subscription: the room and the subscriber's identifier
/// in that room's channel.
#[derive(Clone, Copy, Debug, PartialEq, Eq, Structural)]
pub struct Subscription {
    pub room_id: i32,
    pub subscriber: u64,
}

/// Why the registry could not do what was asked.
#[derive(Clone, Copy, Debug, PartialEq, Eq, Structural)]
pub enum RegistryError {
    /// The room's channel has handed out every subscriber identifier.
    SubscriptionsExhausted,
}

/// The state of the registry as its contracts see it.
pub struct RegistryView {
    /// The bound that every channel is made with.
    pub capacity: nat,
    /// The channels made so far, by room.
    pub rooms: Map<i32, ChannelView>,
}

impl RegistryView {
    /// A registry without channels.
    pub open spec fn empty(capacity: nat) -> RegistryView {
        RegistryView { capacity, rooms: Map::empty() }
    }

    /// What holds of every registry: each channel is valid and has the
    /// registry's capacity.
    pub open spec fn valid(self) -> bool {
        forall|room: i32| #[trigger]
            self.rooms.contains_key(room) ==> self.rooms[room].valid() && self.rooms[room].capacity
                == self.capacity
    }

    /// The channel that a subscriber of `room` joins: the room's own, or a
    /// fresh one where the room has none yet.
    pub open spec fn channel(self, room: i32) -> ChannelView {
        if self.rooms.contains_key(room) {
            self.rooms[room]
        } else {
            ChannelView::fresh(self.capacity)
        }
    }

    /// Whether one more subscriber can join `room`.
    pub open spec fn can_subscribe(self, room: i32) -> bool {
        self.channel(room).can_subscribe()
    }

    /// The handle that the next subscriber of `room` gets.
    pub open spec fn next_subscription(self, room: i32) -> Subscription {
        Subscription { room_id: room, subscriber: self.channel(room).next_id as u64 }
    }

    /// The registry after one more subscriber joined `room`.
    pub open spec fn subscribed(self, room: i32) -> RegistryView {
        RegistryView { rooms: self.rooms.insert(room, self.channel(room).subscribed()), ..self }
    }

    /// The registry after `payload` was published to `room`. Publishing to a
    /// room without a channel changes nothing.
    pub open spec fn published(self, room: i32, payload: Seq<char>) -> RegistryView {
        if self.rooms.contains_key(room) {
            RegistryView {
                rooms: self.rooms.insert(room, self.rooms[room].published(payload)),
                ..self
            }
        } else {
            self
        }
    }

    /// The registry after the payloads of `payloads` were published to
    /// `room` one after the other, the first of them first.
    pub open spec fn published_all(self, room: i32, payloads: Seq<Seq<char>>) -> RegistryView
        decreases payloads.len(),
    {
        if payloads.len() == 0 {
            self
        } else {
            self.published_all(room, payloads.drop_last()).published(room, payloads.last())
        }
    }

    /// The registry after the holder of `sub` took one payload.
    pub open spec fn received(self, sub: Subscription) -> RegistryView {
        if self.rooms.contains_key(sub.room_id) {
            RegistryView {
                rooms: self.rooms.insert(
                    sub.room_id,
                    self.rooms[sub.room_id].received(sub.subscriber),
                ),
                ..self
            }
        } else {
            self
        }
    }

    /// The registry after the holder of `sub` left. The room keeps its
    /// channel.
    pub open spec fn unsubscribed(self, sub: Subscription) -> RegistryView {
        if self.rooms.contains_key(sub.room_id) {
            RegistryView {
                rooms: self.rooms.insert(
                    sub.room_id,
                    self.rooms[sub.room_id].unsubscribed(sub.subscriber),
                ),
                ..self
            }
        } else {
            self
        }
    }

    /// Whether `sub` names a current subscriber.
    pub open spec fn knows(self, sub: Subscription) -> bool {
        self.rooms.contains_key(sub.room_id) && self.rooms[sub.room_id].subscribers.contains_key(
            sub.subscriber,
        )
    }

    /// Whether `sub` names a current subscriber that has not been cut off.
    pub open spec fn live(self, sub: Subscription) -> bool {
        self.knows(sub) && !self.rooms[sub.room_id].subscribers[sub.subscriber].lagged
    }

    /// Whether `sub` names a subscriber that was cut off.
    pub open spec fn lagged(self, sub: Subscription) -> bool {
        self.knows(sub) && self.rooms[sub.room_id].subscribers[sub.subscriber].lagged
    }

    /// What the holder of `sub` has yet to receive, oldest first.
    pub open spec fn pending(self, sub: Subscription) -> Seq<Seq<char>> {
        if self.knows(sub) {
            self.rooms[sub.room_id].subscribers[sub.subscriber].pending
        } else {
            Seq::empty()
        }
    }
}

/// The registry of room channels.
pub struct RoomRegistry {
    capacity: usize,
    rooms: HashMap<i32, RoomChannel>,
}

impl RoomRegistry {
    /// The invariant of the representation.
    pub closed spec fn wf(&self) -> bool {
        forall|room: i32| #[trigger]
            self.rooms@.contains_key(room) ==> self.rooms@[room].wf() && self.rooms@[room]@.capacity
                == self.capacity
    }

    /// The registry as its contracts see it.
    pub closed spec fn view(&self) -> RegistryView {
        RegistryView {
            capacity: self.capacity as nat,
            rooms: Map::new(
                |room: i32| self.rooms@.contains_key(room),
                |room: i32| self.rooms@[room]@,
            ),
        }
    }

    /// A well-formed registry shows a valid state.
    pub proof fn lemma_valid(&self)
        requires
            self.wf(),
        ensures
            self@.valid(),
    {
        assert forall|room: i32| #[trigger]
            self@.rooms.contains_key(room) implies self@.rooms[room].valid()
            && self@.rooms[room].capacity == self@.capacity by {
            self.rooms@[room].lemma_valid();
        }
    }

    /// A registry without channels whose channels will hold
    /// [`DEFAULT_CHANNEL_CAPACITY`] pending payloads per subscriber.
    pub fn new() -> (r: RoomRegistry)
        ensures
            r.wf(),
            r@ == RegistryView::empty(DEFAULT_CHANNEL_CAPACITY as nat),
    {
        RoomRegistry::with_capacity(DEFAULT_CHANNEL_CAPACITY)
    }

    /// A registry without channels whose channels will hold `capacity`
    /// pending payloads per subscriber.
    pub fn with_capacity(capacity: usize) -> (r: RoomRegistry)
        ensures
            r.wf(),
            r@ == RegistryView::empty(capacity as nat),
    {
        let r = RoomRegistry { capacity, rooms: HashMap::new() };
        assert(r@.rooms =~= Map::<i32, ChannelView>::empty());
        r
    }

    /// The bound that every channel is made with.
    pub fn capacity(&self) -> (r: usize)
        ensures
            r == self@.capacity,
    {
        self.capacity
    }

    /// Whether `room_id` has a channel.
    pub fn has_room(&self, room_id: i32) -> (r: bool)
        ensures
            r == self@.rooms.contains_key(room_id),
    {
        self.rooms.contains_key(&room_id)
    }

    /// How many rooms have a channel.
    pub fn room_count(&self) -> (r: usize)
        ensures
            r == self@.rooms.dom().len(),
            self@.rooms.dom().finite(),
    {
        proof {
            assert(self@.rooms.dom() =~= self.rooms@.dom());
        }
        self.rooms.len()
    }

    /// How many subscribers `room_id` has, those cut off and not yet gone
    /// included; none where the room has no channel.
    pub fn subscriber_count(&self, room_id: i32) -> (r: usize)
        requires
            self.wf(),
        ensures
            self@.channel(room_id).subscribers.dom().finite(),
            r == self@.channel(room_id).subscribers.dom().len(),
    {
        match self.rooms.get(&room_id) {
            Some(channel) => channel.subscriber_count(),
            None => {
                0
            },
        }
    }

    /// Subscribes to `room_id`. The room's channel is created if this is its
    /// first subscriber, and is the same one for every later subscriber. The
    /// new subscription starts with nothing pending. Fails only when the
    /// channel has no identifier left, and then changes nothing.
    pub fn subscribe(&mut self, room_id: i32) -> (r: Result<Subscription, RegistryError>)
        requires
            old(self).wf(),
        ensures
            final(self).wf(),
            match r {
                Ok(sub) => {
                    &&& old(self)@.can_subscribe(room_id)
                    &&& sub == old(self)@.next_subscription(room_id)
                    &&& final(self)@ == old(self)@.subscribed(room_id)
                },
                Err(e) => {
                    &&& !old(self)@.can_subscribe(room_id)
                    &&& e == RegistryError::SubscriptionsExhausted
                    &&& final(self)@ == old(self)@
                },
            },
    {
        let ghost before = self@;
        let mut channel = match self.rooms.remove(&room_id) {
            Some(existing) => existing,
            None => RoomChannel::new(self.capacity),
        };
        let outcome = channel.subscribe();
        self.rooms.insert(room_id, channel);
        match outcome {
            Some(subscriber) => {
                proof {
                    assert(self@.rooms =~= before.subscribed(room_id).rooms);
                }
                Ok(Subscription { room_id, subscriber })
            },
            None => {
                proof {
                    assert(self@.rooms =~= before.rooms);
                }
                Err(RegistryError::SubscriptionsExhausted)
            },
        }
    }

    /// Publishes `payload` to `room_id` and reports what happened, or `None`
    /// where the room has no channel (then nothing changes). Every subscriber
    /// of the room with space in its queue gets the payload behind what it
    /// already has pending; one whose queue is full is cut off. Subscribers of
    /// other rooms are not touched.
    pub fn publish(&mut self, room_id: i32, payload: String) -> (r: Option<PublishReport>)
        requires
            old(self).wf(),
        ensures
            final(self).wf(),
            final(self)@ == old(self)@.published(room_id, payload@),
            r is Some == old(self)@.rooms.contains_key(room_id),
            r matches Some(report) ==> {
                &&& report.delivered <==> exists|id: u64| old(self)@.rooms[room_id].reaches(id)
                &&& report.dropped <==> exists|id: u64| old(self)@.rooms[room_id].overruns(id)
            },
    {
        let ghost before = self@;
        match self.rooms.remove(&room_id) {
            None => {
                proof {
                    assert(self@.rooms =~= before.rooms);
                }
                None
            },
            Some(existing) => {
                let mut channel = existing;
                let report = channel.publish(payload);
                self.rooms.insert(room_id, channel);
                proof {
                    assert(self@.rooms =~= before.published(room_id, payload@).rooms);
                }
                Some(report)
            },
        }
    }

    /// Hands the holder of `sub` its oldest pending payload, or says that
    /// nothing is pending, that the subscription was cut off, or that there is
    /// no such subscription.
    pub fn receive(&mut self, sub: &Subscription) -> (r: Delivery)
        requires
            old(self).wf(),
        ensures
            final(self).wf(),
            r.answers(old(self)@.channel(sub.room_id), sub.subscriber),
            final(self)@ == old(self)@.received(*sub),
    {
        let ghost before = self@;
        match self.rooms.remove(&sub.room_id) {
            None => {
                proof {
                    assert(self@.rooms =~= before.rooms);
                }
                Delivery::Closed
            },
            Some(existing) => {
                let mut channel = existing;
                let delivery = channel.receive(sub.subscriber);
                self.rooms.insert(sub.room_id, channel);
                proof {
                    assert(self@.rooms =~= before.received(*sub).rooms);
                }
                delivery
            },
        }
    }

    /// Ends the subscription `sub`; says whether there was one. The room
    /// keeps its channel, and nobody else is affected.
    pub fn unsubscribe(&mut self, sub: &Subscription) -> (r: bool)
        requires
            old(self).wf(),
        ensures
            final(self).wf(),
            r == old(self)@.knows(*sub),
            final(self)@ == old(self)@.unsubscribed(*sub),
    {
        let ghost before = self@;
        match self.rooms.remove(&sub.room_id) {
            None => {
                proof {
                    assert(self@.rooms =~= before.rooms);
                }
                false
            },
            Some(existing) => {
                let mut channel = existing;
                let found = channel.unsubscribe(sub.subscriber);
                self.rooms.insert(sub.room_id, channel);
                proof {
                    assert(self@.rooms =~= before.unsubscribed(*sub).rooms);
                }
                found
            },
        }
    }
}

/// A room has at most one channel. The first subscription to a room creates
/// it; every later subscription joins that channel and creates nothing. Other
/// rooms are not touched.
pub proof fn law_one_channel_per_room(v: RegistryView, room: i32)
    requires
        v.valid(),
    ensures
        v.subscribed(room).valid(),
        v.subscribed(room).rooms.dom() == v.rooms.dom().insert(room),
        !v.rooms.contains_key(room) ==> v.subscribed(room).rooms[room] == ChannelView::fresh(
            v.capacity,
        ).subscribed(),
        v.rooms.contains_key(room) ==> v.subscribed(room).rooms[room] == v.rooms[room].subscribed(),
        v.subscribed(room).subscribed(room).rooms.dom() == v.subscribed(room).rooms.dom(),
        v.subscribed(room).subscribed(room).rooms[room] == v.subscribed(
            room,
        ).rooms[room].subscribed(),
        forall|other: i32|
            other != room ==> v.subscribed(room).rooms.contains_key(other)
                == v.rooms.contains_key(other) && v.subscribed(room).channel(other) == v.channel(
                other,
            ),
{
    let after = v.subscribed(room);
}

/// Two subscribers that join a room one after the other, the first of them
/// possibly the room's first ever, end up in one channel.
pub proof fn law_first_subscribers_share_channel(v: RegistryView, room: i32)
    requires
        v.valid(),
        v.can_subscribe(room),
        v.subscribed(room).can_subscribe(room),
    ensures
        v.next_subscription(room) != v.subscribed(room).next_subscription(room),
        v.subscribed(room).subscribed(room).live(v.next_subscription(room)),
        v.subscribed(room).subscribed(room).live(v.subscribed(room).next_subscription(room)),
        v.subscribed(room).subscribed(room).rooms.dom() == v.rooms.dom().insert(room),
{
    let once = v.subscribed(room);
    let twice = once.subscribed(room);
}

/// A published payload is observed, in publish order, by every subscriber
/// that joined the room before the publish: it is appended behind what the
/// subscriber already has pending, and payloads leave a queue from the
/// front. A subscriber that joins after the publish starts with nothing
/// pending, so it never observes that payload. Subscribers of other rooms
/// see nothing of it.
pub proof fn law_publish_reaches_earlier_subscribers_in_order(
    v: RegistryView,
    room: i32,
    payload: Seq<char>,
    sub: Subscription,
)
    requires
        v.valid(),
    ensures
        v.published(room, payload).valid(),
        sub.room_id == room && v.live(sub) && v.pending(sub).len() < v.capacity ==> v.published(
            room,
            payload,
        ).live(sub) && v.published(room, payload).pending(sub) == v.pending(sub).push(payload),
        sub.room_id != room ==> v.published(room, payload).knows(sub) == v.knows(sub)
            && v.published(room, payload).pending(sub) == v.pending(sub) && v.published(
            room,
            payload,
        ).lagged(sub) == v.lagged(sub),
        v.published(room, payload).subscribed(room).pending(
            v.published(room, payload).next_subscription(room),
        ) == Seq::<Seq<char>>::empty(),
        v.live(sub) && v.pending(sub).len() > 0 ==> delivery_for(
            v.channel(sub.room_id),
            sub.subscriber,
        ) == Some(Some(v.pending(sub)[0])) && v.received(sub).pending(sub) == v.pending(
            sub,
        ).drop_first(),
{
    let after = v.published(room, payload);
}

/// Payloads published one after the other reach a subscriber in that order:
/// as long as its queue has room for all of them, they stand behind what it
/// already has pending, the first published first.
pub proof fn law_publish_order(
    v: RegistryView,
    room: i32,
    payloads: Seq<Seq<char>>,
    sub: Subscription,
)
    requires
        v.valid(),
        sub.room_id == room,
        v.live(sub),
        v.pending(sub).len() + payloads.len() <= v.capacity,
    ensures
        v.published_all(room, payloads).valid(),
        v.published_all(room, payloads).capacity == v.capacity,
        v.published_all(room, payloads).live(sub),
        v.published_all(room, payloads).pending(sub) == v.pending(sub) + payloads,
    decreases payloads.len(),
{
    if payloads.len() > 0 {
        let before = v.published_all(room, payloads.drop_last());
        law_publish_order(v, room, payloads.drop_last(), sub);
        law_publish_reaches_earlier_subscribers_in_order(before, room, payloads.last(), sub);
    }
}

/// A subscriber that has fallen a full queue behind is cut off by the next
/// publish: it has nothing pending any more, and a receive tells it so
/// instead of handing out a payload. Every other subscriber of the room that
/// has space gets the payload as usual.
pub proof fn law_slow_subscriber_is_cut_off(
    v: RegistryView,
    room: i32,
    payload: Seq<char>,
    slow: Subscription,
    other: Subscription,
)
    requires
        v.valid(),
        slow.room_id == room,
        other.room_id == room,
        v.live(slow),
        v.pending(slow).len() >= v.capacity,
        v.live(other),
        v.pending(other).len() < v.capacity,
    ensures
        v.published(room, payload).lagged(slow),
        v.published(room, payload).pending(slow) == Seq::<Seq<char>>::empty(),
        delivery_for(v.published(room, payload).channel(room), slow.subscriber) == None::<
            Option<Seq<char>>,
        >,
        v.published(room, payload).received(slow) == v.published(room, payload),
        v.published(room, payload).live(other),
        v.published(room, payload).pending(other) == v.pending(other).push(payload),
{
    let after = v.published(room, payload);
    let c = after.rooms[room];
    assert(c.subscribers.insert(slow.subscriber, c.subscribers[slow.subscriber])
        =~= c.subscribers);
    assert(after.rooms.insert(room, c) =~= after.rooms);
}

/// A subscriber that was cut off stays cut off: whatever is published to
/// whatever room from then on, it has nothing pending and receives nothing.
pub proof fn law_cut_off_subscriber_receives_nothing(
    v: RegistryView,
    room: i32,
    payloads: Seq<Seq<char>>,
    cut: Subscription,
)
    requires
        v.valid(),
        v.lagged(cut),
    ensures
        v.published_all(room, payloads).valid(),
        v.published_all(room, payloads).capacity == v.capacity,
        v.published_all(room, payloads).lagged(cut),
        v.published_all(room, payloads).pending(cut) == Seq::<Seq<char>>::empty(),
        delivery_for(
            v.published_all(room, payloads).channel(cut.room_id),
            cut.subscriber,
        ) == None::<Option<Seq<char>>>,
    decreases payloads.len(),
{
    if payloads.len() > 0 {
        let before = v.published_all(room, payloads.drop_last());
        law_cut_off_subscriber_receives_nothing(v, room, payloads.drop_last(), cut);
        law_publish_reaches_earlier_subscribers_in_order(before, room, payloads.last(), cut);
    }
}

/// A subscription that has ended is never revived: later subscribers get
/// other identifiers, so the old handle stays unknown.
pub proof fn law_ended_subscription_stays_ended(v: RegistryView, sub: Subscription)
    requires
        v.valid(),
        v.knows(sub),
        v.unsubscribed(sub).can_subscribe(sub.room_id),
    ensures
        !v.unsubscribed(sub).knows(sub),
        !v.unsubscribed(sub).subscribed(sub.room_id).knows(sub),
        v.unsubscribed(sub).rooms.dom() == v.rooms.dom(),
{
}

/// A subscriber that leaves takes nothing with it: every room keeps its
/// channel, and every other subscriber keeps what it has pending.
pub proof fn law_departure_leaves_others_alone(
    v: RegistryView,
    leaving: Subscription,
    other: Subscription,
)
    requires
        v.valid(),
        other != leaving,
    ensures
        v.unsubscribed(leaving).valid(),
        v.unsubscribed(leaving).rooms.dom() == v.rooms.dom(),
        v.unsubscribed(leaving).knows(other) == v.knows(other),
        v.unsubscribed(leaving).lagged(other) == v.lagged(other),
        v.unsubscribed(leaving).pending(other) == v.pending(other),
{
}

} // verus!
