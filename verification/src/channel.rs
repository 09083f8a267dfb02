//! The broadcast channel of one room: a bounded fan-out in which every
//! subscriber has its own queue of pending payloads. A publish reaches every
//! subscriber that has room for it; a subscriber whose queue is full is cut
//! off instead of holding the publisher back.

use vstd::prelude::*;

verus! {

/// What one subscriber has in front of it.
pub struct SubscriberView {
    /// Payloads published since it subscribed and not yet received, oldest
    /// first.
    pub pending: Seq<Seq<char>>,
    /// Whether it fell too far behind and was cut off.
    pub lagged: bool,
}

/// The state of a channel as its contracts see it.
pub struct ChannelView {
    /// Most payloads that may wait for one subscriber.
    pub capacity: nat,
    /// The identifier that the next subscriber gets.
    pub next_id: nat,
    /// The current subscribers, by identifier.
    pub subscribers: Map<u64, SubscriberView>,
}

/// A subscriber that has just joined: nothing pending, not cut off.
pub open spec fn newcomer() -> SubscriberView {
    SubscriberView { pending: Seq::empty(), lagged: false }
}

/// A subscriber after `payload` was published to a channel of the given
/// capacity: the payload joins the end of its queue, unless the queue is
/// full, in which case the subscriber is cut off and its queue dropped. A
/// subscriber that was cut off before stays as it is.
pub open spec fn after_publish(s: SubscriberView, capacity: nat, payload: Seq<char>)
    -> SubscriberView {
    if s.lagged {
        s
    } else if s.pending.len() >= capacity {
        SubscriberView { pending: Seq::empty(), lagged: true }
    } else {
        SubscriberView { pending: s.pending.push(payload), lagged: false }
    }
}

/// A subscriber after one receive: without the head of its queue, if it had
/// one.
pub open spec fn after_receive(s: SubscriberView) -> SubscriberView {
    if s.lagged || s.pending.len() == 0 {
        s
    } else {
        SubscriberView { pending: s.pending.drop_first(), lagged: false }
    }
}

impl ChannelView {
    /// A channel that nobody has subscribed to yet.
    pub open spec fn fresh(capacity: nat) -> ChannelView {
        ChannelView { capacity, next_id: 0, subscribers: Map::empty() }
    }

    /// What holds of every channel: identifiers handed out lie below the next
    /// one, no queue is longer than the capacity, and a subscriber that was
    /// cut off has nothing pending.
    pub open spec fn valid(self) -> bool {
        forall|id: u64| #[trigger]
            self.subscribers.contains_key(id) ==> {
                &&& id < self.next_id
                &&& self.subscribers[id].pending.len() <= self.capacity
                &&& self.subscribers[id].lagged ==> self.subscribers[id].pending.len() == 0
            }
    }

    /// Whether an identifier is left for one more subscriber.
    pub open spec fn can_subscribe(self) -> bool {
        self.next_id < u64::MAX
    }

    /// The channel after one more subscriber joined under the next
    /// identifier.
    pub open spec fn subscribed(self) -> ChannelView {
        ChannelView {
            next_id: self.next_id + 1,
            subscribers: self.subscribers.insert(self.next_id as u64, newcomer()),
            ..self
        }
    }

    /// The channel after `payload` was published.
    pub open spec fn published(self, payload: Seq<char>) -> ChannelView {
        ChannelView {
            subscribers: Map::new(
                |id: u64| self.subscribers.contains_key(id),
                |id: u64| after_publish(self.subscribers[id], self.capacity, payload),
            ),
            ..self
        }
    }

    /// The channel after subscriber `id` took one payload.
    pub open spec fn received(self, id: u64) -> ChannelView {
        if self.subscribers.contains_key(id) {
            ChannelView {
                subscribers: self.subscribers.insert(id, after_receive(self.subscribers[id])),
                ..self
            }
        } else {
            self
        }
    }

    /// The channel after subscriber `id` left.
    pub open spec fn unsubscribed(self, id: u64) -> ChannelView {
        ChannelView { subscribers: self.subscribers.remove(id), ..self }
    }

    /// Whether a publish reaches subscriber `id`.
    pub open spec fn reaches(self, id: u64) -> bool {
        &&& self.subscribers.contains_key(id)
        &&& !self.subscribers[id].lagged
        &&& self.subscribers[id].pending.len() < self.capacity
    }

    /// Whether a publish cuts subscriber `id` off.
    pub open spec fn overruns(self, id: u64) -> bool {
        &&& self.subscribers.contains_key(id)
        &&& !self.subscribers[id].lagged
        &&& self.subscribers[id].pending.len() >= self.capacity
    }
}

/// What a publish did.
#[derive(Clone, Copy, Debug, PartialEq, Eq, Structural)]
pub struct PublishReport {
    /// Whether at least one subscriber got the payload.
    pub delivered: bool,
    /// Whether at least one subscriber was cut off for being too far behind.
    pub dropped: bool,
}

/// What a subscriber gets when it asks for its next payload.
#[derive(Clone, Debug, PartialEq)]
pub enum Delivery {
    /// The oldest pending payload.
    Message(String),
    /// Nothing is pending.
    Empty,
    /// The subscriber fell too far behind and was cut off.
    Lagged,
    /// The channel knows no such subscriber.
    Closed,
}

/// The answer that a receive gives to subscriber `id` of channel `v`, with
/// the payload by its text.
pub open spec fn delivery_for(v: ChannelView, id: u64) -> Option<Option<Seq<char>>> {
    if !v.subscribers.contains_key(id) || v.subscribers[id].lagged {
        None
    } else if v.subscribers[id].pending.len() == 0 {
        Some(None)
    } else {
        Some(Some(v.subscribers[id].pending[0]))
    }
}

impl Delivery {
    /// Whether this delivery is the one owed to subscriber `id` of channel
    /// `v`.
    pub open spec fn answers(self, v: ChannelView, id: u64) -> bool {
        match self {
            Delivery::Message(text) => delivery_for(v, id) == Some(Some(text@)),
            Delivery::Empty => delivery_for(v, id) == Some(None::<Seq<char>>),
            Delivery::Lagged => v.subscribers.contains_key(id) && v.subscribers[id].lagged,
            Delivery::Closed => !v.subscribers.contains_key(id),
        }
    }
}

struct Slot {
    id: u64,
    lag: usize,
    lagged: bool,
}

/// The broadcast channel of one room.
pub struct RoomChannel {
    capacity: usize,
    next_id: u64,
    /// The most recent payloads, oldest first; never more than `capacity`.
    backlog: Vec<String>,
    /// One slot per subscriber, in the order they joined. A slot's `lag` is
    /// the number of payloads at the end of `backlog` that it has not taken.
    slots: Vec<Slot>,
}

spec fn texts(log: Seq<String>) -> Seq<Seq<char>> {
    Seq::new(log.len(), |i: int| log[i]@)
}

spec fn tail(log: Seq<Seq<char>>, n: int) -> Seq<Seq<char>> {
    log.subrange(log.len() - n, log.len() as int)
}

spec fn slot_view(slot: Slot, log: Seq<Seq<char>>) -> SubscriberView {
    SubscriberView { pending: tail(log, slot.lag as int), lagged: slot.lagged }
}

spec fn listed(slots: Seq<Slot>, id: u64) -> bool {
    exists|i: int| 0 <= i < slots.len() && (#[trigger] slots[i]).id == id
}

spec fn position(slots: Seq<Slot>, id: u64) -> int {
    choose|i: int| 0 <= i < slots.len() && (#[trigger] slots[i]).id == id
}

spec fn ascending(slots: Seq<Slot>) -> bool {
    forall|i: int, j: int| 0 <= i < j < slots.len() ==> (#[trigger] slots[i]).id < (
    #[trigger] slots[j]).id
}

spec fn bumped(slot: Slot, capacity: usize) -> Slot {
    if slot.lagged {
        slot
    } else if slot.lag >= capacity {
        Slot { id: slot.id, lag: 0, lagged: true }
    } else {
        Slot { id: slot.id, lag: (slot.lag + 1) as usize, lagged: false }
    }
}

proof fn lemma_position(slots: Seq<Slot>, i: int)
    requires
        ascending(slots),
        0 <= i < slots.len(),
    ensures
        listed(slots, slots[i].id),
        position(slots, slots[i].id) == i,
{
}

proof fn lemma_tail_after_push(log: Seq<Seq<char>>, payload: Seq<char>, n: int)
    requires
        0 <= n <= log.len(),
    ensures
        tail(log.push(payload), n + 1) == tail(log, n).push(payload),
{
}

proof fn lemma_tail_after_shift(log: Seq<Seq<char>>, payload: Seq<char>, n: int)
    requires
        0 <= n < log.len(),
    ensures
        tail(log.drop_first().push(payload), n + 1) == tail(log, n).push(payload),
{
}

impl RoomChannel {
    /// The invariant of the representation.
    pub closed spec fn wf(&self) -> bool {
        &&& self.backlog@.len() <= self.capacity
        &&& ascending(self.slots@)
        &&& forall|i: int|
            0 <= i < self.slots@.len() ==> {
                &&& (#[trigger] self.slots@[i]).id < self.next_id
                &&& self.slots@[i].lag <= self.backlog@.len()
                &&& self.slots@[i].lagged ==> self.slots@[i].lag == 0
            }
    }

    /// The channel as its contracts see it.
    pub closed spec fn view(&self) -> ChannelView {
        ChannelView {
            capacity: self.capacity as nat,
            next_id: self.next_id as nat,
            subscribers: Map::new(
                |id: u64| listed(self.slots@, id),
                |id: u64| slot_view(self.slots@[position(self.slots@, id)], texts(self.backlog@)),
            ),
        }
    }

    /// A well-formed channel shows a valid state.
    pub proof fn lemma_valid(&self)
        requires
            self.wf(),
        ensures
            self@.valid(),
    {
    }

    /// A channel without subscribers in which at most `capacity` payloads
    /// wait for any one subscriber.
    pub fn new(capacity: usize) -> (r: RoomChannel)
        ensures
            r.wf(),
            r@ == ChannelView::fresh(capacity as nat),
    {
        let r = RoomChannel { capacity, next_id: 0, backlog: Vec::new(), slots: Vec::new() };
        assert(r@.subscribers =~= Map::<u64, SubscriberView>::empty());
        r
    }

    /// Most payloads that may wait for one subscriber.
    pub fn capacity(&self) -> (r: usize)
        ensures
            r == self@.capacity,
    {
        self.capacity
    }

    /// How many subscribers the channel has, those cut off and not yet gone
    /// included.
    pub fn subscriber_count(&self) -> (r: usize)
        requires
            self.wf(),
        ensures
            r == self@.subscribers.dom().len(),
            self@.subscribers.dom().finite(),
    {
        proof {
            self.lemma_count(self.slots@.len() as int);
            assert(self@.subscribers.dom() =~= Set::new(
                |id: u64| listed(self.slots@.subrange(0, self.slots@.len() as int), id),
            )) by {
                assert(self.slots@.subrange(0, self.slots@.len() as int) =~= self.slots@);
            }
        }
        self.slots.len()
    }

    proof fn lemma_count(&self, n: int)
        requires
            self.wf(),
            0 <= n <= self.slots@.len(),
        ensures
            Set::new(|id: u64| listed(self.slots@.subrange(0, n), id)).finite(),
            Set::new(|id: u64| listed(self.slots@.subrange(0, n), id)).len() == n,
        decreases n,
    {
        let here = Set::new(|id: u64| listed(self.slots@.subrange(0, n), id));
        if n == 0 {
            assert(here =~= Set::<u64>::empty());
        } else {
            self.lemma_count(n - 1);
            let before = Set::new(|id: u64| listed(self.slots@.subrange(0, n - 1), id));
            let id = self.slots@[n - 1].id;
            assert(here =~= before.insert(id)) by {
                assert forall|x: u64| before.insert(id).contains(x) implies here.contains(x) by {
                    if x == id {
                        assert(self.slots@.subrange(0, n)[n - 1] == self.slots@[n - 1]);
                    }
                }
            }
        }
    }

    fn find(&self, id: u64) -> (r: Option<usize>)
        requires
            self.wf(),
        ensures
            match r {
                Some(i) => i < self.slots@.len() && self.slots@[i as int].id == id && listed(
                    self.slots@,
                    id,
                ) && position(self.slots@, id) == i,
                None => !listed(self.slots@, id),
            },
    {
        let mut i: usize = 0;
        while i < self.slots.len()
            invariant
                self.wf(),
                i <= self.slots@.len(),
                forall|j: int| 0 <= j < i ==> (#[trigger] self.slots@[j]).id != id,
            decreases self.slots@.len() - i,
        {
            if self.slots[i].id == id {
                proof {
                    lemma_position(self.slots@, i as int);
                }
                return Some(i);
            }
            i = i + 1;
        }
        None
    }

    /// Adds a subscriber and returns its identifier. The newcomer has
    /// nothing pending: it sees only what is published from now on. Fails
    /// only when every identifier has been handed out.
    pub fn subscribe(&mut self) -> (r: Option<u64>)
        requires
            old(self).wf(),
        ensures
            final(self).wf(),
            match r {
                Some(id) => old(self)@.can_subscribe() && id == old(self)@.next_id && final(self)@
                    == old(self)@.subscribed(),
                None => !old(self)@.can_subscribe() && final(self)@ == old(self)@,
            },
    {
        if self.next_id == u64::MAX {
            return None;
        }
        let id = self.next_id;
        let ghost before = self.slots@;
        self.slots.push(Slot { id, lag: 0, lagged: false });
        self.next_id = id + 1;
        proof {
            let after = self.slots@;
            let log = texts(self.backlog@);
            assert(after[before.len() as int].id == id);
            assert forall|x: u64| listed(after, x) <==> (x == id || listed(before, x)) by {
                if listed(before, x) {
                    let p = position(before, x);
                    assert(after[p].id == x);
                }
            }
            lemma_position(after, before.len() as int);
            assert(tail(log, 0) =~= Seq::<Seq<char>>::empty());
            assert(self@.subscribers =~= old(self)@.subscribed().subscribers);
        }
        Some(id)
    }

    /// Publishes `payload` to every subscriber. It joins the queue of each
    /// subscriber that has room; a subscriber whose queue is full is cut off.
    /// Never waits for anyone.
    pub fn publish(&mut self, payload: String) -> (r: PublishReport)
        requires
            old(self).wf(),
        ensures
            final(self).wf(),
            final(self)@ == old(self)@.published(payload@),
            r.delivered <==> exists|id: u64| old(self)@.reaches(id),
            r.dropped <==> exists|id: u64| old(self)@.overruns(id),
    {
        let ghost old_log = texts(self.backlog@);
        let ghost old_slots = self.slots@;
        let ghost text = payload@;
        let full = self.backlog.len() == self.capacity;
        if self.capacity > 0 {
            if full {
                self.backlog.remove(0);
            }
            self.backlog.push(payload);
        }
        let ghost new_log = texts(self.backlog@);
        proof {
            if self.capacity > 0 {
                if full {
                    assert(new_log =~= old_log.drop_first().push(text));
                } else {
                    assert(new_log =~= old_log.push(text));
                }
            }
        }
        let capacity = self.capacity;
        let mut delivered = false;
        let mut dropped = false;
        let mut i: usize = 0;
        while i < self.slots.len()
            invariant
                i <= self.slots@.len(),
                self.slots@.len() == old_slots.len(),
                self.capacity == capacity,
                self.next_id == old(self).next_id,
                texts(self.backlog@) == new_log,
                self.backlog@.len() <= capacity,
                capacity > 0 && old_log.len() < capacity ==> self.backlog@.len() == old_log.len()
                    + 1,
                old_log.len() <= self.backlog@.len() || capacity == 0,
                forall|j: int|
                    0 <= j < old_slots.len() ==> (#[trigger] old_slots[j]).lag <= old_log.len(),
                forall|j: int| 0 <= j < i ==> #[trigger] self.slots@[j] == bumped(
                    old_slots[j],
                    capacity,
                ),
                forall|j: int| i <= j < old_slots.len() ==> #[trigger] self.slots@[j]
                    == old_slots[j],
                delivered <==> exists|j: int|
                    0 <= j < i && !(#[trigger] old_slots[j]).lagged && old_slots[j].lag < capacity,
                dropped <==> exists|j: int|
                    0 <= j < i && !(#[trigger] old_slots[j]).lagged && old_slots[j].lag
                        >= capacity,
            decreases self.slots@.len() - i,
        {
            let id = self.slots[i].id;
            let lag = self.slots[i].lag;
            if !self.slots[i].lagged {
                if lag >= capacity {
                    self.slots.set(i, Slot { id, lag: 0, lagged: true });
                    dropped = true;
                } else {
                    self.slots.set(i, Slot { id, lag: lag + 1, lagged: false });
                    delivered = true;
                }
            }
            i = i + 1;
        }
        proof {
            let new_slots = self.slots@;
            let before = old(self)@;
            assert forall|x: u64| listed(new_slots, x) <==> listed(old_slots, x) by {
                if listed(old_slots, x) {
                    let p = position(old_slots, x);
                    assert(new_slots[p].id == x);
                }
            }
            assert forall|x: u64| listed(old_slots, x) implies slot_view(
                new_slots[position(new_slots, x)],
                new_log,
            ) == after_publish(
                slot_view(old_slots[position(old_slots, x)], old_log),
                capacity as nat,
                text,
            ) by {
                let p = position(old_slots, x);
                lemma_position(new_slots, p);
                let slot = old_slots[p];
                if slot.lagged {
                    assert(tail(new_log, 0) =~= tail(old_log, 0));
                } else if slot.lag >= capacity {
                    assert(tail(new_log, 0) =~= Seq::<Seq<char>>::empty());
                } else {
                    if old_log.len() < capacity {
                        lemma_tail_after_push(old_log, text, slot.lag as int);
                    } else {
                        lemma_tail_after_shift(old_log, text, slot.lag as int);
                    }
                }
            }
            assert(self@.subscribers =~= before.published(text).subscribers);
            if delivered {
                let j = choose|j: int|
                    0 <= j < old_slots.len() && !(#[trigger] old_slots[j]).lagged
                        && old_slots[j].lag < capacity;
                lemma_position(old_slots, j);
                assert(before.reaches(old_slots[j].id));
            }
            if dropped {
                let j = choose|j: int|
                    0 <= j < old_slots.len() && !(#[trigger] old_slots[j]).lagged
                        && old_slots[j].lag >= capacity;
                lemma_position(old_slots, j);
                assert(before.overruns(old_slots[j].id));
            }
        }
        PublishReport { delivered, dropped }
    }

    /// Hands subscriber `id` its oldest pending payload, if it has one, and
    /// says so if it has none, was cut off, or is unknown. Payloads come out
    /// in the order in which they were published.
    pub fn receive(&mut self, id: u64) -> (r: Delivery)
        requires
            old(self).wf(),
        ensures
            final(self).wf(),
            r.answers(old(self)@, id),
            final(self)@ == old(self)@.received(id),
    {
        let ghost before = self@;
        let ghost old_slots = self.slots@;
        let ghost log = texts(self.backlog@);
        match self.find(id) {
            None => Delivery::Closed,
            Some(i) => {
                let lag = self.slots[i].lag;
                if self.slots[i].lagged {
                    proof {
                        assert(before.received(id).subscribers =~= before.subscribers);
                    }
                    Delivery::Lagged
                } else if lag == 0 {
                    proof {
                        assert(before.received(id).subscribers =~= before.subscribers);
                    }
                    Delivery::Empty
                } else {
                    let at = self.backlog.len() - lag;
                    let text = self.backlog[at].clone();
                    self.slots.set(i, Slot { id, lag: lag - 1, lagged: false });
                    proof {
                        let new_slots = self.slots@;
                        assert(tail(log, lag - 1) =~= tail(log, lag as int).drop_first());
                        assert forall|x: u64| listed(new_slots, x) <==> listed(old_slots, x) by {
                            if listed(new_slots, x) {
                                let p = position(new_slots, x);
                                assert(old_slots[p].id == x);
                            }
                            if listed(old_slots, x) {
                                let p = position(old_slots, x);
                                assert(new_slots[p].id == x);
                            }
                        }
                        assert(self@.subscribers =~= before.received(id).subscribers);
                    }
                    Delivery::Message(text)
                }
            },
        }
    }

    /// Removes subscriber `id`; says whether there was one. Nobody else is
    /// affected, and the identifier is not handed out again.
    pub fn unsubscribe(&mut self, id: u64) -> (r: bool)
        requires
            old(self).wf(),
        ensures
            final(self).wf(),
            r == old(self)@.subscribers.contains_key(id),
            final(self)@ == old(self)@.unsubscribed(id),
    {
        let ghost before = self@;
        let ghost old_slots = self.slots@;
        match self.find(id) {
            None => {
                proof {
                    assert(self@.subscribers =~= before.unsubscribed(id).subscribers);
                }
                false
            },
            Some(i) => {
                self.slots.remove(i);
                proof {
                    let new_slots = self.slots@;
                    assert forall|x: u64| listed(new_slots, x) <==> (x != id && listed(
                        old_slots,
                        x,
                    )) by {
                        if x != id && listed(old_slots, x) {
                            let p = position(old_slots, x);
                            let q = if p < i { p } else { p - 1 };
                            assert(new_slots[q].id == x);
                        }
                    }
                    assert(self@.subscribers =~= before.unsubscribed(id).subscribers);
                }
                true
            },
        }
    }
}

} // verus!
