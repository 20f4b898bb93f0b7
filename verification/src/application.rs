//! The broadcast hub: fan-out of materialized changes to live sessions.
//!
//! Every subscriber has a queue of its own, bounded by the hub's capacity.
//! Publishing never waits: a subscriber whose queue is full misses the
//! message. Nothing is replayed to a subscriber that joins later.

use vstd::prelude::*;
use std::collections::VecDeque;
use crate::projections::jobsite::{Jobsite, JobsiteView};

verus! {

/// The queue capacity that the application gives its hub.
pub const DEFAULT_CAPACITY: usize = 16;

/// A change of the read model, announced after it was committed.
#[derive(Debug, PartialEq, Eq)]
pub enum JobsiteBroadcast {
    JobsiteCreated(Jobsite),
    JobsiteUpdated(Jobsite),
}

/// The mathematical value of a [`JobsiteBroadcast`].
pub enum JobsiteBroadcastView {
    JobsiteCreated(JobsiteView),
    JobsiteUpdated(JobsiteView),
}

impl View for JobsiteBroadcast {
    type V = JobsiteBroadcastView;

    open spec fn view(&self) -> JobsiteBroadcastView {
        match self {
            JobsiteBroadcast::JobsiteCreated(j) => JobsiteBroadcastView::JobsiteCreated(j@),
            JobsiteBroadcast::JobsiteUpdated(j) => JobsiteBroadcastView::JobsiteUpdated(j@),
        }
    }
}

impl Clone for JobsiteBroadcast {
    fn clone(&self) -> (copy: Self)
        ensures
            copy == *self,
    {
        match self {
            JobsiteBroadcast::JobsiteCreated(j) => JobsiteBroadcast::JobsiteCreated(j.clone()),
            JobsiteBroadcast::JobsiteUpdated(j) => JobsiteBroadcast::JobsiteUpdated(j.clone()),
        }
    }
}

/// The views of a sequence of messages, in the same order.
pub open spec fn messages_view(messages: Seq<JobsiteBroadcast>) -> Seq<JobsiteBroadcastView> {
    messages.map_values(|m: JobsiteBroadcast| m@)
}

/// The mathematical value of a [`BroadcastHub`].
pub struct HubView {
    /// How many messages a queue holds at most.
    pub capacity: nat,
    /// How many subscriptions were ever made.
    pub issued: nat,
    /// The queue of each live subscriber, oldest message first.
    pub queues: Map<u64, Seq<JobsiteBroadcastView>>,
}

/// A queue after a message was published: one longer where there was room.
pub open spec fn deliver(
    queue: Seq<JobsiteBroadcastView>,
    message: JobsiteBroadcastView,
    capacity: nat,
) -> Seq<JobsiteBroadcastView> {
    if queue.len() < capacity {
        queue.push(message)
    } else {
        queue
    }
}

impl HubView {
    /// The hub after `message` was published to it.
    pub open spec fn publish(self, message: JobsiteBroadcastView) -> HubView {
        HubView {
            queues: Map::new(
                |id: u64| self.queues.contains_key(id),
                |id: u64| deliver(self.queues[id], message, self.capacity),
            ),
            ..self
        }
    }

    /// The hub after one more subscriber joined. Its identifier is the number
    /// of subscriptions made before, and its queue is empty.
    pub open spec fn subscribe(self) -> HubView {
        HubView {
            issued: self.issued + 1,
            queues: self.queues.insert(self.issued as u64, Seq::empty()),
            ..self
        }
    }

    /// The hub after the subscriber `id` left.
    pub open spec fn unsubscribe(self, id: u64) -> HubView {
        HubView { queues: self.queues.remove(id), ..self }
    }

    /// The oldest message that waits for `id`.
    pub open spec fn front(self, id: u64) -> Option<JobsiteBroadcastView> {
        if self.queues.contains_key(id) && self.queues[id].len() > 0 {
            Some(self.queues[id][0])
        } else {
            None
        }
    }

    /// The hub after `id` took its oldest message.
    pub open spec fn receive(self, id: u64) -> HubView {
        if self.queues.contains_key(id) && self.queues[id].len() > 0 {
            HubView { queues: self.queues.insert(id, self.queues[id].drop_first()), ..self }
        } else {
            self
        }
    }
}

struct Subscriber {
    id: u64,
    queue: VecDeque<JobsiteBroadcast>,
}

/// Some subscriber of `subscribers` has the identifier `id`.
spec fn subscribed(subscribers: Seq<Subscriber>, id: u64) -> bool {
    exists|i: int| 0 <= i < subscribers.len() && (#[trigger] subscribers[i]).id == id
}

/// The index of the subscriber with the identifier `id`.
spec fn slot_of(subscribers: Seq<Subscriber>, id: u64) -> int {
    choose|i: int| 0 <= i < subscribers.len() && (#[trigger] subscribers[i]).id == id
}

spec fn queues_of(subscribers: Seq<Subscriber>) -> Map<u64, Seq<JobsiteBroadcastView>> {
    Map::new(
        |id: u64| subscribed(subscribers, id),
        |id: u64| messages_view(subscribers[slot_of(subscribers, id)].queue@),
    )
}

spec fn distinct_ids(subscribers: Seq<Subscriber>) -> bool {
    forall|i: int, j: int|
        0 <= i < j < subscribers.len() ==> (#[trigger] subscribers[i]).id != (
        #[trigger] subscribers[j]).id
}

proof fn lemma_slot_of(subscribers: Seq<Subscriber>, i: int)
    requires
        distinct_ids(subscribers),
        0 <= i < subscribers.len(),
    ensures
        subscribed(subscribers, subscribers[i].id),
        slot_of(subscribers, subscribers[i].id) == i,
{
    let id = subscribers[i].id;
    let k = slot_of(subscribers, id);
    assert(0 <= k < subscribers.len() && subscribers[k].id == id);
    if k < i {
        assert(subscribers[k].id != subscribers[i].id);
    } else if i < k {
        assert(subscribers[i].id != subscribers[k].id);
    }
}

/// The hub that carries materialized changes from the consumer to the sessions.
pub struct BroadcastHub {
    capacity: usize,
    issued: u64,
    subscribers: Vec<Subscriber>,
}

impl View for BroadcastHub {
    type V = HubView;

    closed spec fn view(&self) -> HubView {
        HubView {
            capacity: self.capacity as nat,
            issued: self.issued as nat,
            queues: queues_of(self.subscribers@),
        }
    }
}

impl BroadcastHub {
    #[verifier::type_invariant]
    spec fn well_formed(&self) -> bool {
        &&& distinct_ids(self.subscribers@)
        &&& forall|i: int|
            0 <= i < self.subscribers@.len() ==> (#[trigger] self.subscribers@[i]).id < self.issued
        &&& forall|i: int|
            0 <= i < self.subscribers@.len() ==> (#[trigger] self.subscribers@[i]).queue@.len()
                <= self.capacity
    }

    /// A hub without subscribers whose queues will hold `capacity` messages.
    pub fn new(capacity: usize) -> (hub: BroadcastHub)
        ensures
            hub@ == (HubView { capacity: capacity as nat, issued: 0, queues: Map::empty() }),
    {
        let hub = BroadcastHub { capacity, issued: 0, subscribers: Vec::new() };
        assert(hub@.queues =~= Map::empty());
        hub
    }

    /// How many messages a queue holds at most.
    pub fn capacity(&self) -> (capacity: usize)
        ensures
            capacity == self@.capacity,
    {
        self.capacity
    }

    /// How many subscriptions were ever made.
    pub fn issued(&self) -> (issued: u64)
        ensures
            issued == self@.issued,
    {
        self.issued
    }

    /// The number of live subscribers.
    pub fn receiver_count(&self) -> (count: usize)
        ensures
            count == self@.queues.dom().len(),
            self@.queues.dom().finite(),
    {
        proof {
            use_type_invariant(self);
            self.lemma_domain();
        }
        self.subscribers.len()
    }

    proof fn lemma_domain(&self)
        requires
            distinct_ids(self.subscribers@),
        ensures
            self@.queues.dom().finite(),
            self@.queues.dom().len() == self.subscribers@.len(),
    {
        lemma_domain_of(self.subscribers@);
    }

    /// The index of the subscriber `id`.
    fn find(subscribers: &Vec<Subscriber>, id: u64) -> (found: Option<usize>)
        ensures
            match found {
                Some(i) => i < subscribers@.len() && subscribers@[i as int].id == id,
                None => !subscribed(subscribers@, id),
            },
    {
        let mut i: usize = 0;
        while i < subscribers.len()
            invariant
                i <= subscribers.len(),
                forall|k: int| 0 <= k < i ==> (#[trigger] subscribers@[k]).id != id,
            decreases subscribers.len() - i,
        {
            if subscribers[i].id == id {
                return Some(i);
            }
            i += 1;
        }
        None
    }

    /// Adds a subscriber with an empty queue and returns its identifier.
    pub fn subscribe(&mut self) -> (id: u64)
        requires
            old(self)@.issued < u64::MAX,
        ensures
            id == old(self)@.issued,
            !old(self)@.queues.contains_key(id),
            final(self)@ == old(self)@.subscribe(),
    {
        proof {
            use_type_invariant(&*self);
        }
        let id = self.issued;
        let ghost before = self.subscribers@;
        let mut subscribers: Vec<Subscriber> = Vec::new();
        core::mem::swap(&mut self.subscribers, &mut subscribers);
        subscribers.push(Subscriber { id, queue: VecDeque::new() });
        let ghost after = subscribers@;
        proof {
            assert(!subscribed(before, id)) by {
                if subscribed(before, id) {
                    let k = slot_of(before, id);
                    assert(before[k].id < id);
                }
            }
            assert(distinct_ids(after)) by {
                assert forall|i: int, j: int| 0 <= i < j < after.len() implies (
                #[trigger] after[i]).id != (#[trigger] after[j]).id by {
                    if j < before.len() {
                        assert(after[i] == before[i] && after[j] == before[j]);
                    } else {
                        assert(after[i] == before[i]);
                        assert(before[i].id < id);
                    }
                }
            }
            assert(queues_of(after) =~= queues_of(before).insert(id, Seq::empty())) by {
                assert forall|other: u64| #[trigger]
                    queues_of(after).contains_key(other) <==> queues_of(before).insert(
                        id,
                        Seq::empty(),
                    ).contains_key(other) by {
                    if subscribed(before, other) {
                        let k = slot_of(before, other);
                        assert(after[k].id == other);
                    }
                    if subscribed(after, other) && other != id {
                        let k = slot_of(after, other);
                        assert(before[k].id == other);
                    }
                    if other == id {
                        assert(after[before.len() as int].id == id);
                    }
                }
                assert forall|other: u64| #[trigger]
                    queues_of(after).contains_key(other) implies queues_of(after)[other]
                    == queues_of(before).insert(id, Seq::empty())[other] by {
                    if other == id {
                        lemma_slot_of(after, before.len() as int);
                        assert(messages_view(after[before.len() as int].queue@) =~= Seq::empty());
                    } else {
                        let k = slot_of(after, other);
                        assert(before[k].id == other);
                        lemma_slot_of(before, k);
                    }
                }
            }
        }
        self.issued = id + 1;
        assert forall|i: int| 0 <= i < after.len() implies (#[trigger] after[i]).id < id + 1
            && after[i].queue@.len() <= self.capacity by {
            if i < before.len() {
                assert(after[i] == before[i]);
            }
        }
        self.subscribers = subscribers;
        id
    }
}

impl BroadcastHub {
    /// Removes the subscriber `id` with whatever waits in its queue. Does
    /// nothing where `id` is no subscriber.
    pub fn unsubscribe(&mut self, id: u64)
        ensures
            final(self)@ == old(self)@.unsubscribe(id),
    {
        proof {
            use_type_invariant(&*self);
        }
        let ghost before = self.subscribers@;
        match BroadcastHub::find(&self.subscribers, id) {
            None => {
                assert(self@.queues =~= self@.queues.remove(id));
            },
            Some(i) => {
                let mut subscribers: Vec<Subscriber> = Vec::new();
                core::mem::swap(&mut self.subscribers, &mut subscribers);
                let _ = subscribers.remove(i);
                let ghost after = subscribers@;
                proof {
                    assert forall|k: int| 0 <= k < after.len() implies #[trigger] after[k] == before[if k
                        < i {
                        k
                    } else {
                        k + 1
                    }] by {}
                    assert(distinct_ids(after)) by {
                        assert forall|a: int, b: int| 0 <= a < b < after.len() implies (
                        #[trigger] after[a]).id != (#[trigger] after[b]).id by {
                            let a0 = if a < i { a } else { a + 1 };
                            let b0 = if b < i { b } else { b + 1 };
                            assert(after[a] == before[a0] && after[b] == before[b0]);
                            assert(before[a0].id != before[b0].id);
                        }
                    }
                    lemma_queues_of(before);
                    lemma_queues_of(after);
                    assert(queues_of(after) =~= queues_of(before).remove(id)) by {
                        assert forall|other: u64|
                            queues_of(after).contains_key(other) <==> queues_of(before).remove(
                                id,
                            ).contains_key(other) by {
                            if subscribed(after, other) {
                                let k = slot_of(after, other);
                                let k0 = if k < i { k } else { k + 1 };
                                assert(after[k] == before[k0]);
                                assert(before[k0].id == other);
                                if other == id {
                                    lemma_slot_of(before, i as int);
                                    lemma_slot_of(before, k0);
                                }
                            }
                            if subscribed(before, other) && other != id {
                                let k0 = slot_of(before, other);
                                let k = if k0 < i { k0 } else { k0 - 1 };
                                assert(after[k] == before[k0]);
                            }
                        }
                        assert forall|other: u64| #[trigger]
                            queues_of(after).contains_key(other) implies queues_of(after)[other]
                            == queues_of(before)[other] by {
                            let k = slot_of(after, other);
                            let k0 = if k < i { k } else { k + 1 };
                            assert(after[k] == before[k0]);
                            lemma_slot_of(before, k0);
                        }
                    }
                    assert forall|k: int| 0 <= k < after.len() implies (#[trigger] after[k]).id
                        < self.issued && after[k].queue@.len() <= self.capacity by {
                        let k0 = if k < i { k } else { k + 1 };
                        assert(after[k] == before[k0]);
                    }
                }
                self.subscribers = subscribers;
            },
        }
    }

    /// Publishes `message` to every live subscriber whose queue has room and
    /// returns the number of live subscribers. A subscriber whose queue is
    /// full misses the message.
    pub fn send(&mut self, message: JobsiteBroadcast) -> (receivers: usize)
        ensures
            final(self)@ == old(self)@.publish(message@),
            receivers == old(self)@.queues.dom().len(),
    {
        proof {
            use_type_invariant(&*self);
            lemma_domain_of(self.subscribers@);
        }
        let ghost before = self.subscribers@;
        let ghost hub = self@;
        let capacity = self.capacity;
        let mut subscribers: Vec<Subscriber> = Vec::new();
        core::mem::swap(&mut self.subscribers, &mut subscribers);
        let mut i: usize = 0;
        while i < subscribers.len()
            invariant
                i <= subscribers.len(),
                subscribers@.len() == before.len(),
                forall|k: int| 0 <= k < before.len() ==> (#[trigger] subscribers@[k]).id == before[k].id,
                forall|k: int|
                    0 <= k < i ==> messages_view((#[trigger] subscribers@[k]).queue@) == deliver(
                        messages_view(before[k].queue@),
                        message@,
                        capacity as nat,
                    ),
                forall|k: int| i <= k < before.len() ==> (#[trigger] subscribers@[k]) == before[k],
                forall|k: int|
                    0 <= k < before.len() ==> (#[trigger] before[k]).queue@.len() <= capacity,
            decreases subscribers.len() - i,
        {
            let ghost current = subscribers@;
            if subscribers[i].queue.len() < capacity {
                let copy = message.clone();
                let subscriber = &mut subscribers[i];
                subscriber.queue.push_back(copy);
                assert(messages_view(subscribers@[i as int].queue@) =~= messages_view(
                    before[i as int].queue@,
                ).push(message@));
            }
            assert forall|k: int| 0 <= k < i implies messages_view(
                (#[trigger] subscribers@[k]).queue@,
            ) == deliver(messages_view(before[k].queue@), message@, capacity as nat) by {
                assert(subscribers@[k] == current[k]);
            }
            i += 1;
        }
        let ghost after = subscribers@;
        proof {
            assert(distinct_ids(after)) by {
                assert forall|a: int, b: int| 0 <= a < b < after.len() implies (
                #[trigger] after[a]).id != (#[trigger] after[b]).id by {
                    assert(before[a].id != before[b].id);
                }
            }
            lemma_queues_of(before);
            lemma_queues_of(after);
            let published = hub.publish(message@).queues;
            assert(queues_of(after) =~= published) by {
                assert forall|id: u64| queues_of(after).contains_key(id) <==> published.contains_key(
                    id,
                ) by {
                    if subscribed(after, id) {
                        let k = slot_of(after, id);
                        assert(before[k].id == id);
                    }
                    if subscribed(before, id) {
                        let k = slot_of(before, id);
                        assert(after[k].id == id);
                    }
                }
                assert forall|id: u64| #[trigger]
                    queues_of(after).contains_key(id) implies queues_of(after)[id]
                    == published[id] by {
                    let k = slot_of(after, id);
                    assert(before[k].id == id);
                    lemma_slot_of(before, k);
                }
            }
            assert forall|k: int| 0 <= k < after.len() implies (#[trigger] after[k]).id
                < self.issued && after[k].queue@.len() <= self.capacity by {
                assert(before[k].id < self.issued);
                assert(messages_view(after[k].queue@).len() == after[k].queue@.len());
                assert(messages_view(before[k].queue@).len() == before[k].queue@.len());
            }
        }
        let receivers = subscribers.len();
        self.subscribers = subscribers;
        receivers
    }

    /// Takes the oldest message that waits for `id`. Returns `None` where
    /// nothing waits or `id` is no subscriber.
    pub fn recv(&mut self, id: u64) -> (message: Option<JobsiteBroadcast>)
        ensures
            final(self)@ == old(self)@.receive(id),
            match message {
                Some(m) => old(self)@.front(id) == Some(m@),
                None => old(self)@.front(id) is None,
            },
    {
        proof {
            use_type_invariant(&*self);
            lemma_queues_of(self.subscribers@);
        }
        let ghost before = self.subscribers@;
        match BroadcastHub::find(&self.subscribers, id) {
            None => None,
            Some(i) => {
                proof {
                    lemma_slot_of(before, i as int);
                    assert(messages_view(before[i as int].queue@).len() == before[i as int].queue@.len());
                }
                if self.subscribers[i].queue.len() == 0 {
                    return None;
                }
                let mut subscribers: Vec<Subscriber> = Vec::new();
                core::mem::swap(&mut self.subscribers, &mut subscribers);
                let subscriber = &mut subscribers[i];
                let message = subscriber.queue.pop_front();
                let ghost after = subscribers@;
                proof {
                    assert(distinct_ids(after)) by {
                        assert forall|a: int, b: int| 0 <= a < b < after.len() implies (
                        #[trigger] after[a]).id != (#[trigger] after[b]).id by {
                            assert(before[a].id != before[b].id);
                            assert(after[a].id == before[a].id);
                            assert(after[b].id == before[b].id);
                        }
                    }
                    lemma_queues_of(after);
                    let old_queue = messages_view(before[i as int].queue@);
                    assert(messages_view(after[i as int].queue@) =~= old_queue.drop_first());
                    assert(queues_of(after) =~= queues_of(before).insert(id, old_queue.drop_first()))
                        by {
                        assert forall|other: u64|
                            queues_of(after).contains_key(other) <==> queues_of(before).insert(
                                id,
                                old_queue.drop_first(),
                            ).contains_key(other) by {
                            if subscribed(after, other) {
                                let k = slot_of(after, other);
                                assert(before[k].id == other);
                            }
                            if subscribed(before, other) {
                                let k = slot_of(before, other);
                                assert(after[k].id == other);
                            }
                            if other == id {
                                assert(after[i as int].id == id);
                            }
                        }
                        assert forall|other: u64| #[trigger]
                            queues_of(after).contains_key(other) implies queues_of(after)[other]
                            == queues_of(before).insert(id, old_queue.drop_first())[other] by {
                            let k = slot_of(after, other);
                            assert(after[k].id == before[k].id);
                            lemma_slot_of(before, k);
                            lemma_slot_of(after, k);
                            if k != i {
                                assert(after[k] == before[k]);
                            }
                        }
                    }
                    assert forall|k: int| 0 <= k < after.len() implies (#[trigger] after[k]).id
                        < self.issued && after[k].queue@.len() <= self.capacity by {
                        assert(after[k].id == before[k].id);
                        if k != i {
                            assert(after[k] == before[k]);
                        }
                    }
                }
                self.subscribers = subscribers;
                message
            },
        }
    }

    /// The number of messages that wait for `id`; 0 where `id` is no subscriber.
    pub fn pending(&self, id: u64) -> (count: usize)
        ensures
            count == if self@.queues.contains_key(id) {
                self@.queues[id].len()
            } else {
                0
            },
    {
        proof {
            use_type_invariant(self);
            lemma_queues_of(self.subscribers@);
        }
        match BroadcastHub::find(&self.subscribers, id) {
            None => 0,
            Some(i) => {
                proof {
                    lemma_slot_of(self.subscribers@, i as int);
                    assert(messages_view(self.subscribers@[i as int].queue@).len()
                        == self.subscribers@[i as int].queue@.len());
                }
                self.subscribers[i].queue.len()
            },
        }
    }
}

/// What the parts of the application share: the hub.
pub struct AppState {
    pub jobsite_tx: BroadcastHub,
}

proof fn lemma_queues_of(subscribers: Seq<Subscriber>)
    requires
        distinct_ids(subscribers),
    ensures
        forall|i: int|
            0 <= i < subscribers.len() ==> queues_of(subscribers).contains_key(
                (#[trigger] subscribers[i]).id,
            ) && queues_of(subscribers)[subscribers[i].id] == messages_view(subscribers[i].queue@),
{
    assert forall|i: int| 0 <= i < subscribers.len() implies queues_of(subscribers).contains_key(
        (#[trigger] subscribers[i]).id,
    ) && queues_of(subscribers)[subscribers[i].id] == messages_view(subscribers[i].queue@) by {
        lemma_slot_of(subscribers, i);
    }
}

proof fn lemma_domain_of(subscribers: Seq<Subscriber>)
    requires
        distinct_ids(subscribers),
    ensures
        queues_of(subscribers).dom().finite(),
        queues_of(subscribers).dom().len() == subscribers.len(),
    decreases subscribers.len(),
{
    if subscribers.len() == 0 {
        assert(queues_of(subscribers).dom() =~= Set::<u64>::empty());
    } else {
        let rest = subscribers.drop_last();
        let last = subscribers.last();
        assert forall|i: int, j: int| 0 <= i < j < rest.len() implies (#[trigger] rest[i]).id != (
        #[trigger] rest[j]).id by {
            assert(rest[i] == subscribers[i] && rest[j] == subscribers[j]);
        }
        lemma_domain_of(rest);
        assert(!subscribed(rest, last.id)) by {
            if subscribed(rest, last.id) {
                let k = slot_of(rest, last.id);
                assert(rest[k] == subscribers[k]);
                assert(subscribers[k].id != subscribers[subscribers.len() - 1].id);
            }
        }
        assert(queues_of(subscribers).dom() =~= queues_of(rest).dom().insert(last.id)) by {
            assert forall|id: u64|
                queues_of(subscribers).dom().contains(id) <==> queues_of(rest).dom().insert(
                    last.id,
                ).contains(id) by {
                if subscribed(subscribers, id) {
                    let k = slot_of(subscribers, id);
                    if k < rest.len() {
                        assert(rest[k].id == id);
                    }
                }
                if subscribed(rest, id) {
                    let k = slot_of(rest, id);
                    assert(subscribers[k].id == id);
                }
                if id == last.id {
                    assert(subscribers[subscribers.len() - 1].id == id);
                }
            }
        }
    }
}

/// Fan-out. A published message reaches every subscriber whose queue has
/// room, as the newest message of its queue; a subscriber whose queue is full
/// misses it; nobody joins or leaves. A subscriber that joins afterwards
/// starts with an empty queue, so the message never reaches it.
pub proof fn lemma_fan_out(hub: HubView, message: JobsiteBroadcastView)
    ensures
        hub.publish(message).queues.dom() == hub.queues.dom(),
        forall|id: u64| #[trigger]
            hub.queues.contains_key(id) && hub.queues[id].len() < hub.capacity ==> hub.publish(
                message,
            ).queues[id] == hub.queues[id].push(message),
        forall|id: u64| #[trigger]
            hub.queues.contains_key(id) && hub.queues[id].len() >= hub.capacity ==> hub.publish(
                message,
            ).queues[id] == hub.queues[id],
        hub.publish(message).subscribe().queues[hub.issued as u64] == Seq::<
            JobsiteBroadcastView,
        >::empty(),
        hub.publish(message).subscribe().front(hub.issued as u64) is None,
{
    assert(hub.publish(message).queues.dom() =~= hub.queues.dom());
}

} // verus!
