//! The event bus: a broadcast log that every subscriber reads in full, once
//! and in the order of publication.
//!
//! The bus keeps one log of everything that was published and, for each
//! subscriber, how far it has read. What a subscriber has yet to receive is
//! the rest of the log, so all subscribers observe the same events in the
//! same order by construction. Moving events between threads is left to the
//! caller.

use crate::formats::{event_views, Event, EventView};
use vstd::prelude::*;

verus! {

/// One participant of the bus.
#[derive(Debug, PartialEq, Eq)]
pub struct Subscriber {
    /// How many events of the log the subscriber has received.
    cursor: usize,
    /// What the subscriber has sent and the bus has not yet broadcast.
    outbound: Vec<Event>,
    connected: bool,
}

pub struct SubscriberView {
    pub cursor: nat,
    pub outbound: Seq<EventView>,
    pub connected: bool,
}

impl View for Subscriber {
    type V = SubscriberView;

    closed spec fn view(&self) -> SubscriberView {
        SubscriberView {
            cursor: self.cursor as nat,
            outbound: event_views(self.outbound@),
            connected: self.connected,
        }
    }
}

impl SubscriberView {
    /// A subscriber that has just joined.
    pub open spec fn joined() -> SubscriberView {
        SubscriberView { cursor: 0, outbound: Seq::empty(), connected: true }
    }
}

impl Subscriber {
    fn new() -> (subscriber: Subscriber)
        ensures
            subscriber@ == SubscriberView::joined(),
    {
        let subscriber = Subscriber { cursor: 0, outbound: Vec::new(), connected: true };
        assert(event_views(subscriber.outbound@) =~= Seq::<EventView>::empty());
        subscriber
    }

    fn enqueue(&mut self, event: Event)
        ensures
            final(self)@ == (SubscriberView {
                outbound: old(self)@.outbound.push(event@),
                ..old(self)@
            }),
    {
        self.outbound.push(event);
        assert(event_views(self.outbound@) =~= event_views(old(self).outbound@).push(event@));
    }

    /// Hands over what the subscriber has sent.
    fn drain(&mut self) -> (sent: Vec<Event>)
        ensures
            event_views(sent@) == old(self)@.outbound,
            final(self)@ == (SubscriberView { outbound: Seq::empty(), ..old(self)@ }),
    {
        let mut sent: Vec<Event> = Vec::new();
        core::mem::swap(&mut sent, &mut self.outbound);
        assert(event_views(self.outbound@) =~= Seq::<EventView>::empty());
        sent
    }

    fn advance(&mut self, cursor: usize)
        ensures
            final(self)@ == (SubscriberView { cursor: cursor as nat, ..old(self)@ }),
    {
        self.cursor = cursor;
    }

    fn hang_up(&mut self)
        ensures
            final(self)@ == (SubscriberView { connected: false, ..old(self)@ }),
    {
        self.connected = false;
    }

    fn cursor(&self) -> (cursor: usize)
        ensures
            cursor == self@.cursor,
    {
        self.cursor
    }

    fn is_connected(&self) -> (b: bool)
        ensures
            b == self@.connected,
    {
        self.connected
    }

    fn has_sent(&self) -> (b: bool)
        ensures
            b == (self@.outbound.len() > 0),
    {
        self.outbound.len() > 0
    }
}

/// The broadcast bus.
#[derive(Debug, PartialEq, Eq)]
pub struct Bus {
    log: Vec<Event>,
    subscribers: Vec<Subscriber>,
    started: bool,
    /// The subscriber whose departure ends the bus.
    scheduler: Option<usize>,
}

pub struct BusView {
    /// Everything that was broadcast, in order.
    pub log: Seq<EventView>,
    pub subscribers: Seq<SubscriberView>,
    /// Whether the bus has begun to run. Nobody can subscribe afterwards.
    pub started: bool,
    /// The number of the subscriber that is the scheduler, if it has joined.
    pub scheduler: Option<usize>,
}

impl BusView {
    /// No subscriber has read past the end of the log.
    pub open spec fn wf(self) -> bool {
        forall|i: int|
            0 <= i < self.subscribers.len() ==> (#[trigger] self.subscribers[i]).cursor
                <= self.log.len()
    }

    /// What the subscriber has received so far.
    pub open spec fn received(self, id: int) -> Seq<EventView> {
        self.log.take(self.subscribers[id].cursor as int)
    }

    /// What the subscriber has yet to receive.
    pub open spec fn pending(self, id: int) -> Seq<EventView> {
        self.log.skip(self.subscribers[id].cursor as int)
    }

    /// What the subscribers have sent and the bus has not yet broadcast,
    /// subscriber by subscriber.
    pub open spec fn outbound(self) -> Seq<Seq<EventView>> {
        self.subscribers.map_values(|s: SubscriberView| s.outbound)
    }

    /// Nothing is waiting to be broadcast.
    pub open spec fn is_drained(self) -> bool {
        forall|i: int|
            0 <= i < self.subscribers.len() ==> (#[trigger] self.subscribers[i]).outbound.len() == 0
    }

    /// Every subscriber has disconnected.
    pub open spec fn is_deserted(self) -> bool {
        forall|i: int|
            0 <= i < self.subscribers.len() ==> !(#[trigger] self.subscribers[i]).connected
    }

    /// The scheduler has joined and has disconnected since.
    pub open spec fn scheduler_left(self) -> bool {
        self.scheduler matches Some(s) && s < self.subscribers.len()
            && !self.subscribers[s as int].connected
    }

    /// The bus is done when nothing is waiting to be broadcast and either
    /// the shutdown request has been broadcast and every subscriber has
    /// disconnected, or the scheduler has disconnected.
    pub open spec fn is_finished(self) -> bool {
        &&& self.is_drained()
        &&& self.log.contains(EventView::ShutdownRequested) && self.is_deserted()
            || self.scheduler_left()
    }

    /// The bus after its subscriber `id` has sent `event`.
    pub open spec fn sent(self, id: int, event: EventView) -> BusView {
        BusView {
            subscribers: self.subscribers.update(
                id,
                SubscriberView {
                    outbound: self.subscribers[id].outbound.push(event),
                    ..self.subscribers[id]
                },
            ),
            ..self
        }
    }

    /// The bus after it has broadcast everything that was sent, subscriber
    /// by subscriber.
    pub open spec fn ran(self) -> BusView {
        BusView {
            log: self.log + self.outbound().flatten(),
            subscribers: self.subscribers.map_values(
                |s: SubscriberView| SubscriberView { outbound: Seq::empty(), ..s },
            ),
            started: true,
            ..self
        }
    }

    /// The bus after its subscriber `id` has received all that was pending.
    pub open spec fn caught_up(self, id: int) -> BusView {
        BusView {
            subscribers: self.subscribers.update(
                id,
                SubscriberView { cursor: self.log.len(), ..self.subscribers[id] },
            ),
            ..self
        }
    }

    /// The bus after its subscriber `id` has disconnected.
    pub open spec fn disconnected(self, id: int) -> BusView {
        BusView {
            subscribers: self.subscribers.update(
                id,
                SubscriberView { connected: false, ..self.subscribers[id] },
            ),
            ..self
        }
    }
}

impl View for Bus {
    type V = BusView;

    closed spec fn view(&self) -> BusView {
        BusView {
            log: event_views(self.log@),
            subscribers: self.subscribers@.map_values(|s: Subscriber| s@),
            started: self.started,
            scheduler: self.scheduler,
        }
    }
}

impl Bus {
    /// Every bus upholds the invariant of its view.
    #[verifier::type_invariant]
    closed spec fn inv(&self) -> bool {
        self@.wf()
    }

    /// Whether no subscriber has read past the end of the log.
    pub open spec fn wf(&self) -> bool {
        self@.wf()
    }

    /// Tells the caller that this bus upholds its invariant, as every one
    /// does. Nothing happens at run time.
    pub fn upholds_invariant(&self)
        ensures
            self.wf(),
    {
        proof {
            use_type_invariant(self);
        }
    }

    /// A bus without subscribers that has broadcast nothing.
    pub fn new() -> (bus: Bus)
        ensures
            bus@ == (BusView {
                log: Seq::empty(),
                subscribers: Seq::empty(),
                started: false,
                scheduler: None,
            }),
            bus.wf(),
    {
        let log: Vec<Event> = Vec::new();
        let subscribers: Vec<Subscriber> = Vec::new();
        assert(event_views(log@) =~= Seq::<EventView>::empty());
        assert(subscribers@.map_values(|s: Subscriber| s@) =~= Seq::<SubscriberView>::empty());
        Bus { log, subscribers, started: false, scheduler: None }
    }

    /// Adds a subscriber and returns its number. Subscribers are numbered in
    /// the order in which they join. Once the bus has run nobody can join.
    pub fn add_subscriber(&mut self) -> (id: Option<usize>)
        ensures
            match id {
                Some(n) => {
                    &&& !old(self)@.started
                    &&& n == old(self)@.subscribers.len()
                    &&& final(self)@ == (BusView {
                        subscribers: old(self)@.subscribers.push(SubscriberView::joined()),
                        ..old(self)@
                    })
                },
                None => old(self)@.started && final(self)@ == old(self)@,
            },
            final(self).wf(),
    {
        proof {
            use_type_invariant(&*self);
        }
        if self.started {
            return None;
        }
        let id = self.subscribers.len();
        let mut subscribers: Vec<Subscriber> = Vec::new();
        core::mem::swap(&mut subscribers, &mut self.subscribers);
        subscribers.push(Subscriber::new());
        proof {
            assert(subscribers@.map_values(|s: Subscriber| s@) =~= old(self)@.subscribers.push(
                SubscriberView::joined(),
            ));
        }
        self.subscribers = subscribers;
        Some(id)
    }

    /// Adds the scheduler as a subscriber and returns its number. The bus
    /// ends when the scheduler disconnects. Nothing is added once the bus has
    /// run, nor when a scheduler has joined already.
    pub fn add_scheduler(&mut self) -> (id: Option<usize>)
        ensures
            match id {
                Some(n) => {
                    &&& !old(self)@.started
                    &&& old(self)@.scheduler is None
                    &&& n == old(self)@.subscribers.len()
                    &&& final(self)@ == (BusView {
                        subscribers: old(self)@.subscribers.push(SubscriberView::joined()),
                        scheduler: Some(n),
                        ..old(self)@
                    })
                },
                None => (old(self)@.started || old(self)@.scheduler is Some) && final(self)@
                    == old(self)@,
            },
            final(self).wf(),
    {
        proof {
            use_type_invariant(&*self);
        }
        if self.scheduler.is_some() {
            return None;
        }
        match self.add_subscriber() {
            Some(id) => {
                self.scheduler = Some(id);
                Some(id)
            },
            None => None,
        }
    }

    /// The number of subscribers.
    pub fn subscriber_count(&self) -> (n: usize)
        ensures
            n == self@.subscribers.len(),
    {
        self.subscribers.len()
    }

    /// Broadcasts an event: it becomes pending for every subscriber.
    pub fn publish(&mut self, event: Event)
        ensures
            final(self)@ == (BusView { log: old(self)@.log.push(event@), ..old(self)@ }),
            final(self).wf(),
    {
        proof {
            use_type_invariant(&*self);
        }
        let mut subscribers: Vec<Subscriber> = Vec::new();
        core::mem::swap(&mut subscribers, &mut self.subscribers);
        let mut log: Vec<Event> = Vec::new();
        core::mem::swap(&mut log, &mut self.log);
        log.push(event);
        proof {
            assert(event_views(log@) =~= old(self)@.log.push(event@));
            assert forall|j: int| 0 <= j < subscribers.len() implies (#[trigger] old(
                self,
            )@.subscribers[j]).cursor <= log.len() by {}
        }
        self.log = log;
        self.subscribers = subscribers;
    }

    /// Takes an event from a subscriber for a later broadcast. Returns
    /// whether the event was taken: it is not when nobody has that number or
    /// the subscriber has disconnected.
    pub fn send(&mut self, id: usize, event: Event) -> (taken: bool)
        ensures
            taken == (id < old(self)@.subscribers.len() && old(self)@.subscribers[id as int].connected),
            final(self)@ == (if taken {
                old(self)@.sent(id as int, event@)
            } else {
                old(self)@
            }),
            final(self).wf(),
    {
        proof {
            use_type_invariant(&*self);
        }
        if id < self.subscribers.len() && self.subscribers[id].is_connected() {
            let mut subscribers: Vec<Subscriber> = Vec::new();
            core::mem::swap(&mut subscribers, &mut self.subscribers);
            subscribers[id].enqueue(event);
            proof {
                assert(subscribers@.map_values(|s: Subscriber| s@) =~= old(self)@.sent(
                    id as int,
                    event@,
                ).subscribers);
            }
            self.subscribers = subscribers;
            true
        } else {
            false
        }
    }

    /// Broadcasts everything that the subscribers have sent, subscriber by
    /// subscriber and each one's events in the order in which it sent them.
    /// Returns whether the bus is done.
    pub fn run(&mut self) -> (finished: bool)
        ensures
            final(self)@ == old(self)@.ran(),
            finished == final(self)@.is_finished(),
            final(self).wf(),
    {
        proof {
            use_type_invariant(&*self);
        }
        let ghost before = self@;
        let ghost sent = before.outbound();
        let mut subscribers: Vec<Subscriber> = Vec::new();
        core::mem::swap(&mut subscribers, &mut self.subscribers);
        let mut log: Vec<Event> = Vec::new();
        core::mem::swap(&mut log, &mut self.log);
        let mut i: usize = 0;
        while i < subscribers.len()
            invariant
                i <= subscribers.len(),
                subscribers.len() == before.subscribers.len(),
                sent == before.outbound(),
                before.wf(),
                event_views(log@) == before.log + sent.take(i as int).flatten(),
                forall|j: int|
                    0 <= j < i ==> (#[trigger] subscribers[j])@ == (SubscriberView {
                        outbound: Seq::empty(),
                        ..before.subscribers[j]
                    }),
                forall|j: int|
                    i <= j < subscribers.len() ==> (#[trigger] subscribers[j])@
                        == before.subscribers[j],
            decreases subscribers.len() - i,
        {
            let ghost so_far = event_views(log@);
            let mut moved = subscribers[i].drain();
            proof {
                assert(sent.take(i + 1) =~= sent.take(i as int).push(sent[i as int]));
                sent.take(i as int).lemma_flatten_push(sent[i as int]);
                crate::runtime::lemma_event_views_add(log@, moved@);
            }
            log.append(&mut moved);
            proof {
                assert(event_views(log@) =~= so_far + sent[i as int]);
                assert(so_far + sent[i as int] =~= before.log + (sent.take(i as int).flatten()
                    + sent[i as int]));
            }
            i += 1;
        }
        proof {
            assert(sent.take(i as int) =~= sent);
            assert(subscribers@.map_values(|s: Subscriber| s@) =~= before.ran().subscribers);
            assert forall|j: int| 0 <= j < before.ran().subscribers.len() implies (
            #[trigger] before.ran().subscribers[j]).cursor <= before.ran().log.len() by {
                assert(before.subscribers[j].cursor <= before.log.len());
            }
        }
        self.log = log;
        self.subscribers = subscribers;
        self.started = true;
        self.is_finished()
    }

    /// Hands a subscriber everything that was broadcast since it last
    /// received, in order. Nothing is handed to a number that nobody has.
    pub fn receive(&mut self, id: usize) -> (events: Vec<Event>)
        ensures
            id < old(self)@.subscribers.len() ==> {
                &&& event_views(events@) == old(self)@.pending(id as int)
                &&& final(self)@ == old(self)@.caught_up(id as int)
            },
            id >= old(self)@.subscribers.len() ==> events@.len() == 0 && final(self)@ == old(
                self,
            )@,
            final(self).wf(),
    {
        proof {
            use_type_invariant(&*self);
        }
        let mut events: Vec<Event> = Vec::new();
        if id >= self.subscribers.len() {
            return events;
        }
        let start = self.subscribers[id].cursor();
        assert(old(self)@.subscribers[id as int].cursor <= old(self)@.log.len());
        let mut i: usize = start;
        assert(event_views(events@) =~= self@.log.subrange(start as int, i as int));
        while i < self.log.len()
            invariant
                start <= i <= self.log.len(),
                event_views(events@) == self@.log.subrange(start as int, i as int),
            decreases self.log.len() - i,
        {
            let ghost got = event_views(events@);
            events.push(self.log[i].clone());
            proof {
                assert(event_views(events@) =~= got.push(self@.log[i as int]));
                assert(self@.log.subrange(start as int, i + 1) =~= self@.log.subrange(
                    start as int,
                    i as int,
                ).push(self@.log[i as int]));
            }
            i += 1;
        }
        let mut subscribers: Vec<Subscriber> = Vec::new();
        core::mem::swap(&mut subscribers, &mut self.subscribers);
        subscribers[id].advance(i);
        proof {
            assert(old(self)@.log.subrange(start as int, i as int) =~= old(self)@.pending(id as int));
            assert(subscribers@.map_values(|s: Subscriber| s@) =~= old(self)@.caught_up(
                id as int,
            ).subscribers);
            assert forall|j: int| 0 <= j < subscribers.len() implies (#[trigger] old(
                self,
            )@.caught_up(id as int).subscribers[j]).cursor <= old(self)@.log.len() by {
                assert(old(self)@.subscribers[j].cursor <= old(self)@.log.len());
            }
        }
        self.subscribers = subscribers;
        events
    }

    /// Disconnects a subscriber. It can still receive what is pending, and
    /// what it has sent is still broadcast, but it can send no more.
    pub fn disconnect(&mut self, id: usize)
        ensures
            final(self)@ == (if id < old(self)@.subscribers.len() {
                old(self)@.disconnected(id as int)
            } else {
                old(self)@
            }),
            final(self).wf(),
    {
        proof {
            use_type_invariant(&*self);
        }
        if id < self.subscribers.len() {
            let mut subscribers: Vec<Subscriber> = Vec::new();
            core::mem::swap(&mut subscribers, &mut self.subscribers);
            subscribers[id].hang_up();
            proof {
                assert(subscribers@.map_values(|s: Subscriber| s@) =~= old(self)@.disconnected(
                    id as int,
                ).subscribers);
                assert forall|j: int| 0 <= j < subscribers.len() implies (#[trigger] old(
                    self,
                )@.disconnected(id as int).subscribers[j]).cursor <= old(self)@.log.len() by {
                    assert(old(self)@.subscribers[j].cursor <= old(self)@.log.len());
                }
            }
            self.subscribers = subscribers;
        }
    }

    /// Whether the shutdown request has been broadcast.
    pub fn shutdown_broadcast(&self) -> (b: bool)
        ensures
            b == self@.log.contains(EventView::ShutdownRequested),
    {
        let mut i: usize = 0;
        while i < self.log.len()
            invariant
                i <= self.log.len(),
                forall|j: int| 0 <= j < i ==> self@.log[j] != EventView::ShutdownRequested,
            decreases self.log.len() - i,
        {
            assert(self@.log[i as int] == self.log[i as int]@);
            if let Event::ShutdownRequested = &self.log[i] {
                return true;
            }
            i += 1;
        }
        false
    }

    /// Whether nothing is waiting to be broadcast.
    pub fn is_drained(&self) -> (b: bool)
        ensures
            b == self@.is_drained(),
    {
        let mut i: usize = 0;
        while i < self.subscribers.len()
            invariant
                i <= self.subscribers.len(),
                forall|j: int| 0 <= j < i ==> (#[trigger] self@.subscribers[j]).outbound.len() == 0,
            decreases self.subscribers.len() - i,
        {
            assert(self@.subscribers[i as int] == self.subscribers[i as int]@);
            if self.subscribers[i].has_sent() {
                return false;
            }
            i += 1;
        }
        true
    }

    /// Whether every subscriber has disconnected.
    pub fn is_deserted(&self) -> (b: bool)
        ensures
            b == self@.is_deserted(),
    {
        let mut i: usize = 0;
        while i < self.subscribers.len()
            invariant
                i <= self.subscribers.len(),
                forall|j: int| 0 <= j < i ==> !(#[trigger] self@.subscribers[j]).connected,
            decreases self.subscribers.len() - i,
        {
            assert(self@.subscribers[i as int] == self.subscribers[i as int]@);
            if self.subscribers[i].is_connected() {
                return false;
            }
            i += 1;
        }
        true
    }

    /// Whether the scheduler has joined and has disconnected since.
    pub fn scheduler_left(&self) -> (b: bool)
        ensures
            b == self@.scheduler_left(),
    {
        match self.scheduler {
            Some(s) => {
                if s < self.subscribers.len() {
                    assert(self@.subscribers[s as int] == self.subscribers[s as int]@);
                    !self.subscribers[s].is_connected()
                } else {
                    false
                }
            },
            None => false,
        }
    }

    /// Whether the bus is done.
    pub fn is_finished(&self) -> (b: bool)
        ensures
            b == self@.is_finished(),
    {
        self.is_drained() && (self.shutdown_broadcast() && self.is_deserted()
            || self.scheduler_left())
    }
}

/// What a subscriber has received and what it has yet to receive make up the
/// whole log: every subscriber is handed every event exactly once, in the
/// order of publication.
pub proof fn law_every_event_once_in_order(bus: BusView, id: int)
    requires
        bus.wf(),
        0 <= id < bus.subscribers.len(),
    ensures
        bus.received(id) + bus.pending(id) == bus.log,
{
    assert(bus.received(id) + bus.pending(id) =~= bus.log);
}

/// Of what any two subscribers have received, one is the beginning of the
/// other: they observe the same events in the same order.
pub proof fn law_total_order(bus: BusView, a: int, b: int)
    requires
        bus.wf(),
        0 <= a < bus.subscribers.len(),
        0 <= b < bus.subscribers.len(),
    ensures
        bus.received(a).is_prefix_of(bus.received(b)) || bus.received(b).is_prefix_of(
            bus.received(a),
        ),
{
    let ra = bus.received(a);
    let rb = bus.received(b);
    if bus.subscribers[a].cursor <= bus.subscribers[b].cursor {
        assert(ra =~= rb.subrange(0, ra.len() as int));
    } else {
        assert(rb =~= ra.subrange(0, rb.len() as int));
    }
}

} // verus!
