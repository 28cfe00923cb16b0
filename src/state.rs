use vstd::prelude::*;

use crate::bus::{bus_capacity, bus_lag, bus_pending, push_bounded, lag_after, Bus, Received, MAX_SUBSCRIBERS};
use crate::envelope::WsEnvelope;

verus! {

broadcast use vstd::std_specs::hash::group_hash_axioms;

/// The topic bus registry: one bus per topic that has at least one subscriber.
pub struct WsState {
    buses: std::collections::HashMap<i32, Bus>,
    capacity: usize,
}

/// Every queue of `q` after `e` is published to it.
pub open spec fn published(q: Map<u64, Seq<WsEnvelope>>, e: WsEnvelope, cap: nat) -> Map<
    u64,
    Seq<WsEnvelope>,
> {
    Map::new(|id: u64| q.contains_key(id), |id: u64| push_bounded(q[id], e, cap))
}

/// Every lag of a bus with queues `q` and lags `l` after one publish.
pub open spec fn lags_published(q: Map<u64, Seq<WsEnvelope>>, l: Map<u64, nat>, cap: nat) -> Map<
    u64,
    nat,
> {
    Map::new(|id: u64| l.contains_key(id), |id: u64| lag_after(q[id], l[id], cap))
}

/// `s1` is `s0` after `e` was published to topic `t`.
pub open spec fn published_to(s0: WsState, s1: WsState, t: i32, e: WsEnvelope) -> bool {
    &&& s1.bus_size() == s0.bus_size()
    &&& s1.has_bus(t) == s0.has_bus(t)
    &&& s1.others(t) == s0.others(t)
    &&& !s0.has_bus(t) ==> s1.topics() == s0.topics()
    &&& s0.has_bus(t) ==> {
        &&& s1.cap(t) == s0.cap(t)
        &&& s1.queues(t) == published(s0.queues(t), e, s0.cap(t))
        &&& s1.lags(t) == lags_published(s0.queues(t), s0.lags(t), s0.cap(t))
    }
}

/// `s1` holds the same buses as `s0`.
pub open spec fn same(s0: WsState, s1: WsState) -> bool {
    s1.topics() == s0.topics() && s1.bus_size() == s0.bus_size()
}

/// `s1` is `s0` after subscriber `id` joined topic `t`.
pub open spec fn subscribed_to(s0: WsState, s1: WsState, t: i32, id: u64) -> bool {
    &&& s1.bus_size() == s0.bus_size()
    &&& s1.has_bus(t)
    &&& s1.others(t) == s0.others(t)
    &&& s1.queues(t) == s0.queues(t).insert(id, Seq::empty())
    &&& s1.lags(t) == s0.lags(t).insert(id, 0)
    &&& s0.has_bus(t) ==> s1.cap(t) == s0.cap(t)
}

/// `s1` is `s0` after subscriber `id` left topic `t`.
pub open spec fn unsubscribed_from(s0: WsState, s1: WsState, t: i32, id: u64) -> bool {
    &&& s1.bus_size() == s0.bus_size()
    &&& s1.others(t) == s0.others(t)
    &&& s1.queues(t) == s0.queues(t).remove(id)
    &&& s1.lags(t) == s0.lags(t).remove(id)
    &&& s1.has_bus(t) ==> s1.cap(t) == s0.cap(t)
    &&& s1.has_bus(t) == (s1.queues(t).dom().len() >= 1)
}

impl WsState {
    /// The bus of each topic.
    pub closed spec fn topics(self) -> Map<i32, Bus> {
        self.buses@
    }

    /// The capacity that new buses are made with.
    pub closed spec fn bus_size(self) -> nat {
        self.capacity as nat
    }

    /// Each bus is well formed and has a subscriber; the capacity suits a new bus.
    pub open spec fn wf(self) -> bool {
        &&& 0 < self.bus_size() <= usize::MAX / 2
        &&& forall|t: i32| #[trigger]
            self.topics().contains_key(t) ==> {
                &&& self.topics()[t].wf()
                &&& bus_pending(self.topics()[t]).dom().len() >= 1
            }
    }

    /// Whether topic `t` has a bus.
    pub open spec fn has_bus(self, t: i32) -> bool {
        self.topics().contains_key(t)
    }

    /// For each subscriber of topic `t`, what it has yet to receive.
    pub open spec fn queues(self, t: i32) -> Map<u64, Seq<WsEnvelope>> {
        if self.has_bus(t) {
            bus_pending(self.topics()[t])
        } else {
            Map::empty()
        }
    }

    /// For each subscriber of topic `t`, how many envelopes it lost and was not yet told of.
    pub open spec fn lags(self, t: i32) -> Map<u64, nat> {
        if self.has_bus(t) {
            bus_lag(self.topics()[t])
        } else {
            Map::empty()
        }
    }

    /// The capacity of topic `t`'s bus.
    pub open spec fn cap(self, t: i32) -> nat {
        bus_capacity(self.topics()[t])
    }

    /// The subscribers of topic `t`.
    pub open spec fn subscribers(self, t: i32) -> Set<u64> {
        self.queues(t).dom()
    }

    /// How many subscribers topic `t` has.
    pub open spec fn subscriber_count(self, t: i32) -> nat {
        self.subscribers(t).len()
    }

    /// The buses of every topic but `t`.
    pub open spec fn others(self, t: i32) -> Map<i32, Bus> {
        self.topics().remove(t)
    }

    /// A registry without topics, whose buses will hold `capacity` envelopes per subscriber.
    pub fn new(capacity: usize) -> (r: WsState)
        requires
            0 < capacity <= usize::MAX / 2,
        ensures
            r.wf(),
            r.bus_size() == capacity,
            forall|t: i32| !r.has_bus(t),
    {
        WsState { buses: std::collections::HashMap::new(), capacity }
    }

    /// Whether topic `t` has a bus.
    pub fn contains_topic(&self, t: i32) -> (r: bool)
        ensures
            r == self.has_bus(t),
    {
        self.buses.contains_key(&t)
    }

    /// How many subscribers topic `t` has.
    pub fn topic_subscribers(&self, t: i32) -> (r: usize)
        requires
            self.wf(),
        ensures
            r == self.subscriber_count(t),
    {
        match self.buses.get(&t) {
            Some(b) => b.subscriber_count(),
            None => 0,
        }
    }

    /// Subscribes `id` to topic `t`, making the topic's bus if it has none.
    /// Refused only when the bus already holds as many receivers as it can.
    pub fn subscribe(&mut self, t: i32, id: u64) -> (r: bool)
        requires
            old(self).wf(),
        ensures
            final(self).wf(),
            r == (old(self).subscriber_count(t) < MAX_SUBSCRIBERS),
            r ==> subscribed_to(*old(self), *final(self), t, id),
            r && !old(self).has_bus(t) ==> final(self).cap(t) >= old(self).bus_size(),
            !r ==> same(*old(self), *final(self)),
    {
        let ghost before = *self;
        let existing = self.buses.remove(&t);
        let mut b = match existing {
            Some(b) => {
                if b.subscriber_count() >= MAX_SUBSCRIBERS {
                    self.buses.insert(t, b);
                    proof {
                        assert(self.buses@ =~= before.buses@);
                        assert(self.topics() == before.topics());
                        assert(self.bus_size() == before.bus_size());
                    }
                    return false;
                }
                b
            },
            None => Bus::new(self.capacity),
        };
        b.subscribe(id);
        self.buses.insert(t, b);
        proof {
            assert(self.buses@.remove(t) =~= before.buses@.remove(t));
            assert(bus_pending(b).dom() == before.queues(t).dom().insert(id));
            assert forall|u: i32| #[trigger] self.buses@.contains_key(u) implies {
                &&& self.buses@[u].wf()
                &&& bus_pending(self.buses@[u]).dom().len() >= 1
            } by {
                if u != t {
                    assert(before.buses@.contains_key(u));
                } else {
                    assert(bus_pending(b).dom().contains(id));
                }
            }
            assert(self.queues(t) =~= before.queues(t).insert(id, Seq::empty()));
            assert(self.lags(t) =~= before.lags(t).insert(id, 0));
        }
        true
    }

    /// Unsubscribes `id` from topic `t`; the topic's bus goes with its last subscriber.
    pub fn unsubscribe(&mut self, t: i32, id: u64)
        requires
            old(self).wf(),
        ensures
            final(self).wf(),
            unsubscribed_from(*old(self), *final(self), t, id),
    {
        let ghost before = *self;
        match self.buses.remove(&t) {
            None => {
                proof {
                    assert(self.buses@ =~= before.buses@);
                    assert(self.queues(t) =~= before.queues(t).remove(id));
                    assert(self.lags(t) =~= before.lags(t).remove(id));
                }
            },
            Some(mut b) => {
                let ghost b0 = b;
                proof {
                    assert(before.topics().contains_key(t));
                }
                b.unsubscribe(id);
                if b.subscriber_count() > 0 {
                    self.buses.insert(t, b);
                } else {
                    proof {
                        assert(bus_pending(b0).dom().finite());
                        assert(bus_pending(b).dom() == bus_pending(b0).dom().remove(id));
                        bus_pending(b).dom().lemma_len0_is_empty();
                        assert(bus_pending(b) =~= Map::empty());
                        assert(bus_lag(b).dom() =~= Set::empty());
                        assert(bus_lag(b) =~= Map::empty());
                    }
                }
                proof {
                    assert(self.buses@.remove(t) =~= before.buses@.remove(t));
                    assert(self.queues(t) =~= before.queues(t).remove(id));
                    assert(self.lags(t) =~= before.lags(t).remove(id));
                }
            },
        }
    }

    /// Publishes `e` to every subscriber of topic `t`; with no bus for `t`, nothing happens.
    pub fn broadcast(&mut self, t: i32, e: WsEnvelope)
        requires
            old(self).wf(),
        ensures
            final(self).wf(),
            published_to(*old(self), *final(self), t, e),
    {
        let ghost before = *self;
        match self.buses.remove(&t) {
            None => {
                proof {
                    assert(self.buses@ =~= before.buses@);
                    assert(self.topics() == before.topics());
                }
            },
            Some(mut b) => {
                let ghost b0 = b;
                proof {
                    assert(before.topics().contains_key(t));
                }
                b.publish(e);
                self.buses.insert(t, b);
                proof {
                    assert(self.buses@.remove(t) =~= before.buses@.remove(t));
                    assert(bus_pending(b) =~= published(bus_pending(b0), e, bus_capacity(b0)));
                    assert(bus_lag(b) =~= lags_published(bus_pending(b0), bus_lag(b0), bus_capacity(b0)));
                    assert forall|u: i32| #[trigger] self.buses@.contains_key(u) implies {
                        &&& self.buses@[u].wf()
                        &&& bus_pending(self.buses@[u]).dom().len() >= 1
                    } by {
                        if u != t {
                            assert(before.topics().contains_key(u));
                        }
                    }
                }
            },
        }
    }

    /// Takes the next thing that subscriber `id` of topic `t` has to receive.
    pub fn try_recv(&mut self, t: i32, id: u64) -> (r: Received)
        requires
            old(self).wf(),
            old(self).subscribers(t).contains(id),
        ensures
            final(self).wf(),
            final(self).bus_size() == old(self).bus_size(),
            final(self).has_bus(t),
            final(self).cap(t) == old(self).cap(t),
            final(self).others(t) == old(self).others(t),
            ({
                let q = old(self).queues(t)[id];
                let lag = old(self).lags(t)[id];
                if lag > 0 {
                    &&& r == Received::Lagged(lag as u64)
                    &&& final(self).queues(t) == old(self).queues(t)
                    &&& final(self).lags(t) == old(self).lags(t).insert(id, 0)
                } else if q.len() == 0 {
                    &&& r == Received::Empty
                    &&& final(self).queues(t) == old(self).queues(t)
                    &&& final(self).lags(t) == old(self).lags(t)
                } else {
                    &&& r == Received::Envelope(q[0])
                    &&& final(self).queues(t) == old(self).queues(t).insert(id, q.drop_first())
                    &&& final(self).lags(t) == old(self).lags(t)
                }
            }),
    {
        let ghost before = *self;
        let mut b = self.buses.remove(&t).unwrap();
        let ghost b0 = b;
        proof {
            assert(before.topics().contains_key(t));
        }
        let r = b.try_recv(id);
        self.buses.insert(t, b);
        proof {
            assert(bus_pending(b).dom() =~= bus_pending(b0).dom());
            assert(bus_lag(b).dom() =~= bus_lag(b0).dom());
            assert(self.buses@.remove(t) =~= before.buses@.remove(t));
            assert forall|u: i32| #[trigger] self.buses@.contains_key(u) implies {
                &&& self.buses@[u].wf()
                &&& bus_pending(self.buses@[u]).dom().len() >= 1
            } by {
                if u != t {
                    assert(before.topics().contains_key(u));
                }
            }
        }
        r
    }
}

} // verus!
