use vstd::prelude::*;

use crate::envelope::WsEnvelope;

verus! {

/// The most receivers that one tokio broadcast channel takes before it panics.
pub const MAX_SUBSCRIBERS: usize = usize::MAX / 4;

/// One topic's publish/subscribe channel: a tokio broadcast channel whose sender
/// and whose subscribers' receivers are kept together, keyed by subscriber id.
///
/// tokio's sender and receivers share their ring behind an `Arc`, so a send
/// changes what every receiver yields; holding them in one value lets each
/// operation below state its effect on every subscriber.
#[verifier::external_body]
pub struct Bus {
    tx: tokio::sync::broadcast::Sender<WsEnvelope>,
    rxs: std::collections::HashMap<u64, tokio::sync::broadcast::Receiver<WsEnvelope>>,
}

/// For each subscriber of a bus, the envelopes that it has yet to receive,
/// oldest first (at most the bus's capacity of them).
pub uninterp spec fn bus_pending(b: Bus) -> Map<u64, Seq<WsEnvelope>>;

/// For each subscriber of a bus, how many envelopes were overwritten before it
/// read them and not yet reported to it.
pub uninterp spec fn bus_lag(b: Bus) -> Map<u64, nat>;

/// How many envelopes a bus holds for a subscriber before overwriting the oldest.
pub uninterp spec fn bus_capacity(b: Bus) -> nat;

/// What one receive on a bus yields.
#[derive(Clone, Debug, PartialEq, Eq)]
pub enum Received {
    Envelope(WsEnvelope),
    /// This many envelopes were lost to overwriting; the next receive resumes at the oldest kept.
    Lagged(u64),
    Empty,
}

/// A subscriber's queue after one publish: `e` is appended, and the oldest
/// envelope is dropped when the queue was already full.
pub open spec fn push_bounded(q: Seq<WsEnvelope>, e: WsEnvelope, cap: nat) -> Seq<WsEnvelope> {
    if q.len() < cap {
        q.push(e)
    } else {
        q.drop_first().push(e)
    }
}

/// A subscriber's lag after one publish.
pub open spec fn lag_after(q: Seq<WsEnvelope>, lag: nat, cap: nat) -> nat {
    if q.len() < cap {
        lag
    } else {
        lag + 1
    }
}

impl Bus {
    /// The abstract state of the bus is well formed: one lag per subscriber,
    /// a finite subscriber set and a capacity of at least one.
    pub open spec fn wf(self) -> bool {
        &&& bus_pending(self).dom() == bus_lag(self).dom()
        &&& bus_pending(self).dom().finite()
        &&& bus_capacity(self) >= 1
    }

    /// The set of subscriber ids.
    pub open spec fn subscribers(self) -> Set<u64> {
        bus_pending(self).dom()
    }

    /// Relies on tokio::sync::broadcast::channel: a channel with room for at
    /// least `capacity` values and, once its first receiver is dropped, no receiver.
    #[verifier::external_body]
    pub(crate) fn new(capacity: usize) -> (r: Bus)
        requires
            0 < capacity <= usize::MAX / 2,
        ensures
            bus_pending(r).dom() == Set::<u64>::empty(),
            bus_lag(r).dom() == Set::<u64>::empty(),
            bus_capacity(r) >= capacity,
    {
        let (tx, _) = tokio::sync::broadcast::channel(capacity);
        Bus { tx, rxs: std::collections::HashMap::new() }
    }

    /// Relies on HashMap::len: the number of receivers held.
    #[verifier::external_body]
    pub(crate) fn subscriber_count(&self) -> (r: usize)
        ensures
            r == bus_pending(*self).dom().len(),
    {
        self.rxs.len()
    }

    /// Relies on tokio::sync::broadcast::Sender::subscribe: a new receiver sees
    /// only what is sent after it was made.
    #[verifier::external_body]
    pub(crate) fn subscribe(&mut self, id: u64)
        requires
            bus_pending(*old(self)).dom().len() < MAX_SUBSCRIBERS,
        ensures
            bus_pending(*final(self)) == bus_pending(*old(self)).insert(id, Seq::empty()),
            bus_lag(*final(self)) == bus_lag(*old(self)).insert(id, 0),
            bus_capacity(*final(self)) == bus_capacity(*old(self)),
    {
        let rx = self.tx.subscribe();
        self.rxs.insert(id, rx);
    }

    /// Relies on dropping a tokio::sync::broadcast::Receiver: the other
    /// receivers are not affected.
    #[verifier::external_body]
    pub(crate) fn unsubscribe(&mut self, id: u64)
        ensures
            bus_pending(*final(self)) == bus_pending(*old(self)).remove(id),
            bus_lag(*final(self)) == bus_lag(*old(self)).remove(id),
            bus_capacity(*final(self)) == bus_capacity(*old(self)),
    {
        self.rxs.remove(&id);
    }

    /// Relies on tokio::sync::broadcast::Sender::send: every receiver gets the
    /// value; when a receiver's backlog is full its oldest value is overwritten;
    /// with no receiver the value is dropped.
    #[verifier::external_body]
    pub(crate) fn publish(&mut self, e: WsEnvelope)
        ensures
            bus_pending(*final(self)).dom() == bus_pending(*old(self)).dom(),
            bus_lag(*final(self)).dom() == bus_lag(*old(self)).dom(),
            bus_capacity(*final(self)) == bus_capacity(*old(self)),
            forall|id: u64| #[trigger]
                bus_pending(*old(self)).contains_key(id) ==> bus_pending(*final(self))[id]
                    == push_bounded(bus_pending(*old(self))[id], e, bus_capacity(*old(self))),
            forall|id: u64| #[trigger]
                bus_lag(*old(self)).contains_key(id) ==> bus_lag(*final(self))[id] == lag_after(
                    bus_pending(*old(self))[id],
                    bus_lag(*old(self))[id],
                    bus_capacity(*old(self)),
                ),
    {
        let _ = self.tx.send(e);
    }

    /// Relies on tokio::sync::broadcast::Receiver::try_recv: a lag is reported
    /// first, on its own; else the oldest pending value is taken; else it is empty.
    #[verifier::external_body]
    pub(crate) fn try_recv(&mut self, id: u64) -> (r: Received)
        requires
            bus_pending(*old(self)).contains_key(id),
            bus_lag(*old(self)).contains_key(id),
        ensures
            bus_capacity(*final(self)) == bus_capacity(*old(self)),
            ({
                let q = bus_pending(*old(self))[id];
                let lag = bus_lag(*old(self))[id];
                if lag > 0 {
                    &&& r == Received::Lagged(lag as u64)
                    &&& bus_pending(*final(self)) == bus_pending(*old(self))
                    &&& bus_lag(*final(self)) == bus_lag(*old(self)).insert(id, 0)
                } else if q.len() == 0 {
                    &&& r == Received::Empty
                    &&& bus_pending(*final(self)) == bus_pending(*old(self))
                    &&& bus_lag(*final(self)) == bus_lag(*old(self))
                } else {
                    &&& r == Received::Envelope(q[0])
                    &&& bus_pending(*final(self)) == bus_pending(*old(self)).insert(id, q.drop_first())
                    &&& bus_lag(*final(self)) == bus_lag(*old(self))
                }
            }),
    {
        match self.rxs.get_mut(&id).map(|rx| rx.try_recv()) {
            Some(Ok(e)) => Received::Envelope(e),
            Some(Err(tokio::sync::broadcast::error::TryRecvError::Lagged(n))) => Received::Lagged(n),
            _ => Received::Empty,
        }
    }
}

} // verus!
