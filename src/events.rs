//! Events of the node engine, held until acknowledged, and the drain that
//! waits for one correlated event.

use vstd::prelude::*;
use crate::payments::bytes_equal;

verus! {

/// A notification of the node engine.
#[derive(Clone, Copy, Debug)]
pub enum NodeEvent {
    PaymentSuccessful { payment_hash: [u8; 32] },
    PaymentFailed { payment_hash: [u8; 32] },
    PaymentReceived { payment_hash: [u8; 32], amount_msat: u64 },
    ChannelPending { channel_id: [u8; 32], counterparty_node_id: [u8; 33] },
    ChannelReady { channel_id: [u8; 32] },
    ChannelClosed { channel_id: [u8; 32] },
}

/// An event with the delivery number the queue gave it.
#[derive(Clone, Copy, Debug)]
pub struct QueuedEvent {
    pub id: u64,
    pub event: NodeEvent,
}

/// The event a correlated wait is after.
#[derive(Clone, Copy, Debug)]
pub enum EventMatcher {
    ChannelPendingWith { counterparty_node_id: [u8; 33] },
    ChannelReadyFor { channel_id: [u8; 32] },
    PaymentSuccessfulFor { payment_hash: [u8; 32] },
    PaymentReceivedFor { payment_hash: [u8; 32] },
}

/// How a correlated wait ended.
#[derive(Clone, Copy, Debug)]
pub enum WaitOutcome {
    Matched(QueuedEvent),
    /// As many events as allowed were examined, none matching.
    CapReached,
    /// The queue ran empty before a match.
    Drained,
}

#[derive(Clone, Copy, Debug, PartialEq, Eq, Structural)]
pub enum QueueError {
    /// Every delivery number has been given out.
    IdsExhausted,
}

/// Events not yet acknowledged, oldest first, and the next delivery number.
pub struct EventQueue {
    pending: Vec<QueuedEvent>,
    next_id: u64,
}

/// Events in delivery order and the number the next arrival gets.
pub type QueueView = (Seq<QueuedEvent>, u64);

/// Delivery numbers increase along the queue and stay below the next one.
pub open spec fn queue_wf(v: QueueView) -> bool {
    &&& forall|i: int, j: int| 0 <= i < j < v.0.len() ==> (#[trigger] v.0[i]).id < (#[trigger] v.0[j]).id
    &&& forall|i: int| 0 <= i < v.0.len() ==> (#[trigger] v.0[i]).id < v.1
}

/// The event the next wait delivers: the oldest one not acknowledged.
pub open spec fn next_delivery(v: QueueView) -> Option<QueuedEvent> {
    if v.0.len() > 0 {
        Some(v.0[0])
    } else {
        None
    }
}

/// The queue after `e` arrived.
pub open spec fn after_push(v: QueueView, e: NodeEvent) -> QueueView {
    (v.0.push(QueuedEvent { id: v.1, event: e }), (v.1 + 1) as u64)
}

/// The queue after the delivered event was acknowledged.
pub open spec fn after_handled(v: QueueView) -> QueueView {
    if v.0.len() > 0 {
        (v.0.drop_first(), v.1)
    } else {
        v
    }
}

/// No event in the queue, nor any later arrival, has a number up to `k`.
pub open spec fn ids_above(v: QueueView, k: u64) -> bool {
    &&& v.1 > k
    &&& forall|i: int| 0 <= i < v.0.len() ==> (#[trigger] v.0[i]).id > k
}

pub open spec fn event_matches(m: EventMatcher, e: NodeEvent) -> bool {
    match (m, e) {
        (
            EventMatcher::ChannelPendingWith { counterparty_node_id: want },
            NodeEvent::ChannelPending { counterparty_node_id: got, .. },
        ) => want@ == got@,
        (
            EventMatcher::ChannelReadyFor { channel_id: want },
            NodeEvent::ChannelReady { channel_id: got },
        ) => want@ == got@,
        (
            EventMatcher::PaymentSuccessfulFor { payment_hash: want },
            NodeEvent::PaymentSuccessful { payment_hash: got },
        ) => want@ == got@,
        (
            EventMatcher::PaymentReceivedFor { payment_hash: want },
            NodeEvent::PaymentReceived { payment_hash: got, .. },
        ) => want@ == got@,
        _ => false,
    }
}

/// Drains `s` until an event matches `m`, examining at most `cap` events.
/// Gives the outcome, the events acknowledged without matching, and what
/// stays queued.
pub open spec fn drain_spec(s: Seq<QueuedEvent>, m: EventMatcher, cap: nat) -> (
    WaitOutcome,
    Seq<QueuedEvent>,
    Seq<QueuedEvent>,
)
    decreases cap,
{
    if cap == 0 {
        (WaitOutcome::CapReached, Seq::empty(), s)
    } else if s.len() == 0 {
        (WaitOutcome::Drained, Seq::empty(), s)
    } else if event_matches(m, s[0].event) {
        (WaitOutcome::Matched(s[0]), Seq::empty(), s.drop_first())
    } else {
        let rest = drain_spec(s.drop_first(), m, (cap - 1) as nat);
        (rest.0, seq![s[0]] + rest.1, rest.2)
    }
}

/// Whether `e` is the event that `m` waits for.
pub fn matches_event(m: &EventMatcher, e: &NodeEvent) -> (r: bool)
    ensures
        r == event_matches(*m, *e),
{
    match (m, e) {
        (
            EventMatcher::ChannelPendingWith { counterparty_node_id: want },
            NodeEvent::ChannelPending { counterparty_node_id: got, .. },
        ) => bytes_equal(want, got),
        (
            EventMatcher::ChannelReadyFor { channel_id: want },
            NodeEvent::ChannelReady { channel_id: got },
        ) => bytes_equal(want, got),
        (
            EventMatcher::PaymentSuccessfulFor { payment_hash: want },
            NodeEvent::PaymentSuccessful { payment_hash: got },
        ) => bytes_equal(want, got),
        (
            EventMatcher::PaymentReceivedFor { payment_hash: want },
            NodeEvent::PaymentReceived { payment_hash: got, .. },
        ) => bytes_equal(want, got),
        _ => false,
    }
}

impl View for EventQueue {
    type V = QueueView;

    closed spec fn view(&self) -> QueueView {
        (self.pending@, self.next_id)
    }
}

impl EventQueue {
    pub fn new() -> (r: Self)
        ensures
            queue_wf(r@),
            r@ == (Seq::<QueuedEvent>::empty(), 0u64),
    {
        EventQueue { pending: Vec::new(), next_id: 0 }
    }

    /// Queues an arrival under the next delivery number.
    pub fn push(&mut self, e: NodeEvent) -> (r: Result<u64, QueueError>)
        requires
            queue_wf(old(self)@),
        ensures
            queue_wf(final(self)@),
            old(self)@.1 == u64::MAX ==> r == Err::<u64, QueueError>(QueueError::IdsExhausted)
                && final(self)@ == old(self)@,
            old(self)@.1 < u64::MAX ==> r == Ok::<u64, QueueError>(old(self)@.1) && final(self)@
                == after_push(old(self)@, e),
    {
        if self.next_id == u64::MAX {
            return Err(QueueError::IdsExhausted);
        }
        let id = self.next_id;
        self.pending.push(QueuedEvent { id, event: e });
        self.next_id = id + 1;
        Ok(id)
    }

    /// The oldest event not yet acknowledged; the same one until it is.
    pub fn wait_next_event(&self) -> (r: Option<QueuedEvent>)
        ensures
            r == next_delivery(self@),
    {
        if self.pending.len() > 0 {
            Some(self.pending[0])
        } else {
            None
        }
    }

    /// Acknowledges the delivered event, which is then never delivered again.
    pub fn event_handled(&mut self) -> (r: Option<u64>)
        requires
            queue_wf(old(self)@),
        ensures
            queue_wf(final(self)@),
            final(self)@ == after_handled(old(self)@),
            r == match next_delivery(old(self)@) {
                Some(q) => Some(q.id),
                None => None::<u64>,
            },
    {
        if self.pending.len() == 0 {
            return None;
        }
        let q = self.pending.remove(0);
        assert(self.pending@ =~= old(self)@.0.drop_first());
        Some(q.id)
    }

    /// Acknowledges events until one matches `m`, examining at most `cap`.
    /// The events passed over are handed back, not lost.
    pub fn wait_for(&mut self, m: &EventMatcher, cap: usize) -> (r: (WaitOutcome, Vec<QueuedEvent>))
        requires
            queue_wf(old(self)@),
        ensures
            queue_wf(final(self)@),
            final(self)@.1 == old(self)@.1,
            (r.0, r.1@, final(self)@.0) == drain_spec(old(self)@.0, *m, cap as nat),
    {
        let ghost orig = self.pending@;
        let mut skipped: Vec<QueuedEvent> = Vec::new();
        let mut examined: usize = 0;
        loop
            invariant
                queue_wf(self@),
                self@.1 == old(self)@.1,
                orig == old(self)@.0,
                examined <= cap,
                ({
                    let rest = drain_spec(self@.0, *m, (cap - examined) as nat);
                    drain_spec(orig, *m, cap as nat) == (rest.0, skipped@ + rest.1, rest.2)
                }),
            decreases cap - examined,
        {
            if examined == cap {
                assert(skipped@ + Seq::<QueuedEvent>::empty() =~= skipped@);
                return (WaitOutcome::CapReached, skipped);
            }
            if self.pending.len() == 0 {
                assert(skipped@ + Seq::<QueuedEvent>::empty() =~= skipped@);
                return (WaitOutcome::Drained, skipped);
            }
            let q = self.pending.remove(0);
            if matches_event(m, &q.event) {
                assert(skipped@ + Seq::<QueuedEvent>::empty() =~= skipped@);
                return (WaitOutcome::Matched(q), skipped);
            }
            let ghost sk = skipped@;
            skipped.push(q);
            examined = examined + 1;
            proof {
                let rest = drain_spec(self@.0, *m, (cap - examined) as nat);
                assert(sk + (seq![q] + rest.1) =~= skipped@ + rest.1);
            }
        }
    }
}

/// An event left unacknowledged stays the next one delivered, whatever
/// arrives meanwhile.
pub proof fn lemma_unacknowledged_redelivered(v: QueueView, e: NodeEvent)
    requires
        queue_wf(v),
        v.0.len() > 0,
        v.1 < u64::MAX,
    ensures
        next_delivery(after_push(v, e)) == next_delivery(v),
{
}

/// Once the delivered event is acknowledged, every event still queued and
/// every later arrival has a higher delivery number.
pub proof fn lemma_acknowledged_never_redelivered(v: QueueView)
    requires
        queue_wf(v),
        v.0.len() > 0,
    ensures
        ids_above(after_handled(v), v.0[0].id),
{
}

/// Arrivals and acknowledgements keep every delivery number above `k`, so
/// an acknowledged event is never delivered again.
pub proof fn lemma_ids_above_preserved(v: QueueView, k: u64, e: NodeEvent)
    requires
        queue_wf(v),
        ids_above(v, k),
    ensures
        v.1 < u64::MAX ==> ids_above(after_push(v, e), k),
        ids_above(after_handled(v), k),
        next_delivery(v) is Some ==> next_delivery(v)->0.id > k,
{
}

/// A correlated wait passes over a non-matching event, hands it back, and is
/// satisfied by the matching one that follows.
pub proof fn lemma_mismatch_then_match(
    a: QueuedEvent,
    b: QueuedEvent,
    rest: Seq<QueuedEvent>,
    m: EventMatcher,
    cap: nat,
)
    requires
        !event_matches(m, a.event),
        event_matches(m, b.event),
        cap >= 2,
    ensures
        drain_spec(seq![a, b] + rest, m, cap) == (WaitOutcome::Matched(b), seq![a], rest),
{
    let s = seq![a, b] + rest;
    assert(s[0] == a);
    assert(s.drop_first() =~= seq![b] + rest);
    assert((seq![b] + rest)[0] == b);
    assert((seq![b] + rest).drop_first() =~= rest);
    let inner = drain_spec(seq![b] + rest, m, (cap - 1) as nat);
    assert(inner == (WaitOutcome::Matched(b), Seq::<QueuedEvent>::empty(), rest));
    assert(drain_spec(s, m, cap) == (inner.0, seq![a] + inner.1, inner.2));
    assert(seq![a] + Seq::<QueuedEvent>::empty() =~= seq![a]);
}

} // verus!
