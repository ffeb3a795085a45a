//! The coalescing single-slot channel between one watcher and one
//! subscriber: a new snapshot overwrites any unconsumed one, so a slow
//! consumer sees only the most recent value and the producer is never made
//! to wait.  A failed publish tells the producer that the consumer is gone.

use vstd::prelude::*;

verus! {

/// The single-slot conduit.  `publish` is total and never waits: under a
/// burst it simply overwrites the pending value.
pub struct CoalescingSlot<T> {
    pending: Option<T>,
    open: bool,
}

impl<T> CoalescingSlot<T> {
    /// The value waiting to be drained, if any.
    pub closed spec fn pending_spec(&self) -> Option<T> {
        self.pending
    }

    /// Whether the consumer still listens.
    pub closed spec fn is_open(&self) -> bool {
        self.open
    }

    /// A fresh, empty, open slot.
    pub fn make() -> (r: CoalescingSlot<T>)
        ensures
            r.pending_spec() is None,
            r.is_open(),
    {
        CoalescingSlot { pending: None, open: true }
    }

    /// Stores `v` as the newest value, overwriting any unconsumed one.
    /// Fails exactly when the consumer is gone, leaving the slot unchanged;
    /// that failure is the producer's sole cancellation signal.
    pub fn publish(&mut self, v: T) -> (ok: bool)
        ensures
            ok == old(self).is_open(),
            final(self).is_open() == old(self).is_open(),
            ok ==> final(self).pending_spec() == Some(v),
            !ok ==> final(self).pending_spec() == old(self).pending_spec(),
    {
        if self.open {
            self.pending = Some(v);
            true
        } else {
            false
        }
    }

    /// Takes the newest value, if one waits; the slot is empty afterwards.
    pub fn drain(&mut self) -> (r: Option<T>)
        ensures
            r == old(self).pending_spec(),
            final(self).pending_spec() is None,
            final(self).is_open() == old(self).is_open(),
    {
        self.pending.take()
    }

    /// Marks the consumer as gone; every later publish fails.
    pub fn close(&mut self)
        ensures
            !final(self).is_open(),
            final(self).pending_spec() == old(self).pending_spec(),
    {
        self.open = false;
    }
}

/// One step of a producer/consumer interleaving on a slot whose consumer
/// stays attached.
pub enum SlotEvent<T> {
    Publish(T),
    Drain,
}

/// The pending value after an interleaving: whatever the last step left.
pub open spec fn pending_after<T>(sch: Seq<SlotEvent<T>>) -> Option<T> {
    if sch.len() == 0 {
        None
    } else {
        match sch.last() {
            SlotEvent::Publish(v) => Some(v),
            SlotEvent::Drain => None,
        }
    }
}

/// The values a consumer observes over an interleaving, in order.
pub open spec fn deliveries<T>(sch: Seq<SlotEvent<T>>) -> Seq<T>
    decreases sch.len(),
{
    if sch.len() == 0 {
        Seq::empty()
    } else {
        match sch.last() {
            SlotEvent::Publish(v) => deliveries(sch.drop_last()),
            SlotEvent::Drain => deliveries(sch.drop_last()) + (match pending_after(
                sch.drop_last(),
            ) {
                Some(v) => seq![v],
                None => Seq::empty(),
            }),
        }
    }
}

/// How many times the consumer drained.
pub open spec fn drain_count<T>(sch: Seq<SlotEvent<T>>) -> nat
    decreases sch.len(),
{
    if sch.len() == 0 {
        0nat
    } else {
        drain_count(sch.drop_last()) + (if sch.last() is Drain {
            1nat
        } else {
            0nat
        })
    }
}

/// The values published over an interleaving, in order.
pub open spec fn publishes<T>(sch: Seq<SlotEvent<T>>) -> Seq<T>
    decreases sch.len(),
{
    if sch.len() == 0 {
        Seq::empty()
    } else {
        publishes(sch.drop_last()) + (match sch.last() {
            SlotEvent::Publish(v) => seq![v],
            SlotEvent::Drain => Seq::empty(),
        })
    }
}

/// Whether `a` occurs inside `b`, in order.
pub open spec fn is_subsequence<T>(a: Seq<T>, b: Seq<T>) -> bool
    decreases a.len() + b.len(),
{
    if a.len() == 0 {
        true
    } else if b.len() == 0 {
        false
    } else if a.last() == b.last() {
        is_subsequence(a.drop_last(), b.drop_last())
    } else {
        is_subsequence(a, b.drop_last())
    }
}

proof fn lemma_subsequence_drop<T>(a: Seq<T>, b: Seq<T>)
    requires
        is_subsequence(a, b),
        a.len() > 0,
    ensures
        is_subsequence(a.drop_last(), b),
    decreases b.len(), 0nat,
{
    assert(b.len() > 0);
    if a.drop_last().len() == 0 {
    } else if a.last() == b.last() {
        lemma_subsequence_push(a.drop_last(), b.drop_last(), b.last());
        assert(b.drop_last().push(b.last()) =~= b);
    } else {
        lemma_subsequence_drop(a, b.drop_last());
        lemma_subsequence_push(a.drop_last(), b.drop_last(), b.last());
        assert(b.drop_last().push(b.last()) =~= b);
    }
}

proof fn lemma_subsequence_push<T>(a: Seq<T>, b: Seq<T>, x: T)
    requires
        is_subsequence(a, b),
    ensures
        is_subsequence(a, b.push(x)),
    decreases b.len(), 1nat,
{
    if a.len() == 0 {
    } else {
        assert(b.push(x).last() == x);
        assert(b.push(x).drop_last() =~= b);
        if a.last() == x {
            lemma_subsequence_drop(a, b);
        }
    }
}

/// Coalescing drops intermediate values but never reorders: whatever a
/// consumer observes is a subsequence of what the producer published, in
/// publication order; and whatever is still pending was published after
/// everything already observed.
pub proof fn lemma_deliveries_in_order<T>(sch: Seq<SlotEvent<T>>)
    ensures
        is_subsequence(deliveries(sch), publishes(sch)),
        pending_after(sch) is Some ==> is_subsequence(
            deliveries(sch),
            publishes(sch).drop_last(),
        ),
    decreases sch.len(),
{
    if sch.len() > 0 {
        let rest = sch.drop_last();
        lemma_deliveries_in_order(rest);
        match sch.last() {
            SlotEvent::Publish(v) => {
                assert(publishes(sch) =~= publishes(rest).push(v));
                lemma_subsequence_push(deliveries(rest), publishes(rest), v);
                assert(deliveries(sch) == deliveries(rest));
                assert(publishes(sch).drop_last() =~= publishes(rest));
            },
            SlotEvent::Drain => {
                assert(publishes(sch) =~= publishes(rest));
                match pending_after(rest) {
                    Some(v) => {
                        assert(rest.len() > 0);
                        assert(rest.last() == SlotEvent::<T>::Publish(v));
                        assert(publishes(rest) =~= publishes(rest.drop_last()).push(v));
                        assert(publishes(rest).len() > 0 && publishes(rest).last() == v);
                        let observed = deliveries(sch);
                        assert(observed =~= deliveries(rest).push(v));
                        assert(observed.last() == v);
                        assert(observed.drop_last() =~= deliveries(rest));
                        assert(publishes(sch).drop_last() =~= publishes(rest).drop_last());
                        assert(is_subsequence(observed, publishes(sch)));
                    },
                    None => {
                        assert(deliveries(sch) =~= deliveries(rest));
                    },
                }
            },
        }
    }
}

/// The schedule of a burst: each value published in order, nothing drained.
pub open spec fn burst_of<T>(vals: Seq<T>) -> Seq<SlotEvent<T>> {
    vals.map(|i: int, v: T| SlotEvent::Publish(v))
}

/// A consumer never observes more values than it drained: coalescing bounds
/// deliveries by consumption, not by production.
pub proof fn lemma_deliveries_bounded<T>(sch: Seq<SlotEvent<T>>)
    ensures
        deliveries(sch).len() <= drain_count(sch),
    decreases sch.len(),
{
    if sch.len() > 0 {
        lemma_deliveries_bounded(sch.drop_last());
    }
}

/// After any interleaving followed by a burst of publishes and one drain,
/// the consumer's next observation is exactly the burst's last value: a
/// burst under a slow consumer collapses to its most recent snapshot, which
/// is never lost.
pub proof fn lemma_burst_delivers_last<T>(prefix: Seq<SlotEvent<T>>, vals: Seq<T>)
    requires
        vals.len() > 0,
    ensures
        deliveries(prefix + burst_of(vals) + seq![SlotEvent::<T>::Drain]) == deliveries(
            prefix + burst_of(vals),
        ) + seq![vals.last()],
        deliveries(prefix + burst_of(vals)) == deliveries(prefix),
        deliveries(prefix + burst_of(vals) + seq![SlotEvent::<T>::Drain]).len() <= drain_count(
            prefix,
        ) + 1,
{
    lemma_burst_publishes_silent(prefix, vals);
    let mid = prefix + burst_of(vals);
    let sch = mid + seq![SlotEvent::<T>::Drain];
    assert(sch.drop_last() =~= mid);
    assert(sch.last() is Drain);
    assert(mid.len() > 0);
    assert(mid.last() == burst_of(vals)[vals.len() - 1]);
    assert(mid.last() == SlotEvent::<T>::Publish(vals.last()));
    assert(pending_after(mid) == Some(vals.last()));
    assert(deliveries(sch) =~= deliveries(mid) + seq![vals.last()]);
    lemma_deliveries_bounded(prefix);
    lemma_drain_count_burst(prefix, vals);
}

proof fn lemma_burst_publishes_silent<T>(prefix: Seq<SlotEvent<T>>, vals: Seq<T>)
    ensures
        deliveries(prefix + burst_of(vals)) == deliveries(prefix),
    decreases vals.len(),
{
    if vals.len() == 0 {
        assert(prefix + burst_of(vals) =~= prefix);
    } else {
        let shorter = vals.drop_last();
        lemma_burst_publishes_silent(prefix, shorter);
        let mid = prefix + burst_of(vals);
        assert(mid.drop_last() =~= prefix + burst_of(shorter));
        assert(mid.last() == burst_of(vals)[vals.len() - 1]);
        assert(mid.last() is Publish);
    }
}

proof fn lemma_drain_count_burst<T>(prefix: Seq<SlotEvent<T>>, vals: Seq<T>)
    ensures
        drain_count(prefix + burst_of(vals)) == drain_count(prefix),
    decreases vals.len(),
{
    if vals.len() == 0 {
        assert(prefix + burst_of(vals) =~= prefix);
    } else {
        let shorter = vals.drop_last();
        lemma_drain_count_burst(prefix, shorter);
        let mid = prefix + burst_of(vals);
        assert(mid.drop_last() =~= prefix + burst_of(shorter));
        assert(mid.last() == burst_of(vals)[vals.len() - 1]);
        assert(mid.last() is Publish);
    }
}

} // verus!
