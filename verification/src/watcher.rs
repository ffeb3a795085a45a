//! The state watcher of one subscription: a worker that resolves its player
//! once, reads one full snapshot eagerly, then alternates between blocking
//! on the next upstream event and re-reading the player's whole state.  The
//! machine here takes every decision; the blocking calls themselves stay
//! with the driver, which reports each outcome as one event.

use vstd::prelude::*;

use crate::snapshot::StateSnapshot;

verus! {

/// Why a watcher stopped.
pub enum EndReason {
    /// The player did not resolve when the subscription started.
    PlayerNotFound,
    /// A field read failed: the whole subscription ends rather than emit a
    /// snapshot inconsistent with a single point in time.
    ReadFailed,
    /// A publish failed: the consumer is gone.
    Disconnected,
    /// The upstream event source ended.
    SourceEnded,
}

/// Where the watcher stands; `Publishing` carries the snapshot it is about
/// to hand to the channel.
pub enum WatcherPhase {
    Resolving,
    Reading,
    Publishing(StateSnapshot),
    Waiting,
    Finished(EndReason),
}

/// What the driver just did, and how it went.
pub enum WatcherEvent {
    /// The player lookup finished; the payload says whether it was found.
    Resolved(bool),
    /// The full state read finished; absence means some field read failed.
    ReadDone(Option<StateSnapshot>),
    /// The publish finished; the payload says whether a consumer listened.
    Published(bool),
    /// The blocking wait finished; `false` means the source ended.
    Woke(bool),
}

/// Whether an event is the outcome of the work the phase asks for.
pub open spec fn event_fits(p: WatcherPhase, ev: WatcherEvent) -> bool {
    match p {
        WatcherPhase::Resolving => ev is Resolved,
        WatcherPhase::Reading => ev is ReadDone,
        WatcherPhase::Publishing(_) => ev is Published,
        WatcherPhase::Waiting => ev is Woke,
        WatcherPhase::Finished(_) => false,
    }
}

/// The whole transition table.  An event that does not fit the phase
/// changes nothing; a finished watcher stays finished.
pub open spec fn watcher_next(p: WatcherPhase, ev: WatcherEvent) -> WatcherPhase {
    match (p, ev) {
        (WatcherPhase::Resolving, WatcherEvent::Resolved(true)) => WatcherPhase::Reading,
        (WatcherPhase::Resolving, WatcherEvent::Resolved(false)) => WatcherPhase::Finished(
            EndReason::PlayerNotFound,
        ),
        (WatcherPhase::Reading, WatcherEvent::ReadDone(Some(s))) => WatcherPhase::Publishing(s),
        (WatcherPhase::Reading, WatcherEvent::ReadDone(None)) => WatcherPhase::Finished(
            EndReason::ReadFailed,
        ),
        (WatcherPhase::Publishing(_), WatcherEvent::Published(true)) => WatcherPhase::Waiting,
        (WatcherPhase::Publishing(_), WatcherEvent::Published(false)) => WatcherPhase::Finished(
            EndReason::Disconnected,
        ),
        (WatcherPhase::Waiting, WatcherEvent::Woke(true)) => WatcherPhase::Reading,
        (WatcherPhase::Waiting, WatcherEvent::Woke(false)) => WatcherPhase::Finished(
            EndReason::SourceEnded,
        ),
        (q, _) => q,
    }
}

/// The phase after a whole run of events.
pub open spec fn watcher_run(p: WatcherPhase, events: Seq<WatcherEvent>) -> WatcherPhase
    decreases events.len(),
{
    if events.len() == 0 {
        p
    } else {
        watcher_run(watcher_next(p, events.first()), events.drop_first())
    }
}

/// The snapshots a run hands to the channel: one for each publish that
/// found its consumer.
pub open spec fn published_of(p: WatcherPhase, events: Seq<WatcherEvent>) -> Seq<StateSnapshot>
    decreases events.len(),
{
    if events.len() == 0 {
        Seq::empty()
    } else {
        (match (p, events.first()) {
            (WatcherPhase::Publishing(s), WatcherEvent::Published(true)) => seq![s],
            _ => Seq::empty(),
        }) + published_of(watcher_next(p, events.first()), events.drop_first())
    }
}

/// A finished watcher stays finished and publishes nothing more: its
/// resources are released and the subscription is over.
pub proof fn lemma_finished_is_final(r: EndReason, events: Seq<WatcherEvent>)
    ensures
        watcher_run(WatcherPhase::Finished(r), events) == WatcherPhase::Finished(r),
        published_of(WatcherPhase::Finished(r), events) == Seq::<StateSnapshot>::empty(),
    decreases events.len(),
{
    if events.len() > 0 {
        lemma_finished_is_final(r, events.drop_first());
        assert(published_of(WatcherPhase::Finished(r), events) =~= Seq::<
            StateSnapshot,
        >::empty());
    }
}

/// A run splits: what a composite run publishes is what its first part
/// publishes, then what its second part publishes from where the first
/// left off.
pub proof fn lemma_run_concat(p: WatcherPhase, a: Seq<WatcherEvent>, b: Seq<WatcherEvent>)
    ensures
        watcher_run(p, a + b) == watcher_run(watcher_run(p, a), b),
        published_of(p, a + b) == published_of(p, a) + published_of(watcher_run(p, a), b),
    decreases a.len(),
{
    if a.len() == 0 {
        assert(a + b =~= b);
        assert(published_of(p, a) =~= Seq::<StateSnapshot>::empty());
        assert(published_of(p, a + b) =~= published_of(p, a) + published_of(
            watcher_run(p, a),
            b,
        ));
    } else {
        let p1 = watcher_next(p, a.first());
        lemma_run_concat(p1, a.drop_first(), b);
        assert((a + b).first() == a.first());
        assert((a + b).drop_first() =~= a.drop_first() + b);
        assert(published_of(p, a + b) =~= published_of(p, a) + published_of(
            watcher_run(p, a),
            b,
        ));
    }
}

/// A player that does not resolve ends the subscription at once, with the
/// not-found outcome and no snapshot ever published.
pub proof fn lemma_not_found_ends_immediately(events: Seq<WatcherEvent>)
    requires
        events.len() > 0,
        events.first() == WatcherEvent::Resolved(false),
    ensures
        watcher_run(WatcherPhase::Resolving, events) == WatcherPhase::Finished(
            EndReason::PlayerNotFound,
        ),
        published_of(WatcherPhase::Resolving, events) == Seq::<StateSnapshot>::empty(),
{
    lemma_finished_is_final(EndReason::PlayerNotFound, events.drop_first());
    assert(published_of(WatcherPhase::Resolving, events) =~= Seq::<StateSnapshot>::empty());
}

/// Once a publish fails, nothing further is ever published: the failed
/// publish is a sufficient cancellation signal.
pub proof fn lemma_disconnect_stops_publishing(
    p: WatcherPhase,
    a: Seq<WatcherEvent>,
    b: Seq<WatcherEvent>,
)
    requires
        watcher_run(p, a) is Finished,
    ensures
        published_of(p, a + b) == published_of(p, a),
{
    lemma_run_concat(p, a, b);
    let r = watcher_run(p, a)->Finished_0;
    lemma_finished_is_final(r, b);
    assert(published_of(p, a) + Seq::<StateSnapshot>::empty() =~= published_of(p, a));
}

/// The eager initial snapshot: a watcher that has just resolved its player
/// reads before it ever waits, so the first thing a consumer can observe is
/// a full snapshot, not a wait.
pub proof fn lemma_eager_first_read(events: Seq<WatcherEvent>)
    requires
        events.len() > 0,
        events.first() == WatcherEvent::Resolved(true),
    ensures
        watcher_run(WatcherPhase::Resolving, events.take(1)) == WatcherPhase::Reading,
{
    assert(events.take(1).len() == 1);
    assert(events.take(1).first() == events.first());
    assert(watcher_next(WatcherPhase::Resolving, events.first()) == WatcherPhase::Reading);
    assert(events.take(1).drop_first() =~= Seq::<WatcherEvent>::empty());
    assert(watcher_run(WatcherPhase::Reading, events.take(1).drop_first())
        == WatcherPhase::Reading);
}

/// One subscription end to end: the watcher hands snapshots to the
/// coalescing channel, the channel delivers some subsequence of them, and
/// the encoder turns exactly the delivered ones into `update` events — so
/// the `update` events a client sees are the watcher's snapshots, possibly
/// thinned by coalescing, never reordered and never invented.
pub proof fn lemma_subscription_end_to_end(
    events: Seq<WatcherEvent>,
    sch: Seq<crate::slot::SlotEvent<StateSnapshot>>,
    feed: Seq<crate::sse::FeedEvent>,
)
    requires
        crate::slot::publishes(sch) == published_of(WatcherPhase::Resolving, events),
        crate::sse::arrivals_of(crate::sse::before_end(feed)) == crate::slot::deliveries(sch),
    ensures
        crate::slot::is_subsequence(
            crate::sse::updates_of(
                crate::sse::run_encoder(crate::sse::EncoderPhase::Streaming, feed),
            ),
            published_of(WatcherPhase::Resolving, events),
        ),
{
    crate::sse::lemma_updates_faithful(feed);
    crate::slot::lemma_deliveries_in_order(sch);
}

/// The watcher of one subscription.
pub struct SubscriptionWatcher {
    phase: WatcherPhase,
}

/// What the driver must do next for a given phase.
pub enum WatcherDuty {
    /// Look the player up by its identifier.
    Resolve,
    /// Read one full snapshot of the player's state.
    ReadSnapshot,
    /// Hand the held snapshot to the channel.
    PublishPending,
    /// Block on the next upstream event.
    WaitEvent,
    /// Release every resource; the subscription is over.
    Stop,
}

impl SubscriptionWatcher {
    /// The phase the watcher is in.
    pub closed spec fn phase_spec(&self) -> WatcherPhase {
        self.phase
    }

    /// A fresh watcher for one subscription, about to resolve its player.
    pub fn start() -> (r: SubscriptionWatcher)
        ensures
            r.phase_spec() is Resolving,
    {
        SubscriptionWatcher { phase: WatcherPhase::Resolving }
    }

    /// What the driver must do next.
    pub fn duty(&self) -> (d: WatcherDuty)
        ensures
            d == match self.phase_spec() {
                WatcherPhase::Resolving => WatcherDuty::Resolve,
                WatcherPhase::Reading => WatcherDuty::ReadSnapshot,
                WatcherPhase::Publishing(_) => WatcherDuty::PublishPending,
                WatcherPhase::Waiting => WatcherDuty::WaitEvent,
                WatcherPhase::Finished(_) => WatcherDuty::Stop,
            },
    {
        match &self.phase {
            WatcherPhase::Resolving => WatcherDuty::Resolve,
            WatcherPhase::Reading => WatcherDuty::ReadSnapshot,
            WatcherPhase::Publishing(_) => WatcherDuty::PublishPending,
            WatcherPhase::Waiting => WatcherDuty::WaitEvent,
            WatcherPhase::Finished(_) => WatcherDuty::Stop,
        }
    }

    /// The snapshot awaiting publication, when there is one.
    pub fn pending_snapshot(&self) -> (r: Option<&StateSnapshot>)
        ensures
            r is Some <==> self.phase_spec() is Publishing,
            r is Some ==> *r->Some_0 == self.phase_spec()->Publishing_0,
    {
        match &self.phase {
            WatcherPhase::Publishing(s) => Some(s),
            _ => None,
        }
    }

    /// Why the watcher stopped, once it has.
    pub fn end_reason(&self) -> (r: Option<&EndReason>)
        ensures
            r is Some <==> self.phase_spec() is Finished,
            r is Some ==> *r->Some_0 == self.phase_spec()->Finished_0,
    {
        match &self.phase {
            WatcherPhase::Finished(reason) => Some(reason),
            _ => None,
        }
    }

    /// Takes one reported outcome and moves to the next phase, exactly as
    /// the transition table says.
    pub fn step(&mut self, ev: WatcherEvent)
        ensures
            final(self).phase_spec() == watcher_next(old(self).phase_spec(), ev),
    {
        let mut prev = WatcherPhase::Resolving;
        core::mem::swap(&mut prev, &mut self.phase);
        self.phase = match (prev, ev) {
            (WatcherPhase::Resolving, WatcherEvent::Resolved(true)) => WatcherPhase::Reading,
            (WatcherPhase::Resolving, WatcherEvent::Resolved(false)) => WatcherPhase::Finished(
                EndReason::PlayerNotFound,
            ),
            (WatcherPhase::Reading, WatcherEvent::ReadDone(Some(s))) => WatcherPhase::Publishing(
                s,
            ),
            (WatcherPhase::Reading, WatcherEvent::ReadDone(None)) => WatcherPhase::Finished(
                EndReason::ReadFailed,
            ),
            (WatcherPhase::Publishing(_), WatcherEvent::Published(true)) => WatcherPhase::Waiting,
            (WatcherPhase::Publishing(_), WatcherEvent::Published(false)) => WatcherPhase::Finished(
                EndReason::Disconnected,
            ),
            (WatcherPhase::Waiting, WatcherEvent::Woke(true)) => WatcherPhase::Reading,
            (WatcherPhase::Waiting, WatcherEvent::Woke(false)) => WatcherPhase::Finished(
                EndReason::SourceEnded,
            ),
            (q, _) => q,
        };
    }
}

} // verus!
