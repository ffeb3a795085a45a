use mpris_bridge::slot::CoalescingSlot;
use mpris_bridge::snapshot::StateSnapshot;
use mpris_bridge::sse::EventStreamEncoder;
use mpris_bridge::sse::FeedEvent;
use mpris_bridge::watcher::EndReason;
use mpris_bridge::watcher::SubscriptionWatcher;
use mpris_bridge::watcher::WatcherDuty;
use mpris_bridge::watcher::WatcherEvent;

fn snapshot_at(position: u64) -> StateSnapshot {
    StateSnapshot {
        position,
        length: None,
        title: None,
        running: true,
        playback_rate: None,
        art_url_hash: 0,
        can_control: true,
        can_go_next: true,
        can_go_prev: true,
        can_seek: true,
        has_volume: false,
        volume: None,
    }
}

#[test]
fn missing_player_stops_at_once() {
    let mut w = SubscriptionWatcher::start();
    assert!(matches!(w.duty(), WatcherDuty::Resolve));
    w.step(WatcherEvent::Resolved(false));
    assert!(matches!(w.duty(), WatcherDuty::Stop));
    assert!(matches!(w.end_reason(), Some(EndReason::PlayerNotFound)));
}

#[test]
fn eager_read_comes_before_any_wait() {
    let mut w = SubscriptionWatcher::start();
    w.step(WatcherEvent::Resolved(true));
    assert!(matches!(w.duty(), WatcherDuty::ReadSnapshot));
    w.step(WatcherEvent::ReadDone(Some(snapshot_at(1))));
    assert!(matches!(w.duty(), WatcherDuty::PublishPending));
    assert_eq!(w.pending_snapshot().map(|s| s.position), Some(1));
    w.step(WatcherEvent::Published(true));
    assert!(matches!(w.duty(), WatcherDuty::WaitEvent));
}

#[test]
fn publish_failure_terminates_the_worker() {
    let mut w = SubscriptionWatcher::start();
    w.step(WatcherEvent::Resolved(true));
    w.step(WatcherEvent::ReadDone(Some(snapshot_at(1))));
    w.step(WatcherEvent::Published(false));
    assert!(matches!(w.duty(), WatcherDuty::Stop));
    assert!(matches!(w.end_reason(), Some(EndReason::Disconnected)));
}

#[test]
fn failed_field_read_aborts_the_subscription() {
    let mut w = SubscriptionWatcher::start();
    w.step(WatcherEvent::Resolved(true));
    w.step(WatcherEvent::ReadDone(Some(snapshot_at(1))));
    w.step(WatcherEvent::Published(true));
    w.step(WatcherEvent::Woke(true));
    assert!(matches!(w.duty(), WatcherDuty::ReadSnapshot));
    w.step(WatcherEvent::ReadDone(None));
    assert!(matches!(w.duty(), WatcherDuty::Stop));
    assert!(matches!(w.end_reason(), Some(EndReason::ReadFailed)));
}

#[test]
fn ended_source_finishes_the_watcher() {
    let mut w = SubscriptionWatcher::start();
    w.step(WatcherEvent::Resolved(true));
    w.step(WatcherEvent::ReadDone(Some(snapshot_at(1))));
    w.step(WatcherEvent::Published(true));
    w.step(WatcherEvent::Woke(false));
    assert!(matches!(w.end_reason(), Some(EndReason::SourceEnded)));
}

fn run_subscription(positions: &[u64]) -> Vec<String> {
    let mut w = SubscriptionWatcher::start();
    let mut slot: CoalescingSlot<StateSnapshot> = CoalescingSlot::make();
    let mut enc = EventStreamEncoder::start();
    let mut frames: Vec<String> = Vec::new();
    w.step(WatcherEvent::Resolved(true));
    for (k, p) in positions.iter().enumerate() {
        assert!(matches!(w.duty(), WatcherDuty::ReadSnapshot));
        w.step(WatcherEvent::ReadDone(Some(snapshot_at(*p))));
        assert!(matches!(w.duty(), WatcherDuty::PublishPending));
        let snap = snapshot_at(w.pending_snapshot().unwrap().position);
        let ok = slot.publish(snap);
        w.step(WatcherEvent::Published(ok));
        if let Some(s) = slot.drain() {
            if let Some(f) = enc.step(FeedEvent::Arrived(s)) {
                frames.push(f);
            }
        }
        let more = k + 1 < positions.len();
        w.step(WatcherEvent::Woke(more));
    }
    if let Some(f) = enc.step(FeedEvent::Ended) {
        frames.push(f);
    }
    frames
}

#[test]
fn two_subscriptions_stay_independent_and_ordered() {
    let frames_a = run_subscription(&[1, 2, 3]);
    let frames_b = run_subscription(&[10, 20]);
    let positions = |frames: &[String]| -> Vec<String> {
        frames
            .iter()
            .filter(|f| f.starts_with("event: update\n"))
            .map(|f| {
                let body = &f["event: update\ndata: ".len()..];
                let v: serde_json::Value = serde_json::from_str(body.trim_end()).unwrap();
                v["position"].to_string()
            })
            .collect()
    };
    assert_eq!(positions(&frames_a), vec!["1", "2", "3"]);
    assert_eq!(positions(&frames_b), vec!["10", "20"]);
    assert!(frames_a.last().unwrap().starts_with("event: end\n"));
    assert!(frames_b.last().unwrap().starts_with("event: end\n"));
}
