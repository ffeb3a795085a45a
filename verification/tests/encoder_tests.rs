use mpris_bridge::numbertext::NumberText;
use mpris_bridge::snapshot::StateSnapshot;
use mpris_bridge::sse::EventStreamEncoder;
use mpris_bridge::sse::FeedEvent;

fn bare_snapshot() -> StateSnapshot {
    StateSnapshot {
        position: 0,
        length: None,
        title: None,
        running: false,
        playback_rate: None,
        art_url_hash: 0,
        can_control: false,
        can_go_next: false,
        can_go_prev: false,
        can_seek: false,
        has_volume: false,
        volume: None,
    }
}

fn full_snapshot() -> StateSnapshot {
    StateSnapshot {
        position: 123,
        length: Some(456789),
        title: Some(String::from("Song \"A\" \\ with\nnewline")),
        running: true,
        playback_rate: NumberText::make(String::from("1.5")),
        art_url_hash: 42,
        can_control: true,
        can_go_next: true,
        can_go_prev: false,
        can_seek: true,
        has_volume: true,
        volume: NumberText::make(String::from("0.75")),
    }
}

#[test]
fn bare_snapshot_renders_exactly() {
    let json = bare_snapshot().encode_json();
    let expected = "{\"position\":0,\"length\":null,\"title\":null,\"running\":false,\"playback_rate\":null,\"art_url_hash\":0,\"can_control\":false,\"can_go_next\":false,\"can_go_prev\":false,\"can_seek\":false,\"has_volume\":false,\"volume\":null}";
    assert_eq!(json, expected);
}

#[test]
fn full_snapshot_parses_back() {
    let json = full_snapshot().encode_json();
    let value: serde_json::Value = serde_json::from_str(&json).unwrap();
    assert_eq!(value["position"], serde_json::Value::from(123u64));
    assert_eq!(value["length"], serde_json::Value::from(456789u64));
    assert_eq!(
        value["title"],
        serde_json::Value::from("Song \"A\" \\ with\nnewline")
    );
    assert_eq!(value["running"], serde_json::Value::from(true));
    assert_eq!(value["playback_rate"], serde_json::Value::from(1.5f64));
    assert_eq!(value["art_url_hash"], serde_json::Value::from(42u64));
    assert_eq!(value["can_control"], serde_json::Value::from(true));
    assert_eq!(value["can_go_next"], serde_json::Value::from(true));
    assert_eq!(value["can_go_prev"], serde_json::Value::from(false));
    assert_eq!(value["can_seek"], serde_json::Value::from(true));
    assert_eq!(value["has_volume"], serde_json::Value::from(true));
    assert_eq!(value["volume"], serde_json::Value::from(0.75f64));
}

#[test]
fn snapshot_json_stays_on_one_line() {
    let json = full_snapshot().encode_json();
    assert!(!json.contains('\n'));
}

#[test]
fn update_frame_has_event_stream_shape() {
    let mut enc = EventStreamEncoder::start();
    let frame = enc.step(FeedEvent::Arrived(bare_snapshot())).unwrap();
    assert!(frame.starts_with("event: update\ndata: {"));
    assert!(frame.ends_with("}\n\n"));
    let body = &frame["event: update\ndata: ".len()..frame.len() - 2];
    let parsed: Result<serde_json::Value, _> = serde_json::from_str(body.trim_end());
    assert!(parsed.is_ok());
}

#[test]
fn pulse_is_a_bare_comment_line() {
    let mut enc = EventStreamEncoder::start();
    let frame = enc.step(FeedEvent::Tick).unwrap();
    assert_eq!(frame, ":\n");
}

#[test]
fn end_frame_is_exact() {
    let mut enc = EventStreamEncoder::start();
    let frame = enc.step(FeedEvent::Ended).unwrap();
    assert_eq!(frame, "event: end\ndata: \n\n");
}

#[test]
fn first_event_is_update_before_end() {
    let mut enc = EventStreamEncoder::start();
    let mut frames: Vec<String> = Vec::new();
    for ev in [
        FeedEvent::Tick,
        FeedEvent::Arrived(bare_snapshot()),
        FeedEvent::Tick,
        FeedEvent::Arrived(full_snapshot()),
        FeedEvent::Ended,
    ] {
        if let Some(f) = enc.step(ev) {
            frames.push(f);
        }
    }
    let first_data = frames
        .iter()
        .find(|f| !f.starts_with(':'))
        .expect("some named event");
    assert!(first_data.starts_with("event: update\n"));
    assert!(frames.last().unwrap().starts_with("event: end\n"));
}

#[test]
fn nothing_follows_the_end_event() {
    let mut enc = EventStreamEncoder::start();
    assert!(enc.step(FeedEvent::Arrived(bare_snapshot())).is_some());
    assert!(enc.step(FeedEvent::Ended).is_some());
    assert!(enc.step(FeedEvent::Tick).is_none());
    assert!(enc.step(FeedEvent::Arrived(full_snapshot())).is_none());
    assert!(enc.step(FeedEvent::Ended).is_none());
}

#[test]
fn vanished_player_gets_one_end_and_no_more_updates() {
    let mut enc = EventStreamEncoder::start();
    let mut frames: Vec<String> = Vec::new();
    for ev in [
        FeedEvent::Arrived(bare_snapshot()),
        FeedEvent::Ended,
        FeedEvent::Arrived(full_snapshot()),
        FeedEvent::Ended,
        FeedEvent::Tick,
    ] {
        if let Some(f) = enc.step(ev) {
            frames.push(f);
        }
    }
    let ends = frames
        .iter()
        .filter(|f| f.starts_with("event: end\n"))
        .count();
    assert_eq!(ends, 1);
    let after_end: Vec<&String> = frames
        .iter()
        .skip_while(|f| !f.starts_with("event: end\n"))
        .skip(1)
        .collect();
    assert!(after_end.is_empty());
}

#[test]
fn pulses_never_displace_updates() {
    let mut enc = EventStreamEncoder::start();
    let mut frames: Vec<String> = Vec::new();
    for ev in [
        FeedEvent::Arrived(bare_snapshot()),
        FeedEvent::Tick,
        FeedEvent::Arrived(full_snapshot()),
        FeedEvent::Tick,
    ] {
        if let Some(f) = enc.step(ev) {
            frames.push(f);
        }
    }
    let updates = frames
        .iter()
        .filter(|f| f.starts_with("event: update\n"))
        .count();
    let pulses = frames.iter().filter(|f| *f == ":\n").count();
    assert_eq!(updates, 2);
    assert_eq!(pulses, 2);
    assert!(frames[0].starts_with("event: update\n"));
    assert!(frames[2].starts_with("event: update\n"));
}

#[test]
fn concatenated_frames_split_back_apart() {
    let mut enc = EventStreamEncoder::start();
    let mut wire = String::new();
    for ev in [
        FeedEvent::Arrived(bare_snapshot()),
        FeedEvent::Tick,
        FeedEvent::Arrived(full_snapshot()),
        FeedEvent::Ended,
    ] {
        if let Some(f) = enc.step(ev) {
            wire.push_str(&f);
        }
    }
    let mut kinds: Vec<&str> = Vec::new();
    let mut rest = wire.as_str();
    while !rest.is_empty() {
        if let Some(after) = rest.strip_prefix(":\n") {
            kinds.push("pulse");
            rest = after;
        } else if let Some(after) = rest.strip_prefix("event: end\ndata: \n\n") {
            kinds.push("end");
            rest = after;
        } else if let Some(after) = rest.strip_prefix("event: update\ndata: ") {
            let line_break = after.find('\n').expect("a data line ends");
            assert_eq!(&after[line_break..line_break + 2], "\n\n");
            let body: serde_json::Value = serde_json::from_str(&after[..line_break]).unwrap();
            assert!(body.is_object());
            kinds.push("update");
            rest = &after[line_break + 2..];
        } else {
            panic!("unparseable frame at: {}", rest);
        }
    }
    assert_eq!(kinds, vec!["update", "pulse", "update", "end"]);
}

#[test]
fn stream_headers_disable_buffering_and_declare_type() {
    let headers = mpris_bridge::sse::stream_headers();
    assert_eq!(headers.len(), 2);
    assert_eq!(headers[0].0, "Content-Type");
    assert_eq!(headers[0].1, "text/event-stream");
    assert_eq!(headers[1].0, "X-Accel-Buffering");
    assert_eq!(headers[1].1, "no");
}
