//! The event-stream encoder: turns the snapshot feed of one subscription,
//! together with periodic keep-alive ticks, into line-framed text events.
//! Each snapshot becomes one `update` event, each tick one comment pulse,
//! and the end of the feed exactly one terminal `end` event after which
//! nothing more is written.

use vstd::prelude::*;

use crate::snapshot::lemma_snapshot_json_line_safe;
use crate::snapshot::snapshot_json;
use crate::snapshot::snapshot_numbers_valid;
use crate::snapshot::StateSnapshot;
use crate::text::is_prefix;
use crate::text::line_safe;

verus! {

/// Seconds between two keep-alive pulses.
pub const KEEP_ALIVE_SECONDS: u64 = 30;

/// What the encoder writes: an `update` event carrying one snapshot, a
/// comment pulse carrying nothing, or the terminal `end` event.
pub enum StreamFrame {
    Update(StateSnapshot),
    Pulse,
    End,
}

/// What one subscription feeds the encoder: a fresh snapshot, a keep-alive
/// tick, or the end of the feed.
pub enum FeedEvent {
    Arrived(StateSnapshot),
    Tick,
    Ended,
}

/// The wire text of one frame.  An update is framed as an event name line,
/// one data line holding the snapshot's JSON object, and a blank line; a
/// pulse is a bare comment line; the end event carries empty data.
pub open spec fn frame_text(f: StreamFrame) -> Seq<char> {
    match f {
        StreamFrame::Update(s) => "event: update\ndata: "@ + snapshot_json(s) + "\n\n"@,
        StreamFrame::Pulse => ":\n"@,
        StreamFrame::End => "event: end\ndata: \n\n"@,
    }
}

/// The two live phases of one connection: streaming, or terminal once the
/// feed has ended.
pub enum EncoderPhase {
    Streaming,
    Terminal,
}

/// The phase after one event.
pub open spec fn phase_after(p: EncoderPhase, ev: FeedEvent) -> EncoderPhase {
    match p {
        EncoderPhase::Terminal => EncoderPhase::Terminal,
        EncoderPhase::Streaming => match ev {
            FeedEvent::Ended => EncoderPhase::Terminal,
            _ => EncoderPhase::Streaming,
        },
    }
}

/// The frames one event makes the encoder write: nothing once terminal,
/// otherwise exactly one frame of the matching kind.
pub open spec fn emitted(p: EncoderPhase, ev: FeedEvent) -> Seq<StreamFrame> {
    match p {
        EncoderPhase::Terminal => Seq::empty(),
        EncoderPhase::Streaming => match ev {
            FeedEvent::Arrived(s) => seq![StreamFrame::Update(s)],
            FeedEvent::Tick => seq![StreamFrame::Pulse],
            FeedEvent::Ended => seq![StreamFrame::End],
        },
    }
}

/// All frames written over a whole sequence of events.
pub open spec fn run_encoder(p: EncoderPhase, events: Seq<FeedEvent>) -> Seq<StreamFrame>
    decreases events.len(),
{
    if events.len() == 0 {
        Seq::empty()
    } else {
        emitted(p, events.first()) + run_encoder(phase_after(p, events.first()), events.drop_first())
    }
}

/// Whether the feed ends somewhere in these events.
pub open spec fn has_ended(events: Seq<FeedEvent>) -> bool {
    exists|i: int| 0 <= i < events.len() && events[i] is Ended
}

/// The events before the feed's first end.
pub open spec fn before_end(events: Seq<FeedEvent>) -> Seq<FeedEvent>
    decreases events.len(),
{
    if events.len() == 0 {
        Seq::empty()
    } else if events.first() is Ended {
        Seq::empty()
    } else {
        seq![events.first()] + before_end(events.drop_first())
    }
}

/// The snapshots these events deliver, in arrival order.
pub open spec fn arrivals_of(events: Seq<FeedEvent>) -> Seq<StateSnapshot>
    decreases events.len(),
{
    if events.len() == 0 {
        Seq::empty()
    } else {
        (match events.first() {
            FeedEvent::Arrived(s) => seq![s],
            _ => Seq::empty(),
        }) + arrivals_of(events.drop_first())
    }
}

/// The snapshots these frames carry, in writing order.
pub open spec fn updates_of(frames: Seq<StreamFrame>) -> Seq<StateSnapshot>
    decreases frames.len(),
{
    if frames.len() == 0 {
        Seq::empty()
    } else {
        (match frames.first() {
            StreamFrame::Update(s) => seq![s],
            _ => Seq::empty(),
        }) + updates_of(frames.drop_first())
    }
}

/// A terminal encoder writes nothing more, whatever else arrives.
pub proof fn lemma_terminal_silent(events: Seq<FeedEvent>)
    ensures
        run_encoder(EncoderPhase::Terminal, events) == Seq::<StreamFrame>::empty(),
    decreases events.len(),
{
    if events.len() > 0 {
        lemma_terminal_silent(events.drop_first());
        assert(run_encoder(EncoderPhase::Terminal, events) =~= Seq::<StreamFrame>::empty());
    }
}

/// A subscription's frame stream holds exactly one `end` frame when its
/// feed ends, none before that, and the `end` frame is the last frame
/// written: no update and no pulse follows it.
pub proof fn lemma_single_end(events: Seq<FeedEvent>)
    ensures
        !has_ended(events) ==> forall|i: int|
            0 <= i < run_encoder(EncoderPhase::Streaming, events).len() ==> !(run_encoder(
                EncoderPhase::Streaming,
                events,
            )[i] is End),
        has_ended(events) ==> {
            let fr = run_encoder(EncoderPhase::Streaming, events);
            &&& fr.len() >= 1
            &&& fr.last() is End
            &&& forall|i: int| 0 <= i < fr.len() - 1 ==> !(fr[i] is End)
        },
    decreases events.len(),
{
    let fr = run_encoder(EncoderPhase::Streaming, events);
    if events.len() == 0 {
        assert(!has_ended(events));
    } else {
        let e0 = events.first();
        let rest = events.drop_first();
        if e0 is Ended {
            lemma_terminal_silent(rest);
            assert(fr =~= seq![StreamFrame::End]);
            assert(has_ended(events)) by {
                assert(events[0] is Ended);
            }
        } else {
            lemma_single_end(rest);
            let tail = run_encoder(EncoderPhase::Streaming, rest);
            assert(fr =~= emitted(EncoderPhase::Streaming, e0) + tail);
            assert(emitted(EncoderPhase::Streaming, e0).len() == 1);
            assert(!(fr[0] is End));
            assert(has_ended(events) == has_ended(rest)) by {
                if has_ended(rest) {
                    let j = choose|j: int| 0 <= j < rest.len() && rest[j] is Ended;
                    assert(events[j + 1] is Ended);
                }
                if has_ended(events) {
                    let j = choose|j: int| 0 <= j < events.len() && events[j] is Ended;
                    assert(j != 0);
                    assert(rest[j - 1] is Ended);
                }
            }
            assert(forall|i: int| 1 <= i < fr.len() ==> fr[i] == tail[i - 1]);
        }
    }
}

/// Pulses never replace or delay an update and coalesced updates are never
/// reordered: up to the end of the feed, the stream carries exactly the
/// delivered snapshots, in delivery order.
pub proof fn lemma_updates_faithful(events: Seq<FeedEvent>)
    ensures
        updates_of(run_encoder(EncoderPhase::Streaming, events)) == arrivals_of(
            before_end(events),
        ),
    decreases events.len(),
{
    let fr = run_encoder(EncoderPhase::Streaming, events);
    if events.len() == 0 {
        assert(updates_of(fr) =~= arrivals_of(before_end(events)));
    } else {
        let e0 = events.first();
        let rest = events.drop_first();
        if e0 is Ended {
            lemma_terminal_silent(rest);
            assert(fr =~= seq![StreamFrame::End]);
            assert(fr.first() is End);
            assert(fr.drop_first() =~= Seq::<StreamFrame>::empty());
            assert(updates_of(fr.drop_first()) =~= Seq::<StateSnapshot>::empty());
            assert(updates_of(fr) =~= Seq::<StateSnapshot>::empty());
            assert(arrivals_of(before_end(events)) =~= Seq::<StateSnapshot>::empty());
        } else {
            lemma_updates_faithful(rest);
            let tail = run_encoder(EncoderPhase::Streaming, rest);
            let em = emitted(EncoderPhase::Streaming, e0);
            assert(fr == em + tail);
            assert((em + tail).drop_first() =~= tail);
            assert(before_end(events) == seq![e0] + before_end(rest));
            assert((seq![e0] + before_end(rest)).drop_first() =~= before_end(rest));
            match e0 {
                FeedEvent::Arrived(s) => {
                    assert(updates_of(fr) =~= seq![s] + updates_of(tail));
                    assert(arrivals_of(before_end(events)) =~= seq![s] + arrivals_of(
                        before_end(rest),
                    ));
                },
                FeedEvent::Tick => {
                    assert(updates_of(fr) =~= updates_of(tail));
                    assert(arrivals_of(before_end(events)) =~= arrivals_of(before_end(rest)));
                },
                FeedEvent::Ended => {},
            }
        }
    }
}

/// Once any snapshot is delivered before the feed ends, an `update` frame
/// stands in the stream before every `end` frame.
pub proof fn lemma_update_before_end(events: Seq<FeedEvent>) -> (i: int)
    requires
        arrivals_of(before_end(events)).len() > 0,
    ensures
        0 <= i < run_encoder(EncoderPhase::Streaming, events).len(),
        run_encoder(EncoderPhase::Streaming, events)[i] is Update,
        forall|j: int|
            0 <= j < run_encoder(EncoderPhase::Streaming, events).len() && #[trigger] run_encoder(
                EncoderPhase::Streaming,
                events,
            )[j] is End ==> i < j,
{
    let fr = run_encoder(EncoderPhase::Streaming, events);
    lemma_single_end(events);
    lemma_updates_faithful(events);
    lemma_updates_nonempty_implies_update(fr);
    let i = choose|i: int| 0 <= i < fr.len() && fr[i] is Update;
    assert forall|j: int| 0 <= j < fr.len() && #[trigger] fr[j] is End implies i < j by {
        if has_ended(events) {
            assert(j == fr.len() - 1);
            assert(i != j);
        }
    }
    i
}

proof fn lemma_updates_nonempty_implies_update(frames: Seq<StreamFrame>)
    requires
        updates_of(frames).len() > 0,
    ensures
        exists|i: int| 0 <= i < frames.len() && frames[i] is Update,
    decreases frames.len(),
{
    if frames.len() > 0 {
        if frames.first() is Update {
            assert(frames[0] is Update);
        } else {
            assert(updates_of(frames) == updates_of(frames.drop_first()));
            lemma_updates_nonempty_implies_update(frames.drop_first());
            let i = choose|i: int|
                0 <= i < frames.drop_first().len() && frames.drop_first()[i] is Update;
            assert(frames[i + 1] is Update);
        }
    }
}

/// The per-connection encoder.  It starts streaming as soon as the
/// subscription is open and writes one frame per feed event until the feed
/// ends.
pub struct EventStreamEncoder {
    phase: EncoderPhase,
}

impl EventStreamEncoder {
    /// The phase the encoder is in.
    pub closed spec fn phase_spec(&self) -> EncoderPhase {
        self.phase
    }

    /// A fresh encoder for a newly opened subscription.
    pub fn start() -> (r: EventStreamEncoder)
        ensures
            r.phase_spec() is Streaming,
    {
        EventStreamEncoder { phase: EncoderPhase::Streaming }
    }

    /// Handles one feed event: returns the text to write, if any, and moves
    /// to the next phase.
    pub fn step(&mut self, ev: FeedEvent) -> (out: Option<String>)
        ensures
            final(self).phase_spec() == phase_after(old(self).phase_spec(), ev),
            out is Some <==> emitted(old(self).phase_spec(), ev).len() > 0,
            out is Some ==> out->Some_0@ == frame_text(emitted(old(self).phase_spec(), ev)[0]),
    {
        match self.phase {
            EncoderPhase::Terminal => None,
            EncoderPhase::Streaming => match ev {
                FeedEvent::Arrived(s) => {
                    let mut out = String::new();
                    out.append("event: update\ndata: ");
                    let body = s.encode_json();
                    out.append(body.as_str());
                    out.append("\n\n");
                    Some(out)
                },
                FeedEvent::Tick => {
                    let mut out = String::new();
                    out.append(":\n");
                    Some(out)
                },
                FeedEvent::Ended => {
                    self.phase = EncoderPhase::Terminal;
                    let mut out = String::new();
                    out.append("event: end\ndata: \n\n");
                    Some(out)
                },
            },
        }
    }
}

/// One frame as the wire grammar recovers it: its kind, and for an update
/// the text of its data line.
pub enum ParsedFrame {
    Update(Seq<char>),
    Pulse,
    End,
}

/// What the wire grammar should recover from one written frame.
pub open spec fn frame_parsed(f: StreamFrame) -> ParsedFrame {
    match f {
        StreamFrame::Update(s) => ParsedFrame::Update(snapshot_json(s)),
        StreamFrame::Pulse => ParsedFrame::Pulse,
        StreamFrame::End => ParsedFrame::End,
    }
}

/// The whole text written for a sequence of frames.
pub open spec fn stream_text(frames: Seq<StreamFrame>) -> Seq<char>
    decreases frames.len(),
{
    if frames.len() == 0 {
        Seq::empty()
    } else {
        frame_text(frames.first()) + stream_text(frames.drop_first())
    }
}

/// What the wire grammar should recover from a whole frame sequence.
pub open spec fn parsed_all(frames: Seq<StreamFrame>) -> Seq<ParsedFrame>
    decreases frames.len(),
{
    if frames.len() == 0 {
        Seq::empty()
    } else {
        seq![frame_parsed(frames.first())] + parsed_all(frames.drop_first())
    }
}

/// The first newline at or after `i`.
pub open spec fn line_end(s: Seq<char>, i: int) -> int
    decreases s.len() - i,
{
    if i < 0 || i >= s.len() {
        i
    } else if s[i] == '\n' {
        i
    } else {
        line_end(s, i + 1)
    }
}

/// Reads one frame off the front of the text: a comment line is a pulse,
/// the terminal literal is the end event, and an update header is followed
/// by one data line and a blank line.  Returns the frame and how much text
/// it took.
pub open spec fn parse_one(s: Seq<char>) -> Option<(ParsedFrame, int)> {
    if is_prefix(":\n"@, s) {
        Some((ParsedFrame::Pulse, ":\n"@.len() as int))
    } else if is_prefix("event: end\ndata: \n\n"@, s) {
        Some((ParsedFrame::End, "event: end\ndata: \n\n"@.len() as int))
    } else if is_prefix("event: update\ndata: "@, s) {
        let h = "event: update\ndata: "@.len() as int;
        let j = line_end(s, h);
        if j + 1 < s.len() && s[j + 1] == '\n' {
            Some((ParsedFrame::Update(s.subrange(h, j)), j + 2))
        } else {
            None
        }
    } else {
        None
    }
}

/// Splits a whole text into frames, front to back; fails on any text that
/// is not a sequence of well-formed frames.
pub open spec fn parse_stream(s: Seq<char>) -> Option<Seq<ParsedFrame>>
    decreases s.len(),
{
    if s.len() == 0 {
        Some(Seq::empty())
    } else {
        match parse_one(s) {
            None => None,
            Some((f, k)) => if 0 < k <= s.len() {
                match parse_stream(s.skip(k)) {
                    None => None,
                    Some(rest) => Some(seq![f] + rest),
                }
            } else {
                None
            },
        }
    }
}

proof fn lemma_line_end_found(s: Seq<char>, i: int, j: int)
    requires
        0 <= i <= j < s.len(),
        forall|k: int| i <= k < j ==> s[k] != '\n',
        s[j] == '\n',
    ensures
        line_end(s, i) == j,
    decreases j - i,
{
    if i < j {
        lemma_line_end_found(s, i + 1, j);
    }
}

proof fn lemma_parse_one_frame(f: StreamFrame, t: Seq<char>)
    requires
        f matches StreamFrame::Update(s) ==> snapshot_numbers_valid(s),
    ensures
        frame_text(f).len() > 0,
        parse_one(frame_text(f) + t) == Some((frame_parsed(f), frame_text(f).len() as int)),
{
    reveal_strlit(":\n");
    reveal_strlit("event: end\ndata: \n\n");
    reveal_strlit("event: update\ndata: ");
    reveal_strlit("\n\n");
    let s = frame_text(f) + t;
    match f {
        StreamFrame::Pulse => {
            assert(s.subrange(0, 2) =~= ":\n"@);
        },
        StreamFrame::End => {
            assert(s[0] == 'e');
            assert(!is_prefix(":\n"@, s)) by {
                if is_prefix(":\n"@, s) {
                    assert(s.subrange(0, 2)[0] == ':');
                }
            }
            assert(s.subrange(0, 19) =~= "event: end\ndata: \n\n"@);
        },
        StreamFrame::Update(snap) => {
            let body = snapshot_json(snap);
            let h: int = 20;
            assert(frame_text(f).len() == h + body.len() + 2);
            assert(s[0] == 'e');
            assert(!is_prefix(":\n"@, s)) by {
                if is_prefix(":\n"@, s) {
                    assert(s.subrange(0, 2)[0] == ':');
                }
            }
            assert(s[7] == 'u');
            assert(!is_prefix("event: end\ndata: \n\n"@, s)) by {
                if is_prefix("event: end\ndata: \n\n"@, s) {
                    assert(s.subrange(0, 19)[7] == 'e');
                }
            }
            assert(s.subrange(0, h) =~= "event: update\ndata: "@);
            assert(is_prefix("event: update\ndata: "@, s));
            lemma_snapshot_json_line_safe(snap);
            let j = h + body.len();
            assert forall|k: int| h <= k < j implies s[k] != '\n' by {
                assert(s[k] == body[k - h]);
                assert(line_safe(body));
            }
            assert(s[j] == "\n\n"@[0]);
            assert(s[j + 1] == "\n\n"@[1]);
            assert(s[j] == '\n' && s[j + 1] == '\n');
            lemma_line_end_found(s, h, j);
            assert(s.subrange(h, j) =~= body);
        },
    }
}

/// The written stream re-splits into exactly the frames that were written:
/// frames are flushed whole, in order, and no interleaving of updates,
/// pulses and the end event can corrupt or merge them.
pub proof fn lemma_stream_parses_back(frames: Seq<StreamFrame>)
    requires
        forall|i: int|
            0 <= i < frames.len() ==> (#[trigger] frames[i] matches StreamFrame::Update(s)
                ==> snapshot_numbers_valid(s)),
    ensures
        parse_stream(stream_text(frames)) == Some(parsed_all(frames)),
    decreases frames.len(),
{
    if frames.len() == 0 {
        assert(parse_stream(stream_text(frames)) == Some(Seq::<ParsedFrame>::empty()));
        assert(parsed_all(frames) =~= Seq::<ParsedFrame>::empty());
    } else {
        let f0 = frames.first();
        let rest = frames.drop_first();
        assert(frames[0] == f0);
        assert(forall|i: int|
            0 <= i < rest.len() ==> (#[trigger] rest[i] matches StreamFrame::Update(s)
                ==> snapshot_numbers_valid(s))) by {
            assert(forall|i: int| 0 <= i < rest.len() ==> rest[i] == frames[i + 1]);
        }
        lemma_stream_parses_back(rest);
        let tail_text = stream_text(rest);
        lemma_parse_one_frame(f0, tail_text);
        let s = stream_text(frames);
        assert(s == frame_text(f0) + tail_text);
        let k = frame_text(f0).len() as int;
        assert(s.skip(k) =~= tail_text);
        assert(parse_stream(s) == Some(seq![frame_parsed(f0)] + parsed_all(rest)));
        assert(seq![frame_parsed(f0)] + parsed_all(rest) =~= parsed_all(frames));
    }
}

/// The response headers of the streaming endpoint: the event-stream content
/// type, and a marker that disables buffering at intermediaries.
pub fn stream_headers() -> (r: Vec<(String, String)>)
    ensures
        r@.len() == 2,
        r@[0].0@ == "Content-Type"@ && r@[0].1@ == "text/event-stream"@,
        r@[1].0@ == "X-Accel-Buffering"@ && r@[1].1@ == "no"@,
{
    let mut r: Vec<(String, String)> = Vec::new();
    r.push((String::from_str("Content-Type"), String::from_str("text/event-stream")));
    r.push((String::from_str("X-Accel-Buffering"), String::from_str("no")));
    r
}

} // verus!
