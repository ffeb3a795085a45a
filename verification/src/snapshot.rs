//! The state snapshot: a complete, point-in-time description of one
//! player's playback state, and its rendering as a single-line JSON object.
//! Every field but `running` is optional; absence means unknown and renders
//! as `null`, never as a made-up zero or `false`.

use vstd::prelude::*;

use crate::numbertext::NumberText;
use crate::text::dec_seq;
use crate::text::esc_text;
use crate::text::lemma_dec_seq_line_safe;
use crate::text::lemma_esc_text_line_safe;
use crate::text::lemma_line_safe_concat;
use crate::text::line_safe;
use crate::text::push_decimal;
use crate::text::push_escaped;

verus! {

/// One complete reading of a player's state.  Created fresh on every
/// upstream event and never mutated afterwards.
#[derive(Clone)]
pub struct StateSnapshot {
    /// Playback position, in microseconds.
    pub position: u64,
    /// Total length, in microseconds, where the player reports one.
    pub length: Option<u64>,
    /// Track title, where the player reports one.
    pub title: Option<String>,
    /// Whether the player is currently playing.
    pub running: bool,
    /// Playback rate as decimal text, where the player reports one.
    pub playback_rate: Option<NumberText>,
    /// Cache-busting token of the art reference.
    pub art_url_hash: u64,
    pub can_control: bool,
    pub can_go_next: bool,
    pub can_go_prev: bool,
    pub can_seek: bool,
    pub has_volume: bool,
    /// Volume as decimal text, where the player reports one.
    pub volume: Option<NumberText>,
}

/// How an optional counter renders in the JSON object.
pub open spec fn opt_u64_json(v: Option<u64>) -> Seq<char> {
    match v {
        None => "null"@,
        Some(n) => dec_seq(n as nat),
    }
}

/// How a boolean renders in the JSON object.
pub open spec fn bool_json(b: bool) -> Seq<char> {
    if b {
        "true"@
    } else {
        "false"@
    }
}

/// How an optional checked number rendering appears in the JSON object.
pub open spec fn opt_number_json(v: Option<NumberText>) -> Seq<char> {
    match v {
        None => "null"@,
        Some(t) => t.chars(),
    }
}

/// How an optional free-form text renders in the JSON object: quoted and
/// escaped.
pub open spec fn opt_string_json(v: Option<String>) -> Seq<char> {
    match v {
        None => "null"@,
        Some(t) => "\""@ + esc_text(t@) + "\""@,
    }
}

/// The JSON object for one snapshot: every field present, unknown values as
/// `null`, keys in a fixed order, no whitespace.
pub open spec fn snapshot_json(s: StateSnapshot) -> Seq<char> {
    "{\"position\":"@ + dec_seq(s.position as nat) + ",\"length\":"@ + opt_u64_json(s.length)
        + ",\"title\":"@ + opt_string_json(s.title) + ",\"running\":"@ + bool_json(s.running)
        + ",\"playback_rate\":"@ + opt_number_json(s.playback_rate) + ",\"art_url_hash\":"@
        + dec_seq(s.art_url_hash as nat) + ",\"can_control\":"@ + bool_json(s.can_control)
        + ",\"can_go_next\":"@ + bool_json(s.can_go_next) + ",\"can_go_prev\":"@ + bool_json(
        s.can_go_prev,
    ) + ",\"can_seek\":"@ + bool_json(s.can_seek) + ",\"has_volume\":"@ + bool_json(s.has_volume)
        + ",\"volume\":"@ + opt_number_json(s.volume) + "}"@
}

/// What must hold of a snapshot's number texts for its JSON rendering to be
/// well formed; every snapshot built from checked texts satisfies it.
pub open spec fn snapshot_numbers_valid(s: StateSnapshot) -> bool {
    &&& (s.playback_rate is Some ==> crate::numbertext::is_json_number(
        s.playback_rate->Some_0.chars(),
    ))
    &&& (s.volume is Some ==> crate::numbertext::is_json_number(s.volume->Some_0.chars()))
}

proof fn lemma_literal_line_safe()
    ensures
        line_safe("{\"position\":"@),
        line_safe(",\"length\":"@),
        line_safe(",\"title\":"@),
        line_safe(",\"running\":"@),
        line_safe(",\"playback_rate\":"@),
        line_safe(",\"art_url_hash\":"@),
        line_safe(",\"can_control\":"@),
        line_safe(",\"can_go_next\":"@),
        line_safe(",\"can_go_prev\":"@),
        line_safe(",\"can_seek\":"@),
        line_safe(",\"has_volume\":"@),
        line_safe(",\"volume\":"@),
        line_safe("}"@),
        line_safe("null"@),
        line_safe("true"@),
        line_safe("false"@),
        line_safe("\""@),
{
    reveal_strlit("{\"position\":");
    reveal_strlit(",\"length\":");
    reveal_strlit(",\"title\":");
    reveal_strlit(",\"running\":");
    reveal_strlit(",\"playback_rate\":");
    reveal_strlit(",\"art_url_hash\":");
    reveal_strlit(",\"can_control\":");
    reveal_strlit(",\"can_go_next\":");
    reveal_strlit(",\"can_go_prev\":");
    reveal_strlit(",\"can_seek\":");
    reveal_strlit(",\"has_volume\":");
    reveal_strlit(",\"volume\":");
    reveal_strlit("}");
    reveal_strlit("null");
    reveal_strlit("true");
    reveal_strlit("false");
    reveal_strlit("\"");
}

proof fn lemma_opt_u64_line_safe(v: Option<u64>)
    ensures
        line_safe(opt_u64_json(v)),
{
    lemma_literal_line_safe();
    match v {
        None => {},
        Some(n) => {
            lemma_dec_seq_line_safe(n as nat);
        },
    }
}

proof fn lemma_bool_line_safe(b: bool)
    ensures
        line_safe(bool_json(b)),
{
    lemma_literal_line_safe();
}

proof fn lemma_opt_string_line_safe(v: Option<String>)
    ensures
        line_safe(opt_string_json(v)),
{
    lemma_literal_line_safe();
    match v {
        None => {},
        Some(t) => {
            lemma_esc_text_line_safe(t@);
            lemma_line_safe_concat("\""@, esc_text(t@));
            lemma_line_safe_concat("\""@ + esc_text(t@), "\""@);
        },
    }
}

proof fn lemma_opt_number_line_safe(v: Option<NumberText>)
    requires
        v is Some ==> crate::numbertext::is_json_number(v->Some_0.chars()),
    ensures
        line_safe(opt_number_json(v)),
{
    lemma_literal_line_safe();
    match v {
        None => {},
        Some(t) => {
            crate::numbertext::lemma_number_chars(t.chars());
        },
    }
}

/// The JSON object of a snapshot never leaves its line, so it can stand as
/// the one data line of an event-stream frame.
pub proof fn lemma_snapshot_json_line_safe(s: StateSnapshot)
    requires
        snapshot_numbers_valid(s),
    ensures
        line_safe(snapshot_json(s)),
{
    lemma_literal_line_safe();
    lemma_dec_seq_line_safe(s.position as nat);
    lemma_dec_seq_line_safe(s.art_url_hash as nat);
    lemma_opt_u64_line_safe(s.length);
    lemma_opt_string_line_safe(s.title);
    lemma_bool_line_safe(s.running);
    lemma_opt_number_line_safe(s.playback_rate);
    lemma_bool_line_safe(s.can_control);
    lemma_bool_line_safe(s.can_go_next);
    lemma_bool_line_safe(s.can_go_prev);
    lemma_bool_line_safe(s.can_seek);
    lemma_bool_line_safe(s.has_volume);
    lemma_opt_number_line_safe(s.volume);
    let p1 = "{\"position\":"@ + dec_seq(s.position as nat);
    lemma_line_safe_concat("{\"position\":"@, dec_seq(s.position as nat));
    let p2 = p1 + ",\"length\":"@;
    lemma_line_safe_concat(p1, ",\"length\":"@);
    let p3 = p2 + opt_u64_json(s.length);
    lemma_line_safe_concat(p2, opt_u64_json(s.length));
    let p4 = p3 + ",\"title\":"@;
    lemma_line_safe_concat(p3, ",\"title\":"@);
    let p5 = p4 + opt_string_json(s.title);
    lemma_line_safe_concat(p4, opt_string_json(s.title));
    let p6 = p5 + ",\"running\":"@;
    lemma_line_safe_concat(p5, ",\"running\":"@);
    let p7 = p6 + bool_json(s.running);
    lemma_line_safe_concat(p6, bool_json(s.running));
    let p8 = p7 + ",\"playback_rate\":"@;
    lemma_line_safe_concat(p7, ",\"playback_rate\":"@);
    let p9 = p8 + opt_number_json(s.playback_rate);
    lemma_line_safe_concat(p8, opt_number_json(s.playback_rate));
    let p10 = p9 + ",\"art_url_hash\":"@;
    lemma_line_safe_concat(p9, ",\"art_url_hash\":"@);
    let p11 = p10 + dec_seq(s.art_url_hash as nat);
    lemma_line_safe_concat(p10, dec_seq(s.art_url_hash as nat));
    let p12 = p11 + ",\"can_control\":"@;
    lemma_line_safe_concat(p11, ",\"can_control\":"@);
    let p13 = p12 + bool_json(s.can_control);
    lemma_line_safe_concat(p12, bool_json(s.can_control));
    let p14 = p13 + ",\"can_go_next\":"@;
    lemma_line_safe_concat(p13, ",\"can_go_next\":"@);
    let p15 = p14 + bool_json(s.can_go_next);
    lemma_line_safe_concat(p14, bool_json(s.can_go_next));
    let p16 = p15 + ",\"can_go_prev\":"@;
    lemma_line_safe_concat(p15, ",\"can_go_prev\":"@);
    let p17 = p16 + bool_json(s.can_go_prev);
    lemma_line_safe_concat(p16, bool_json(s.can_go_prev));
    let p18 = p17 + ",\"can_seek\":"@;
    lemma_line_safe_concat(p17, ",\"can_seek\":"@);
    let p19 = p18 + bool_json(s.can_seek);
    lemma_line_safe_concat(p18, bool_json(s.can_seek));
    let p20 = p19 + ",\"has_volume\":"@;
    lemma_line_safe_concat(p19, ",\"has_volume\":"@);
    let p21 = p20 + bool_json(s.has_volume);
    lemma_line_safe_concat(p20, bool_json(s.has_volume));
    let p22 = p21 + ",\"volume\":"@;
    lemma_line_safe_concat(p21, ",\"volume\":"@);
    let p23 = p22 + opt_number_json(s.volume);
    lemma_line_safe_concat(p22, opt_number_json(s.volume));
    lemma_line_safe_concat(p23, "}"@);
    assert(snapshot_json(s) == p23 + "}"@);
}

fn push_opt_u64(out: &mut String, v: &Option<u64>)
    ensures
        final(out)@ == old(out)@ + opt_u64_json(*v),
{
    match v {
        None => out.append("null"),
        Some(n) => push_decimal(out, *n),
    }
}

fn push_bool(out: &mut String, b: bool)
    ensures
        final(out)@ == old(out)@ + bool_json(b),
{
    if b {
        out.append("true");
    } else {
        out.append("false");
    }
}

fn push_opt_number(out: &mut String, v: &Option<NumberText>)
    ensures
        final(out)@ == old(out)@ + opt_number_json(*v),
{
    match v {
        None => out.append("null"),
        Some(t) => out.append(t.as_text()),
    }
}

fn push_opt_string(out: &mut String, v: &Option<String>)
    ensures
        final(out)@ == old(out)@ + opt_string_json(*v),
{
    match v {
        None => out.append("null"),
        Some(t) => {
            out.append("\"");
            push_escaped(out, t.as_str());
            out.append("\"");
        },
    }
}

impl StateSnapshot {
    /// Recovers, from the type invariants of the number texts, that this
    /// snapshot renders to well-formed JSON.
    pub fn confirm_numbers_valid(&self)
        ensures
            snapshot_numbers_valid(*self),
    {
        match &self.playback_rate {
            Some(t) => {
                proof {
                    use_type_invariant(t);
                    t.lemma_valid();
                }
            },
            None => {},
        }
        match &self.volume {
            Some(t) => {
                proof {
                    use_type_invariant(t);
                    t.lemma_valid();
                }
            },
            None => {},
        }
    }

    /// Renders the snapshot as its JSON object, on a single line.
    pub fn encode_json(&self) -> (out: String)
        ensures
            out@ == snapshot_json(*self),
            line_safe(out@),
    {
        self.confirm_numbers_valid();
        let mut out = String::new();
        out.append("{\"position\":");
        push_decimal(&mut out, self.position);
        out.append(",\"length\":");
        push_opt_u64(&mut out, &self.length);
        out.append(",\"title\":");
        push_opt_string(&mut out, &self.title);
        out.append(",\"running\":");
        push_bool(&mut out, self.running);
        out.append(",\"playback_rate\":");
        push_opt_number(&mut out, &self.playback_rate);
        out.append(",\"art_url_hash\":");
        push_decimal(&mut out, self.art_url_hash);
        out.append(",\"can_control\":");
        push_bool(&mut out, self.can_control);
        out.append(",\"can_go_next\":");
        push_bool(&mut out, self.can_go_next);
        out.append(",\"can_go_prev\":");
        push_bool(&mut out, self.can_go_prev);
        out.append(",\"can_seek\":");
        push_bool(&mut out, self.can_seek);
        out.append(",\"has_volume\":");
        push_bool(&mut out, self.has_volume);
        out.append(",\"volume\":");
        push_opt_number(&mut out, &self.volume);
        out.append("}");
        proof {
            lemma_snapshot_json_line_safe(*self);
        }
        out
    }
}

} // verus!
