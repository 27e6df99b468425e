//! Decisions of the engine daemon on each frame of a connection, and the
//! replies it sends. The daemon owns the recogniser and the segmenter; it
//! asks this state machine what a frame means and when a partial decode is
//! due, and sends the payloads built here.

use vstd::prelude::*;

use crate::payload::{json_quoted, message_payload, utf8_bytes};
use crate::proto::{AUDIO, HELLO, START, STOP};
use vstd::string::StringExecFns;
use vstd::utf8::encode_utf8;

verus! {

/// Partial decodes are sent every 0.4 s of received audio (a data-driven
/// cadence, so a streamed file and live capture behave alike).
pub const PARTIAL_EVERY_SAMPLES: usize = 6400;

/// What the daemon does with a received frame.
#[derive(Debug, Clone, Copy, PartialEq, Eq)]
pub enum FrameAction {
    /// HELLO: answer READY.
    Greet,
    /// START: begin a new recording session (a running one is replaced).
    Begin,
    /// AUDIO within a session: feed the samples to the segmenter.
    Feed,
    /// AUDIO before START: answer ERROR.
    RejectAudio,
    /// STOP: flush the session if there is one, then answer STOPPED.
    Finish { flush: bool },
    /// Any other type: answer ERROR naming it.
    RejectKind(u8),
}

/// The action for a frame of type `kind` when a session runs (`active`)
/// or not.
pub open spec fn action_for(kind: u8, active: bool) -> FrameAction {
    if kind == HELLO {
        FrameAction::Greet
    } else if kind == START {
        FrameAction::Begin
    } else if kind == AUDIO {
        if active {
            FrameAction::Feed
        } else {
            FrameAction::RejectAudio
        }
    } else if kind == STOP {
        FrameAction::Finish { flush: active }
    } else {
        FrameAction::RejectKind(kind)
    }
}

/// Whether a session runs after a frame of type `kind`.
pub open spec fn active_after(kind: u8, active: bool) -> bool {
    if kind == START {
        true
    } else if kind == STOP {
        false
    } else {
        active
    }
}

/// Audio is fed exactly while a session runs: START opens one, STOP
/// closes it (and a second STOP has nothing to flush), and HELLO and
/// AUDIO leave it as it was.
pub proof fn lemma_session_lifecycle(active: bool)
    ensures
        action_for(AUDIO, active_after(START, active)) == FrameAction::Feed,
        action_for(AUDIO, active_after(STOP, active)) == FrameAction::RejectAudio,
        action_for(STOP, active_after(STOP, active)) == (FrameAction::Finish { flush: false }),
        active_after(HELLO, active) == active,
        active_after(AUDIO, active) == active,
{
}

/// Whether a session runs after the frame types `p`, when one ran before
/// them exactly if `active`: the last START or STOP of `p` decides (a
/// START opens, a STOP closes); without either, nothing changed.
pub open spec fn session_open(p: Seq<u8>, active: bool) -> bool
    decreases p.len(),
{
    if p.len() == 0 {
        active
    } else if p.last() == START {
        true
    } else if p.last() == STOP {
        false
    } else {
        session_open(p.drop_last(), active)
    }
}

/// The actions for a stream of frame types, each taken in the state that
/// the frames before it left (see `EngineSession::on_frame`).
pub open spec fn actions_for(kinds: Seq<u8>, active: bool) -> Seq<FrameAction>
    decreases kinds.len(),
{
    if kinds.len() == 0 {
        Seq::empty()
    } else {
        actions_for(kinds.drop_last(), active).push(
            action_for(kinds.last(), session_open(kinds.drop_last(), active)),
        )
    }
}

/// Each frame's state is the one the frame before it leaves: the state
/// that `on_frame` keeps is `session_open` of the frames seen.
pub proof fn lemma_session_open_step(p: Seq<u8>, kind: u8, active: bool)
    ensures
        session_open(p.push(kind), active) == active_after(kind, session_open(p, active)),
{
    assert(p.push(kind).drop_last() == p);
}

/// Over a whole stream of frames: one action per frame; HELLO is answered
/// READY; START has no reply; every STOP, and nothing else, finishes (so
/// exactly one STOPPED per STOP), flushing when a session ran; AUDIO is fed
/// while a session runs and rejected with ERROR when none does (no START
/// since the last STOP); any other type is rejected with ERROR.
pub proof fn lemma_stream_actions(kinds: Seq<u8>, active: bool)
    ensures
        actions_for(kinds, active).len() == kinds.len(),
        forall|i: int|
            0 <= i < kinds.len() ==> #[trigger] actions_for(kinds, active)[i] == action_for(
                kinds[i],
                session_open(kinds.take(i), active),
            ),
        forall|i: int|
            0 <= i < kinds.len() && kinds[i] == HELLO ==> #[trigger] actions_for(kinds, active)[i]
                == FrameAction::Greet,
        forall|i: int|
            0 <= i < kinds.len() && kinds[i] == START ==> #[trigger] actions_for(kinds, active)[i]
                == FrameAction::Begin,
        forall|i: int|
            0 <= i < kinds.len() ==> (#[trigger] actions_for(kinds, active)[i] is Finish <==> kinds[i]
                == STOP),
        forall|i: int|
            0 <= i < kinds.len() && kinds[i] == STOP ==> #[trigger] actions_for(kinds, active)[i]
                == (FrameAction::Finish { flush: session_open(kinds.take(i), active) }),
        forall|i: int|
            0 <= i < kinds.len() && kinds[i] == AUDIO ==> #[trigger] actions_for(kinds, active)[i]
                == if session_open(kinds.take(i), active) {
                FrameAction::Feed
            } else {
                FrameAction::RejectAudio
            },
        forall|i: int|
            0 <= i < kinds.len() && kinds[i] != HELLO && kinds[i] != START && kinds[i] != AUDIO
                && kinds[i] != STOP ==> #[trigger] actions_for(kinds, active)[i]
                == FrameAction::RejectKind(kinds[i]),
    decreases kinds.len(),
{
    if kinds.len() > 0 {
        let p = kinds.drop_last();
        lemma_stream_actions(p, active);
        assert forall|i: int| 0 <= i < kinds.len() implies #[trigger] actions_for(kinds, active)[i]
            == action_for(kinds[i], session_open(kinds.take(i), active)) by {
            if i < kinds.len() - 1 {
                assert(kinds.take(i) == p.take(i));
                assert(actions_for(kinds, active)[i] == actions_for(p, active)[i]);
            } else {
                assert(kinds.take(i) == p);
            }
        }
    }
}

/// The per-connection state: whether a session runs, and the recording
/// length at which the next partial decode is due.
pub struct EngineSession {
    active: bool,
    next_partial_at: usize,
}

impl EngineSession {
    pub closed spec fn spec_active(self) -> bool {
        self.active
    }

    pub closed spec fn spec_next_partial_at(self) -> nat {
        self.next_partial_at as nat
    }

    /// A connection with no session.
    pub fn new() -> (s: Self)
        ensures
            !s.spec_active(),
            s.spec_next_partial_at() == PARTIAL_EVERY_SAMPLES,
    {
        EngineSession { active: false, next_partial_at: PARTIAL_EVERY_SAMPLES }
    }

    /// Whether a recording session runs.
    pub fn is_active(&self) -> (b: bool)
        ensures
            b == self.spec_active(),
    {
        self.active
    }

    /// The action for a frame of type `kind`, and the state after it.
    pub fn on_frame(&mut self, kind: u8) -> (a: FrameAction)
        ensures
            a == action_for(kind, old(self).spec_active()),
            final(self).spec_active() == active_after(kind, old(self).spec_active()),
            final(self).spec_next_partial_at() == (if kind == START {
                PARTIAL_EVERY_SAMPLES as nat
            } else {
                old(self).spec_next_partial_at()
            }),
    {
        if kind == HELLO {
            FrameAction::Greet
        } else if kind == START {
            self.active = true;
            self.next_partial_at = PARTIAL_EVERY_SAMPLES;
            FrameAction::Begin
        } else if kind == AUDIO {
            if self.active {
                FrameAction::Feed
            } else {
                FrameAction::RejectAudio
            }
        } else if kind == STOP {
            let flush = self.active;
            self.active = false;
            FrameAction::Finish { flush }
        } else {
            FrameAction::RejectKind(kind)
        }
    }

    /// Whether a partial decode is due now that the recording holds
    /// `recorded` samples; when it is, the next one is due
    /// `PARTIAL_EVERY_SAMPLES` later.
    pub fn partial_due(&mut self, recorded: usize) -> (due: bool)
        requires
            recorded <= usize::MAX - PARTIAL_EVERY_SAMPLES,
        ensures
            due == (recorded >= old(self).spec_next_partial_at()),
            final(self).spec_next_partial_at() == if due {
                recorded + PARTIAL_EVERY_SAMPLES
            } else {
                old(self).spec_next_partial_at() as int
            },
            final(self).spec_active() == old(self).spec_active(),
    {
        if recorded >= self.next_partial_at {
            self.next_partial_at = recorded + PARTIAL_EVERY_SAMPLES;
            true
        } else {
            false
        }
    }
}

/// Value of two little-endian bytes read as a signed 16-bit sample.
pub open spec fn s16le_value(lo: u8, hi: u8) -> int {
    let u = lo + 256 * hi;
    if u >= 32768 {
        u - 65536
    } else {
        u
    }
}

/// The samples of an AUDIO payload (16 kHz mono s16le); a trailing odd
/// byte is ignored.
pub fn decode_s16le(bytes: &[u8]) -> (v: Vec<i16>)
    ensures
        v@.len() == bytes@.len() / 2,
        forall|k: int|
            0 <= k < v@.len() ==> #[trigger] v@[k] == s16le_value(bytes@[2 * k], bytes@[2 * k + 1]),
{
    let n = bytes.len() / 2;
    let mut v: Vec<i16> = Vec::new();
    let mut k: usize = 0;
    while k < n
        invariant
            n == bytes.len() / 2,
            k <= n,
            v@.len() == k,
            forall|j: int|
                0 <= j < k ==> #[trigger] v@[j] == s16le_value(bytes@[2 * j], bytes@[2 * j + 1]),
        decreases n - k,
    {
        let lo = bytes[2 * k];
        let hi = bytes[2 * k + 1];
        let u: u32 = lo as u32 + 256 * (hi as u32);
        let s: i16 = if u >= 32768 {
            (u as i32 - 65536) as i16
        } else {
            u as i16
        };
        v.push(s);
        k = k + 1;
    }
    v
}

/// The READY payload: `{"model":"sensevoice-small-int8","version":0}`
/// (members in key order, as `serde_json` writes an object).
pub open spec fn ready_text() -> Seq<char> {
    seq!['{'] + json_quoted("model"@) + seq![':'] + json_quoted("sensevoice-small-int8"@)
        + ",\"version\":0}"@
}

/// Payload of READY.
pub fn ready_payload() -> (p: Vec<u8>)
    ensures
        p@ == encode_utf8(ready_text()),
{
    let s = crate::payload::object_with("model", "sensevoice-small-int8");
    let ghost obj = s@;
    let mut t = String::new();
    let chars = crate::chars::chars_of(s.as_str());
    // drop the closing brace and add the version member
    let body = crate::chars::string_of(vstd::slice::slice_subrange(chars.as_slice(), 0, chars.len() - 1));
    t.append(body.as_str());
    t.append(",\"version\":0}");
    proof {
        reveal_strlit("{");
        reveal_strlit(":");
    }
    assert(t@ =~= ready_text());
    utf8_bytes(t.as_str())
}

/// Payload of STOPPED: the empty object `{}`.
pub fn stopped_payload() -> (p: Vec<u8>)
    ensures
        p@ == seq![0x7Bu8, 0x7Du8],
{
    let mut p: Vec<u8> = Vec::new();
    p.push(0x7B);
    p.push(0x7D);
    p
}

/// Upper-case hexadecimal digit of `d` (0..16).
pub open spec fn hex_upper(d: nat) -> char {
    if d < 10 {
        (48 + d) as char
    } else {
        (55 + d) as char
    }
}

fn hex_digit(d: u8) -> (c: char)
    requires
        d < 16,
    ensures
        c == hex_upper(d as nat),
{
    if d < 10 {
        (48 + d) as char
    } else {
        (55 + d) as char
    }
}

/// The ERROR message for AUDIO before START.
pub open spec fn audio_first_message() -> Seq<char> {
    "START が先"@
}

/// The ERROR message for a frame of unknown type: the type in two
/// upper-case hexadecimal digits.
pub open spec fn unknown_kind_message(kind: u8) -> Seq<char> {
    "未知の型 0x"@ + seq![hex_upper((kind / 16) as nat), hex_upper((kind % 16) as nat)]
}

/// The ERROR payload for AUDIO before START.
pub fn audio_first_payload() -> (p: Vec<u8>)
    ensures
        p@ == encode_utf8(crate::payload::single_member_object("message"@, audio_first_message())),
{
    message_payload("START が先")
}

/// The ERROR payload for a frame of unknown type `kind`.
pub fn unknown_kind_payload(kind: u8) -> (p: Vec<u8>)
    ensures
        p@ == encode_utf8(crate::payload::single_member_object("message"@, unknown_kind_message(kind))),
{
    let m = String::from_str("未知の型 0x");
    let mut cs = crate::chars::chars_of(m.as_str());
    cs.push(hex_digit(kind / 16));
    cs.push(hex_digit(kind % 16));
    let msg = crate::chars::string_of(cs.as_slice());
    assert(msg@ =~= unknown_kind_message(kind));
    message_payload(msg.as_str())
}

} // verus!
