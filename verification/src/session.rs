//! The session lifecycle: its phases and the transition function that
//! rejects invalid steps, the fatal error taxonomy, and the completion of
//! a journal entry under the degrade-and-continue enrichment policy.

use vstd::prelude::*;
use crate::date::{format_date, spec_char_of_byte, spec_format_date, Date};
use crate::store::DayRecord;

verus! {

/// Phases of one recording session, in order. No phase is re-entered;
/// `Error` is terminal and reachable from any live phase.
#[derive(Clone, Copy, PartialEq, Eq, Structural, Debug)]
pub enum SessionPhase {
    Idle,
    Recording,
    Stopping,
    Finalizing,
    Done,
    Error,
}

/// What drives a session forward.
#[derive(Clone, Copy, PartialEq, Eq, Structural, Debug)]
pub enum SessionEvent {
    StreamStarted,
    StopRequested,
    StreamTornDown,
    SinkFinalized,
    Failure,
}

/// Position of a phase along the session's single pass.
pub open spec fn spec_phase_rank(p: SessionPhase) -> int {
    match p {
        SessionPhase::Idle => 0,
        SessionPhase::Recording => 1,
        SessionPhase::Stopping => 2,
        SessionPhase::Finalizing => 3,
        SessionPhase::Done => 4,
        SessionPhase::Error => 5,
    }
}

/// The transition table: the one forward step each live phase allows, or
/// `Error` on failure; anything else is rejected.
pub open spec fn spec_transition(p: SessionPhase, e: SessionEvent) -> Option<SessionPhase> {
    match (p, e) {
        (SessionPhase::Idle, SessionEvent::StreamStarted) => Some(SessionPhase::Recording),
        (SessionPhase::Recording, SessionEvent::StopRequested) => Some(SessionPhase::Stopping),
        (SessionPhase::Stopping, SessionEvent::StreamTornDown) => Some(SessionPhase::Finalizing),
        (SessionPhase::Finalizing, SessionEvent::SinkFinalized) => Some(SessionPhase::Done),
        (_, SessionEvent::Failure) => if p is Done || p is Error {
            None
        } else {
            Some(SessionPhase::Error)
        },
        _ => None,
    }
}

/// Advances the session by one event, rejecting any step the lifecycle
/// does not allow.
pub fn transition(p: SessionPhase, e: SessionEvent) -> (r: Option<SessionPhase>)
    ensures
        r == spec_transition(p, e),
{
    match (p, e) {
        (SessionPhase::Idle, SessionEvent::StreamStarted) => Some(SessionPhase::Recording),
        (SessionPhase::Recording, SessionEvent::StopRequested) => Some(SessionPhase::Stopping),
        (SessionPhase::Stopping, SessionEvent::StreamTornDown) => Some(SessionPhase::Finalizing),
        (SessionPhase::Finalizing, SessionEvent::SinkFinalized) => Some(SessionPhase::Done),
        (_, SessionEvent::Failure) => match p {
            SessionPhase::Done => None,
            SessionPhase::Error => None,
            _ => Some(SessionPhase::Error),
        },
        _ => None,
    }
}

/// No phase is re-entered: every step the table allows moves strictly
/// forward in rank.
pub proof fn lemma_transition_progresses(p: SessionPhase, e: SessionEvent)
    ensures
        spec_transition(p, e) matches Some(q) ==> spec_phase_rank(q) > spec_phase_rank(p),
{
}

/// The fatal failures of a session: capture errors abort before any
/// persistent change, sink and store errors abort and surface. Enrichment
/// failures are absent here on purpose: they degrade the entry instead
/// (see [`complete_entry`]).
#[derive(Clone, Copy, PartialEq, Eq, Structural, Debug)]
pub enum SessionError {
    NoInputDevice,
    UnsupportedConfig,
    SinkFailure,
    StoreFailure,
}

impl SessionError {
    /// A short description for the operator.
    pub fn message(&self) -> (r: &'static str)
        ensures
            *self is NoInputDevice ==> r@ == "no input device available"@,
            *self is UnsupportedConfig ==> r@ == "unsupported device configuration"@,
            *self is SinkFailure ==> r@ == "audio file could not be written"@,
            *self is StoreFailure ==> r@ == "entry store could not be read or written"@,
    {
        match self {
            SessionError::NoInputDevice => "no input device available",
            SessionError::UnsupportedConfig => "unsupported device configuration",
            SessionError::SinkFailure => "audio file could not be written",
            SessionError::StoreFailure => "entry store could not be read or written",
        }
    }
}

/// The session-relative path of a day's audio file: `audio/YYYY-MM-DD.wav`.
pub open spec fn spec_audio_rel_path(d: Date) -> Seq<char> {
    "audio/"@ + spec_format_date(d) + ".wav"@
}

/// Builds `audio/YYYY-MM-DD.wav` for the session's date.
pub fn audio_rel_path(d: Date) -> (r: String)
    requires
        d.valid(),
    ensures
        r@ == spec_audio_rel_path(d),
{
    let date = format_date(d);
    let mut bytes: Vec<u8> = Vec::new();
    bytes.push(97);  // a
    bytes.push(117);  // u
    bytes.push(100);  // d
    bytes.push(105);  // i
    bytes.push(111);  // o
    bytes.push(47);  // /
    let mut i: usize = 0;
    let n = date.as_str().unicode_len();
    while i < n
        invariant
            d.valid(),
            i <= n,
            n == date@.len(),
            date@ == spec_format_date(d),
            bytes@.len() == 6 + i,
            forall|k: int| 0 <= k < bytes@.len() ==> bytes@[k] < 128,
            forall|k: int| 6 <= k < bytes@.len() ==> spec_char_of_byte(bytes@[k]) == date@[k - 6],
            bytes@[0] == 97u8 && bytes@[1] == 117u8 && bytes@[2] == 100u8 && bytes@[3] == 105u8
                && bytes@[4] == 111u8 && bytes@[5] == 47u8,
        decreases n - i,
    {
        let c = date.as_str().get_char(i);
        proof {
            lemma_format_chars_ascii(d, i as int);
        }
        bytes.push(c as u8);
        i = i + 1;
    }
    bytes.push(46);  // .
    bytes.push(119);  // w
    bytes.push(97);  // a
    bytes.push(118);  // v
    let r = crate::date::string_from_ascii(bytes);
    proof {
        reveal_strlit("audio/");
        reveal_strlit(".wav");
        assert(r@ =~= spec_audio_rel_path(d));
    }
    r
}

/// Every character of a formatted date is an ASCII digit or dash.
proof fn lemma_format_chars_ascii(d: Date, i: int)
    requires
        0 <= i < spec_format_date(d).len(),
        1 <= d.year <= 9999,
    ensures
        32 <= (spec_format_date(d)[i] as int),
        (spec_format_date(d)[i] as int) < 128,
        spec_char_of_byte(spec_format_date(d)[i] as u8) == spec_format_date(d)[i],
{
    vstd::arithmetic::div_mod::lemma_div_is_ordered(d.year as int, 9999, 1000);
}

/// Builds the day's record from the session's enrichment outcomes: a
/// failed transcription degrades to the empty transcript, a failed color
/// inference to the fixed `#FFFFFF` fallback; in neither case does the
/// session abort, and the record always carries a color.
pub fn complete_entry(date: Date, transcript: Option<String>, color: Option<String>) -> (rec:
    DayRecord)
    requires
        date.valid(),
    ensures
        rec.date == date,
        rec@.audio_path == spec_audio_rel_path(date),
        match transcript {
            Some(t) => rec@.transcript == t@,
            None => rec@.transcript =~= Seq::<char>::empty(),
        },
        match color {
            Some(c) => rec@.color == Some(c@),
            None => rec@.color == Some("#FFFFFF"@),
        },
{
    let t = match transcript {
        Some(t) => t,
        None => String::new(),
    };
    let c = match color {
        Some(c) => c,
        None => fallback_color(),
    };
    DayRecord { date, color: Some(c), transcript: t, audio_path: audio_rel_path(date) }
}

/// The neutral fallback color a record gets when mood inference fails.
pub fn fallback_color() -> (r: String)
    ensures
        r@ == "#FFFFFF"@,
{
    "#FFFFFF".to_owned()
}

/// The default color text substituted when a chat reply carries no
/// usable content.
pub fn default_color_reply() -> (r: String)
    ensures
        r@ == "#9BE9A8"@,
{
    "#9BE9A8".to_owned()
}

} // verus!
