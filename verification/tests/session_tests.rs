use mood_journal::date::Date;
use mood_journal::session::{
    audio_rel_path, complete_entry, fallback_color, transition, SessionError, SessionEvent,
    SessionPhase,
};
use SessionEvent::{Failure, SinkFinalized, StopRequested, StreamStarted, StreamTornDown};
use SessionPhase::{Done, Error, Finalizing, Idle, Recording, Stopping};

fn d(year: u32, month: u8, day: u8) -> Date {
    Date { year, month, day }
}

#[test]
fn the_single_pass_through_the_phases() {
    assert_eq!(transition(Idle, StreamStarted), Some(Recording));
    assert_eq!(transition(Recording, StopRequested), Some(Stopping));
    assert_eq!(transition(Stopping, StreamTornDown), Some(Finalizing));
    assert_eq!(transition(Finalizing, SinkFinalized), Some(Done));
}

#[test]
fn out_of_order_steps_are_rejected() {
    assert_eq!(transition(Idle, StopRequested), None);
    assert_eq!(transition(Recording, StreamStarted), None);
    assert_eq!(transition(Recording, SinkFinalized), None);
    assert_eq!(transition(Stopping, StopRequested), None);
    assert_eq!(transition(Done, StreamStarted), None);
    assert_eq!(transition(Done, Failure), None);
    assert_eq!(transition(Error, Failure), None);
}

#[test]
fn failure_reaches_error_from_any_live_phase() {
    for p in [Idle, Recording, Stopping, Finalizing] {
        assert_eq!(transition(p, Failure), Some(Error));
    }
}

#[test]
fn error_messages_name_the_failure() {
    assert_eq!(SessionError::NoInputDevice.message(), "no input device available");
    assert_eq!(SessionError::UnsupportedConfig.message(), "unsupported device configuration");
    assert_eq!(SessionError::SinkFailure.message(), "audio file could not be written");
    assert_eq!(
        SessionError::StoreFailure.message(),
        "entry store could not be read or written"
    );
}

#[test]
fn audio_files_are_named_after_the_date() {
    assert_eq!(audio_rel_path(d(2025, 3, 10)), "audio/2025-03-10.wav");
    assert_eq!(audio_rel_path(d(5, 1, 7)), "audio/0005-01-07.wav");
}

#[test]
fn full_enrichment_keeps_both_fields() {
    let rec = complete_entry(
        d(2025, 3, 10),
        Some("a fine day".to_string()),
        Some("#40C463".to_string()),
    );
    assert_eq!(rec.date, d(2025, 3, 10));
    assert_eq!(rec.transcript, "a fine day");
    assert_eq!(rec.color, Some("#40C463".to_string()));
    assert_eq!(rec.audio_path, "audio/2025-03-10.wav");
}

#[test]
fn failed_transcription_degrades_to_empty_transcript() {
    let rec = complete_entry(d(2025, 3, 10), None, Some("#40C463".to_string()));
    assert_eq!(rec.transcript, "");
    // the inferred color survives: it is not the fallback
    assert_eq!(rec.color, Some("#40C463".to_string()));
    assert_ne!(rec.color, Some(fallback_color()));
}

#[test]
fn failing_both_enrichments_still_completes_the_entry() {
    let rec = complete_entry(d(2025, 3, 10), None, None);
    assert_eq!(rec.transcript, "");
    assert_eq!(rec.color, Some("#FFFFFF".to_string()));
    assert_eq!(rec.audio_path, "audio/2025-03-10.wav");
}
