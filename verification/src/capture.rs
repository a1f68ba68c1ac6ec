//! A model of the one-shot audio capture engine: the sample sink that is
//! finalized exactly once by consuming it, and the stop-flag /
//! sample-counter state shared by the audio callback, the stop listener
//! and the progress loop.

use vstd::prelude::*;

verus! {

/// The capture format of one session, immutable once recording starts.
#[derive(Clone, Copy, PartialEq, Eq, Structural, Debug)]
pub struct CaptureConfig {
    pub channels: u16,
    pub sample_rate: u32,
    pub bits_per_sample: u16,
}

/// The negotiated capture format: the device's sample rate with the
/// channel count forced to one and 16-bit integer samples.
pub fn mono_config(sample_rate: u32) -> (c: CaptureConfig)
    ensures
        c.channels == 1,
        c.sample_rate == sample_rate,
        c.bits_per_sample == 16,
{
    CaptureConfig { channels: 1, sample_rate, bits_per_sample: 16 }
}

/// An open sample sink: accepts 16-bit samples bound for one destination
/// file, and gives them up exactly once through [`SampleSink::finalize`],
/// which consumes the sink so a second finalize cannot be written.
pub struct SampleSink {
    path: String,
    config: CaptureConfig,
    samples: Vec<i16>,
}

/// What a finalized sink hands over for persisting: the destination, the
/// format, and every sample in arrival order.
pub struct FinalizedAudio {
    pub path: String,
    pub config: CaptureConfig,
    pub samples: Vec<i16>,
}

impl SampleSink {
    pub closed spec fn spec_path(self) -> Seq<char> {
        self.path@
    }

    pub closed spec fn spec_config(self) -> CaptureConfig {
        self.config
    }

    pub closed spec fn spec_samples(self) -> Seq<i16> {
        self.samples@
    }

    /// Opens an empty sink for the destination path with the given format.
    pub fn open(path: String, config: CaptureConfig) -> (s: SampleSink)
        ensures
            s.spec_path() == path@,
            s.spec_config() == config,
            s.spec_samples() =~= Seq::<i16>::empty(),
    {
        SampleSink { path, config, samples: Vec::new() }
    }

    /// Appends one sample.
    pub fn write(&mut self, sample: i16)
        ensures
            final(self).spec_samples() == old(self).spec_samples().push(sample),
            final(self).spec_path() == old(self).spec_path(),
            final(self).spec_config() == old(self).spec_config(),
    {
        self.samples.push(sample);
    }

    /// Number of samples written so far.
    pub fn len(&self) -> (n: usize)
        ensures
            n == self.spec_samples().len(),
    {
        self.samples.len()
    }

    /// Consumes the sink and hands its contents over: ownership transfer
    /// makes finalizing twice impossible to write.
    pub fn finalize(self) -> (f: FinalizedAudio)
        ensures
            f.path@ == self.spec_path(),
            f.config == self.spec_config(),
            f.samples@ == self.spec_samples(),
    {
        FinalizedAudio { path: self.path, config: self.config, samples: self.samples }
    }
}

/// The state shared by the session's three actors: the audio callback
/// (sole incrementer of the counter), the stop listener (sole writer of
/// the flag, and only from true to false) and the progress loop (reader).
#[derive(Clone, Copy, PartialEq, Eq, Structural, Debug)]
pub struct CaptureState {
    pub keep_running: bool,
    pub samples_written: u64,
}

/// What can happen to the capture state: a batch of samples arrives, or
/// the stop listener fires.
#[derive(Clone, Copy, PartialEq, Eq, Structural, Debug)]
pub enum CaptureEvent {
    Samples(u64),
    Stop,
}

/// The single transition: a batch adds to the counter only while the flag
/// is up (and the sum representable); stopping lowers the flag and leaves
/// the counter alone. No event raises the flag again.
pub open spec fn spec_step(s: CaptureState, e: CaptureEvent) -> CaptureState {
    match e {
        CaptureEvent::Samples(n) => if s.keep_running && s.samples_written + n <= u64::MAX {
            CaptureState {
                keep_running: s.keep_running,
                samples_written: (s.samples_written + n) as u64,
            }
        } else {
            s
        },
        CaptureEvent::Stop => CaptureState { keep_running: false, samples_written: s.samples_written },
    }
}

/// The state after a whole sequence of events.
pub open spec fn spec_run(s: CaptureState, es: Seq<CaptureEvent>) -> CaptureState
    decreases es.len(),
{
    if es.len() == 0 {
        s
    } else {
        spec_step(spec_run(s, es.drop_last()), es.last())
    }
}

impl CaptureState {
    /// A fresh session: recording, nothing written yet.
    pub fn new() -> (s: CaptureState)
        ensures
            s.keep_running,
            s.samples_written == 0,
    {
        CaptureState { keep_running: true, samples_written: 0 }
    }

    /// The audio callback's half: counts one batch of samples. Callable
    /// only while recording, so the counter cannot move after the stop.
    pub fn record_samples(&mut self, n: u64)
        requires
            old(self).keep_running,
            old(self).samples_written + n <= u64::MAX,
        ensures
            *final(self) == spec_step(*old(self), CaptureEvent::Samples(n)),
            final(self).samples_written == old(self).samples_written + n,
            final(self).keep_running,
    {
        self.samples_written = self.samples_written + n;
    }

    /// The stop listener's half: the only transition that lowers the
    /// flag, and it never touches the counter.
    pub fn request_stop(&mut self)
        ensures
            *final(self) == spec_step(*old(self), CaptureEvent::Stop),
            !final(self).keep_running,
            final(self).samples_written == old(self).samples_written,
    {
        self.keep_running = false;
    }

    /// The progress loop's read of the flag.
    pub fn is_running(&self) -> (b: bool)
        ensures
            b == self.keep_running,
    {
        self.keep_running
    }

    /// The progress loop's read of the counter.
    pub fn samples(&self) -> (n: u64)
        ensures
            n == self.samples_written,
    {
        self.samples_written
    }
}

/// The sample counter is monotonically non-decreasing over any sequence
/// of events.
pub proof fn lemma_counter_monotone(s: CaptureState, es: Seq<CaptureEvent>)
    ensures
        spec_run(s, es).samples_written >= s.samples_written,
    decreases es.len(),
{
    if es.len() > 0 {
        lemma_counter_monotone(s, es.drop_last());
    }
}

/// Once the stop flag is down it stays down, and the counter stops
/// changing for good.
pub proof fn lemma_counter_frozen_after_stop(s: CaptureState, es: Seq<CaptureEvent>)
    requires
        !s.keep_running,
    ensures
        !spec_run(s, es).keep_running,
        spec_run(s, es).samples_written == s.samples_written,
    decreases es.len(),
{
    if es.len() > 0 {
        lemma_counter_frozen_after_stop(s, es.drop_last());
    }
}

/// Elapsed recording time in tenths of a second, from the sample counter
/// and the session's sample rate.
pub fn elapsed_deciseconds(samples: u64, sample_rate: u32) -> (t: u64)
    requires
        sample_rate > 0,
        samples <= u64::MAX / 10,
    ensures
        t == samples * 10 / (sample_rate as int),
{
    samples * 10 / (sample_rate as u64)
}

} // verus!
