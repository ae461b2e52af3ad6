//! The audio side of the collector: the transcription session and the
//! manager through which the application drives it.

use vstd::prelude::*;
use vstd::string::*;
use crate::ingest::{drain_tick, left_after_tick, taken_by_tick, AudioIngestBuffer, TickAction};
use crate::text::is_blank;
use crate::transcript::{join_speech, joined_speech, recorded, texts, RollingTranscript};

verus! {

/// The sample rate, in hertz, at which the recogniser takes mono samples.
pub const TARGET_SAMPLE_RATE: u32 = 16000;

/// The time between two drain ticks, in seconds.
pub const DRAIN_PERIOD_SECS: u64 = 10;

/// How the recogniser is run.
#[derive(Debug, Clone, Copy, PartialEq, Eq, Structural)]
pub struct RecognitionOptions {
    /// The number of candidates greedy decoding keeps.
    pub best_of: i32,
    pub threads: i32,
    /// Whether speech is translated into the target language.
    pub translate: bool,
    /// Whether the language spoken is detected rather than given.
    pub detect_language: bool,
    pub print_special: bool,
    pub print_progress: bool,
    pub print_realtime: bool,
    pub print_timestamps: bool,
}

/// Greedy decoding of the single best candidate on four threads, with the
/// language detected and translated, and nothing printed.
pub fn recognition_options() -> (r: RecognitionOptions)
    ensures
        r == (RecognitionOptions {
            best_of: 1,
            threads: 4,
            translate: true,
            detect_language: true,
            print_special: false,
            print_progress: false,
            print_realtime: false,
            print_timestamps: false,
        }),
{
    RecognitionOptions {
        best_of: 1,
        threads: 4,
        translate: true,
        detect_language: true,
        print_special: false,
        print_progress: false,
        print_realtime: false,
        print_timestamps: false,
    }
}

/// The state shared between the drain loop and the application: the rolling
/// transcript and the switch that gates transcription.
pub struct SharedWhisperContext {
    full_transcription: RollingTranscript,
    enabled: bool,
}

impl SharedWhisperContext {
    /// The transcript recorded so far.
    pub closed spec fn transcript(&self) -> Seq<char> {
        self.full_transcription@
    }

    /// The bound on the transcript's length in characters.
    pub closed spec fn max_chars(&self) -> nat {
        self.full_transcription.limit()
    }

    /// Whether the drain loop transcribes.
    pub closed spec fn enabled(&self) -> bool {
        self.enabled
    }

    /// The transcript holds no more characters than its bound.
    pub closed spec fn wf(&self) -> bool {
        self.full_transcription.wf()
    }

    /// A session with an empty transcript, enabled.
    pub fn new(max_chars: usize) -> (r: Self)
        ensures
            r.wf(),
            r.transcript() == Seq::<char>::empty(),
            r.max_chars() == max_chars,
            r.enabled(),
    {
        SharedWhisperContext { full_transcription: RollingTranscript::new(max_chars), enabled: true }
    }

    /// Empties the transcript.
    pub fn reset_transcript(&mut self)
        requires
            old(self).wf(),
        ensures
            final(self).wf(),
            final(self).transcript() == Seq::<char>::empty(),
            final(self).max_chars() == old(self).max_chars(),
            final(self).enabled() == old(self).enabled(),
    {
        self.full_transcription.clear();
    }

    /// Records what the recogniser heard in one batch. The segments that
    /// carry speech are joined, each followed by a newline, and returned; if
    /// that text is not blank it is appended to the transcript, which keeps
    /// its most recent characters only.
    pub fn transcribe(&mut self, segments: &Vec<String>) -> (r: String)
        requires
            old(self).wf(),
        ensures
            final(self).wf(),
            r@ == joined_speech(texts(segments@)),
            final(self).transcript() == recorded(
                old(self).transcript(),
                r@,
                old(self).max_chars(),
            ),
            final(self).transcript().len() <= final(self).max_chars(),
            final(self).max_chars() == old(self).max_chars(),
            final(self).enabled() == old(self).enabled(),
    {
        let result = join_speech(segments);
        if !is_blank(result.as_str()) {
            self.full_transcription.append(result.as_str());
        }
        proof {
            self.full_transcription.lemma_bounded();
        }
        result
    }

    /// Turns transcription on or off.
    pub fn set_enabled(&mut self, set: bool)
        ensures
            final(self).enabled() == set,
            final(self).transcript() == old(self).transcript(),
            final(self).max_chars() == old(self).max_chars(),
            final(self).wf() == old(self).wf(),
    {
        self.enabled = set;
    }

    /// Whether the drain loop transcribes.
    pub fn is_enabled(&self) -> (r: bool)
        ensures
            r == self.enabled(),
    {
        self.enabled
    }

    /// A copy of the transcript.
    pub fn get_full_transcription(&self) -> (r: String)
        ensures
            r@ == self.transcript(),
    {
        self.full_transcription.snapshot()
    }

    /// The transcript never holds more characters than its bound.
    pub proof fn lemma_transcript_bounded(&self)
        requires
            self.wf(),
        ensures
            self.transcript().len() <= self.max_chars(),
    {
        self.full_transcription.lemma_bounded();
    }
}

/// The application's handle on the audio pipeline.
pub struct AudioManager {
    shared_context: SharedWhisperContext,
    capturing: bool,
}

impl AudioManager {
    /// The transcript recorded so far.
    pub closed spec fn transcript(&self) -> Seq<char> {
        self.shared_context.transcript()
    }

    /// The bound on the transcript's length in characters.
    pub closed spec fn max_chars(&self) -> nat {
        self.shared_context.max_chars()
    }

    /// Whether the drain loop transcribes.
    pub closed spec fn enabled(&self) -> bool {
        self.shared_context.enabled()
    }

    /// Whether capture has been started.
    pub closed spec fn capturing(&self) -> bool {
        self.capturing
    }

    /// The transcript holds no more characters than its bound.
    pub closed spec fn wf(&self) -> bool {
        self.shared_context.wf()
    }

    /// A manager with an empty transcript bounded to `max_chars` characters,
    /// enabled, with capture not yet started.
    pub fn new(max_chars: usize) -> (r: Self)
        ensures
            r.wf(),
            r.transcript() == Seq::<char>::empty(),
            r.max_chars() == max_chars,
            r.enabled(),
            !r.capturing(),
    {
        AudioManager { shared_context: SharedWhisperContext::new(max_chars), capturing: false }
    }

    /// Marks capture as started and says whether the caller has to open the
    /// stream: `true` on the first call, `false` on every later one, since
    /// capture runs until the process ends.
    pub fn start_audio_capture(&mut self) -> (open_stream: bool)
        ensures
            open_stream == !old(self).capturing(),
            final(self).capturing(),
            final(self).transcript() == old(self).transcript(),
            final(self).max_chars() == old(self).max_chars(),
            final(self).enabled() == old(self).enabled(),
            final(self).wf() == old(self).wf(),
    {
        let open_stream = !self.capturing;
        self.capturing = true;
        open_stream
    }

    /// Whether capture has been started.
    pub fn is_capturing(&self) -> (r: bool)
        ensures
            r == self.capturing(),
    {
        self.capturing
    }

    /// One tick of the drain timer on `buffer`, gated by the switch: nothing
    /// is drained while transcription is off.
    pub fn tick<T>(&self, buffer: &mut AudioIngestBuffer<T>) -> (r: TickAction<T>)
        ensures
            final(buffer)@ == left_after_tick(self.enabled(), old(buffer)@),
            !self.enabled() ==> r is Skip,
            self.enabled() && old(buffer)@.len() == 0 ==> r is Idle,
            self.enabled() && old(buffer)@.len() > 0 ==> r is Transcribe && r->Transcribe_0@
                == taken_by_tick(self.enabled(), old(buffer)@),
    {
        drain_tick(self.shared_context.is_enabled(), buffer)
    }

    /// Empties the transcript.
    pub fn reset_transcript(&mut self)
        requires
            old(self).wf(),
        ensures
            final(self).wf(),
            final(self).transcript() == Seq::<char>::empty(),
            final(self).max_chars() == old(self).max_chars(),
            final(self).enabled() == old(self).enabled(),
            final(self).capturing() == old(self).capturing(),
    {
        self.shared_context.reset_transcript();
    }

    /// Turns transcription on or off; the transcript is not touched.
    pub fn set_enabled(&mut self, set: bool)
        ensures
            final(self).enabled() == set,
            final(self).capturing() == old(self).capturing(),
            final(self).transcript() == old(self).transcript(),
            final(self).max_chars() == old(self).max_chars(),
            final(self).wf() == old(self).wf(),
    {
        self.shared_context.set_enabled(set);
    }

    /// Whether the drain loop transcribes.
    pub fn is_enabled(&self) -> (r: bool)
        ensures
            r == self.enabled(),
    {
        self.shared_context.is_enabled()
    }

    /// A copy of the transcript.
    pub fn get_full_transcription(&self) -> (r: String)
        ensures
            r@ == self.transcript(),
    {
        self.shared_context.get_full_transcription()
    }

    /// The transcript never holds more characters than its bound.
    pub proof fn lemma_transcript_bounded(&self)
        requires
            self.wf(),
        ensures
            self.transcript().len() <= self.max_chars(),
    {
        self.shared_context.lemma_transcript_bounded();
    }

    /// Records what the recogniser heard in one batch and returns the text
    /// that was new.
    pub fn transcribe(&mut self, segments: &Vec<String>) -> (r: String)
        requires
            old(self).wf(),
        ensures
            final(self).wf(),
            r@ == joined_speech(texts(segments@)),
            final(self).transcript() == recorded(
                old(self).transcript(),
                r@,
                old(self).max_chars(),
            ),
            final(self).transcript().len() <= final(self).max_chars(),
            final(self).max_chars() == old(self).max_chars(),
            final(self).enabled() == old(self).enabled(),
            final(self).capturing() == old(self).capturing(),
    {
        self.shared_context.transcribe(segments)
    }
}

} // verus!
