//! Voice: audio streams (their format and how much audio they received), their
//! transcriptions, and synthesized speech.

use vstd::prelude::*;
use crate::clock::{new_uuid, now_timestamp, MAX_TIMESTAMP};
use crate::error::AppError;
use crate::keyed::restrict_where;
use crate::rbac::lists_map;
use crate::store::{filter_pred, record_entries, Record, RecordFilter, Store};
use crate::text::{concat3, push_str, str_to_string};
use vstd::string::StrSliceExecFns;
use vstd::utf8::encode_utf8;

verus! {

/// How many milliseconds of audio one chunk counts for.
pub const CHUNK_MS: u64 = 100;

/// The bit pattern of the confidence given to transcriptions, the floating-point number
/// 0.95 (`0.95f64.to_bits()`).
pub const TRANSCRIPTION_CONFIDENCE_BITS: u64 = 0x3FEE_6666_6666_6666;

/// An audio stream.
#[derive(Debug)]
pub struct AudioStream {
    pub id: String,
    pub session_id: String,
    pub format: String,
    pub sample_rate: u32,
    pub channels: u16,
    pub is_active: bool,
    pub created_at: i64,
    pub duration_ms: u64,
}

/// The value of an audio stream.
pub struct StreamView {
    pub id: Seq<char>,
    pub session_id: Seq<char>,
    pub format: Seq<char>,
    pub sample_rate: u32,
    pub channels: u16,
    pub is_active: bool,
    pub created_at: i64,
    pub duration_ms: u64,
}

impl View for AudioStream {
    type V = StreamView;

    open spec fn view(&self) -> StreamView {
        StreamView {
            id: self.id@,
            session_id: self.session_id@,
            format: self.format@,
            sample_rate: self.sample_rate,
            channels: self.channels,
            is_active: self.is_active,
            created_at: self.created_at,
            duration_ms: self.duration_ms,
        }
    }
}

impl Record for AudioStream {
    open spec fn key_of(v: StreamView) -> Seq<char> {
        v.id
    }

    fn key(&self) -> (r: &str) {
        self.id.as_str()
    }

    fn duplicate(&self) -> (r: Self) {
        AudioStream {
            id: self.id.clone(),
            session_id: self.session_id.clone(),
            format: self.format.clone(),
            sample_rate: self.sample_rate,
            channels: self.channels,
            is_active: self.is_active,
            created_at: self.created_at,
            duration_ms: self.duration_ms,
        }
    }
}

/// A transcription. Its confidence is a floating-point number, held by its IEEE-754
/// bit pattern (`f64::to_bits`).
#[derive(Debug)]
pub struct TranscriptionResult {
    pub text: String,
    pub language: String,
    pub confidence_bits: u64,
    pub duration_ms: u64,
}

/// The value of a transcription.
pub struct TranscriptionView {
    pub text: Seq<char>,
    pub language: Seq<char>,
    pub confidence_bits: u64,
    pub duration_ms: u64,
}

impl View for TranscriptionResult {
    type V = TranscriptionView;

    open spec fn view(&self) -> TranscriptionView {
        TranscriptionView {
            text: self.text@,
            language: self.language@,
            confidence_bits: self.confidence_bits,
            duration_ms: self.duration_ms,
        }
    }
}

impl TranscriptionResult {
    /// A copy of the transcription.
    pub fn duplicate(&self) -> (r: Self)
        ensures
            r@ == self@,
    {
        TranscriptionResult {
            text: self.text.clone(),
            language: self.language.clone(),
            confidence_bits: self.confidence_bits,
            duration_ms: self.duration_ms,
        }
    }
}

/// The latest transcription of one stream.
#[derive(Debug)]
pub struct StreamTranscription {
    pub stream_id: String,
    pub result: TranscriptionResult,
}

impl View for StreamTranscription {
    type V = (Seq<char>, TranscriptionView);

    open spec fn view(&self) -> (Seq<char>, TranscriptionView) {
        (self.stream_id@, self.result@)
    }
}

impl Record for StreamTranscription {
    open spec fn key_of(v: (Seq<char>, TranscriptionView)) -> Seq<char> {
        v.0
    }

    fn key(&self) -> (r: &str) {
        self.stream_id.as_str()
    }

    fn duplicate(&self) -> (r: Self) {
        StreamTranscription { stream_id: self.stream_id.clone(), result: self.result.duplicate() }
    }
}

/// How speech is recognized and audio is taken.
#[derive(Debug)]
pub struct SpeechConfig {
    pub model: String,
    pub language: String,
    pub sample_rate: u32,
    pub channels: u16,
    pub format: String,
}

/// Counts over the streams, and the recognition settings.
#[derive(Debug)]
pub struct VoiceStats {
    pub total_streams: usize,
    pub active_streams: usize,
    pub model: String,
    pub language: String,
    pub sample_rate: u32,
}

/// The text every transcription gives.
pub open spec fn transcription_text() -> Seq<char> {
    "This is a simulated transcription of the audio stream"@
}

/// Active streams.
pub struct ActiveStreams;

impl RecordFilter<AudioStream> for ActiveStreams {
    open spec fn holds(&self, v: StreamView) -> bool {
        v.is_active
    }

    fn test(&self, r: &AudioStream) -> (b: bool) {
        r.is_active
    }
}

/// Streams by id, their latest transcriptions by stream id, and the speech settings.
pub struct VoiceManager {
    streams: Store<AudioStream>,
    transcriptions: Store<StreamTranscription>,
    config: SpeechConfig,
}

impl VoiceManager {
    /// The streams, by id.
    pub closed spec fn streams_view(&self) -> Map<Seq<char>, StreamView> {
        self.streams.view_map()
    }

    /// The latest transcriptions, by stream id.
    pub closed spec fn transcriptions_view(&self) -> Map<Seq<char>, (Seq<char>, TranscriptionView)> {
        self.transcriptions.view_map()
    }

    /// The speech settings: model, language, sample rate, channels and format.
    pub closed spec fn config_view(&self) -> (Seq<char>, Seq<char>, u32, u16, Seq<char>) {
        (self.config.model@, self.config.language@, self.config.sample_rate, self.config.channels, self.config.format@)
    }

    /// The manager's invariant: each id is held once in each table.
    pub closed spec fn wf(&self) -> bool {
        self.streams.wf() && self.transcriptions.wf()
    }

    /// No streams, with the given settings.
    pub fn new(config: SpeechConfig) -> (r: Self)
        ensures
            r.wf(),
            r.streams_view() == Map::<Seq<char>, StreamView>::empty(),
            r.transcriptions_view() == Map::<Seq<char>, (Seq<char>, TranscriptionView)>::empty(),
            r.config_view() == (config.model@, config.language@, config.sample_rate, config.channels, config.format@),
    {
        VoiceManager { streams: Store::new(), transcriptions: Store::new(), config }
    }

    /// Starts an active, empty stream for `session_id` under `id`, at `now`, in the
    /// configured format; returns the id.
    pub fn start_stream_at(&mut self, session_id: &str, id: String, now: i64) -> (r: Result<String, AppError>)
        requires
            old(self).wf(),
        ensures
            final(self).wf(),
            final(self).config_view() == old(self).config_view(),
            final(self).transcriptions_view() == old(self).transcriptions_view(),
            r == Ok::<String, AppError>(id),
            final(self).streams_view() == old(self).streams_view().insert(id@, StreamView {
                id: id@,
                session_id: session_id@,
                format: old(self).config_view().4,
                sample_rate: old(self).config_view().2,
                channels: old(self).config_view().3,
                is_active: true,
                created_at: now,
                duration_ms: 0,
            }),
    {
        let s = AudioStream {
            id: id.clone(),
            session_id: str_to_string(session_id),
            format: self.config.format.clone(),
            sample_rate: self.config.sample_rate,
            channels: self.config.channels,
            is_active: true,
            created_at: now,
            duration_ms: 0,
        };
        self.streams.insert(s);
        Ok(id)
    }

    /// Starts an active, empty stream for `session_id` under a fresh random id, now.
    pub fn start_stream(&mut self, session_id: &str) -> (r: Result<String, AppError>)
        requires
            old(self).wf(),
        ensures
            final(self).wf(),
            final(self).config_view() == old(self).config_view(),
            final(self).transcriptions_view() == old(self).transcriptions_view(),
            r is Ok,
            match r {
                Ok(id) => final(self).streams_view().dom().contains(id@)
                    && final(self).streams_view()[id@].created_at < MAX_TIMESTAMP
                    && final(self).streams_view() == old(self).streams_view().insert(id@, StreamView {
                        id: id@,
                        session_id: session_id@,
                        format: old(self).config_view().4,
                        sample_rate: old(self).config_view().2,
                        channels: old(self).config_view().3,
                        is_active: true,
                        created_at: final(self).streams_view()[id@].created_at,
                        duration_ms: 0,
                    }),
                Err(_) => false,
            },
    {
        let id = new_uuid();
        let now = now_timestamp();
        self.start_stream_at(session_id, id, now)
    }

    /// Stops the stream `stream_id`; `NotFound` when there is none.
    pub fn stop_stream(&mut self, stream_id: &str) -> (r: Result<(), AppError>)
        requires
            old(self).wf(),
        ensures
            final(self).wf(),
            final(self).config_view() == old(self).config_view(),
            final(self).transcriptions_view() == old(self).transcriptions_view(),
            r is Ok <==> old(self).streams_view().dom().contains(stream_id@),
            final(self).streams_view() == if r is Ok {
                old(self).streams_view().insert(stream_id@, StreamView { is_active: false, ..old(self).streams_view()[stream_id@] })
            } else {
                old(self).streams_view()
            },
            r is Err ==> r->Err_0 is NotFound && r->Err_0.message() == "Audio stream "@ + stream_id@ + " not found"@,
    {
        match self.streams.get_copy(stream_id) {
            Some(mut s) => {
                s.is_active = false;
                self.streams.insert(s);
                Ok(())
            },
            None => Err(AppError::NotFound(concat3("Audio stream ", stream_id, " not found"))),
        }
    }

    /// Counts a chunk of audio for the active stream `stream_id`; `NotFound` when there is
    /// no such stream, `Internal` when it is stopped.
    pub fn process_audio_chunk(&mut self, stream_id: &str, audio_data: &[u8]) -> (r: Result<(), AppError>)
        requires
            old(self).wf(),
            old(self).streams_view().dom().contains(stream_id@)
                ==> old(self).streams_view()[stream_id@].duration_ms + CHUNK_MS <= u64::MAX,
        ensures
            final(self).wf(),
            final(self).config_view() == old(self).config_view(),
            final(self).transcriptions_view() == old(self).transcriptions_view(),
            r is Ok <==> old(self).streams_view().dom().contains(stream_id@) && old(self).streams_view()[stream_id@].is_active,
            final(self).streams_view() == if r is Ok {
                old(self).streams_view().insert(stream_id@, StreamView {
                    duration_ms: (old(self).streams_view()[stream_id@].duration_ms + CHUNK_MS) as u64,
                    ..old(self).streams_view()[stream_id@]
                })
            } else {
                old(self).streams_view()
            },
            r is Err ==> if old(self).streams_view().dom().contains(stream_id@) {
                r->Err_0 is Internal && r->Err_0.message() == "Audio stream "@ + stream_id@ + " is not active"@
            } else {
                r->Err_0 is NotFound && r->Err_0.message() == "Audio stream "@ + stream_id@ + " not found"@
            },
    {
        match self.streams.get_copy(stream_id) {
            Some(mut s) => {
                if !s.is_active {
                    return Err(AppError::Internal(concat3("Audio stream ", stream_id, " is not active")));
                }
                s.duration_ms = s.duration_ms + CHUNK_MS;
                self.streams.insert(s);
                Ok(())
            },
            None => Err(AppError::NotFound(concat3("Audio stream ", stream_id, " not found"))),
        }
    }

    /// Transcribes the stream `stream_id` in the configured language and keeps the
    /// transcription as the stream's latest; `NotFound` when there is no such stream.
    pub fn transcribe(&mut self, stream_id: &str) -> (r: Result<TranscriptionResult, AppError>)
        requires
            old(self).wf(),
        ensures
            final(self).wf(),
            final(self).config_view() == old(self).config_view(),
            final(self).streams_view() == old(self).streams_view(),
            r is Ok <==> old(self).streams_view().dom().contains(stream_id@),
            match r {
                Ok(t) => t@ == (TranscriptionView {
                        text: transcription_text(),
                        language: old(self).config_view().1,
                        confidence_bits: TRANSCRIPTION_CONFIDENCE_BITS,
                        duration_ms: old(self).streams_view()[stream_id@].duration_ms,
                    })
                    && final(self).transcriptions_view() == old(self).transcriptions_view().insert(stream_id@, (stream_id@, t@)),
                Err(e) => e is NotFound && e.message() == "Audio stream "@ + stream_id@ + " not found"@
                    && final(self).transcriptions_view() == old(self).transcriptions_view(),
            },
    {
        let duration = match self.streams.get(stream_id) {
            Some(s) => s.duration_ms,
            None => return Err(AppError::NotFound(concat3("Audio stream ", stream_id, " not found"))),
        };
        let result = TranscriptionResult {
            text: str_to_string("This is a simulated transcription of the audio stream"),
            language: self.config.language.clone(),
            confidence_bits: TRANSCRIPTION_CONFIDENCE_BITS,
            duration_ms: duration,
        };
        let copy = result.duplicate();
        self.transcriptions.insert(StreamTranscription { stream_id: str_to_string(stream_id), result });
        Ok(copy)
    }

    /// Speech for `text`: the bytes of `Synthesized audio for: ` and the text.
    pub fn synthesize_speech(&self, text: &str) -> (r: Result<Vec<u8>, AppError>)
        ensures
            r matches Ok(b) && b@ == encode_utf8("Synthesized audio for: "@ + text@),
    {
        let mut s = str_to_string("Synthesized audio for: ");
        push_str(&mut s, text);
        Ok(s.as_str().as_bytes_vec())
    }

    /// Every stream, once each.
    pub fn list_streams(&self) -> (r: Vec<AudioStream>)
        requires
            self.wf(),
        ensures
            lists_map(record_entries(r@).map_values(|e: (Seq<char>, StreamView)| e.0), r@.map_values(|x: AudioStream| x@), self.streams_view()),
    {
        self.streams.values()
    }

    /// The stream `stream_id`, if there is one.
    pub fn get_stream(&self, stream_id: &str) -> (r: Option<AudioStream>)
        requires
            self.wf(),
        ensures
            match r {
                Some(s) => self.streams_view().dom().contains(stream_id@) && s@ == self.streams_view()[stream_id@],
                None => !self.streams_view().dom().contains(stream_id@),
            },
    {
        self.streams.get_copy(stream_id)
    }

    /// Counts over the streams, and the recognition settings.
    pub fn get_stats(&self) -> (r: VoiceStats)
        requires
            self.wf(),
        ensures
            r.total_streams == self.streams_view().dom().len(),
            r.active_streams == restrict_where(self.streams_view(), |v: StreamView| v.is_active).dom().len(),
            r.model@ == self.config_view().0,
            r.language@ == self.config_view().1,
            r.sample_rate == self.config_view().2,
    {
        let f = ActiveStreams;
        let active = self.streams.values_where(&f);
        assert(restrict_where(self.streams_view(), filter_pred::<AudioStream, ActiveStreams>(&f))
            =~= restrict_where(self.streams_view(), |v: StreamView| v.is_active));
        VoiceStats {
            total_streams: self.streams.len(),
            active_streams: active.len(),
            model: self.config.model.clone(),
            language: self.config.language.clone(),
            sample_rate: self.config.sample_rate,
        }
    }
}

} // verus!
