//! Typed Wyoming event model.
//!
//! Each [`Event`] variant corresponds to a wire-format event type string (e.g.
//! `"audio-chunk"`). The [`wire`](crate::wire) module handles framing; this
//! module handles the mapping between an event's `data` dict / binary payload
//! and its typed representation.

use vstd::prelude::*;
use vstd::string::*;
use crate::error::{ErrorView, ProtocolError};
use crate::json;
use crate::json::{Json, JsonView};
use crate::schema;
use crate::schema::{Kind, Schema, SchemaView};
use crate::text;

verus! {

broadcast use {json::lemma_array_view, json::lemma_object_view};

/// PCM audio sample format shared by `audio-start` and `audio-chunk` events.
///
/// Groups the three fields that describe an audio format into a single struct
/// with named fields, so constructing [`AudioStartData`] or [`AudioChunkData`]
/// cannot accidentally transpose `width` and `channels`.
#[derive(Debug, Clone, Copy, PartialEq, Eq, Structural)]
pub struct AudioFormat {
    /// Sample rate in Hz (e.g. 22050, 24000).
    pub rate: u32,
    /// Sample width in bytes (e.g. 2 for 16-bit PCM).
    pub width: u16,
    /// Number of audio channels (1 = mono).
    pub channels: u16,
}

/// Data for an `audio-start` event.
#[derive(Debug, Clone, Copy, PartialEq, Eq, Structural)]
pub struct AudioStartData {
    /// Sample rate in Hz.
    pub rate: u32,
    /// Sample width in bytes.
    pub width: u16,
    /// Number of audio channels.
    pub channels: u16,
    /// Optional timestamp in milliseconds.
    pub timestamp: Option<u64>,
}

impl AudioStartData {
    /// Data with the given audio format and no timestamp.
    pub fn new(format: AudioFormat) -> (r: Self)
        ensures
            r.rate == format.rate,
            r.width == format.width,
            r.channels == format.channels,
            r.timestamp is None,
    {
        AudioStartData {
            rate: format.rate,
            width: format.width,
            channels: format.channels,
            timestamp: None,
        }
    }
}

/// Data for an `audio-chunk` event.
///
/// The raw PCM bytes are carried in the event's binary payload, not in this
/// struct.
#[derive(Debug, Clone, Copy, PartialEq, Eq, Structural)]
pub struct AudioChunkData {
    /// Sample rate in Hz.
    pub rate: u32,
    /// Sample width in bytes.
    pub width: u16,
    /// Number of audio channels.
    pub channels: u16,
    /// Optional timestamp in milliseconds.
    pub timestamp: Option<u64>,
}

impl AudioChunkData {
    /// Data with the given audio format and no timestamp.
    pub fn new(format: AudioFormat) -> (r: Self)
        ensures
            r.rate == format.rate,
            r.width == format.width,
            r.channels == format.channels,
            r.timestamp is None,
    {
        AudioChunkData {
            rate: format.rate,
            width: format.width,
            channels: format.channels,
            timestamp: None,
        }
    }
}

/// Data for an `audio-stop` event.
#[derive(Debug, Clone, Copy, PartialEq, Eq, Structural)]
pub struct AudioStopData {
    /// Optional timestamp in milliseconds.
    pub timestamp: Option<u64>,
}

impl AudioStopData {
    /// Data with no timestamp.
    pub fn new() -> (r: Self)
        ensures
            r.timestamp is None,
    {
        AudioStopData { timestamp: None }
    }
}

impl Default for AudioStopData {
    fn default() -> (r: Self)
        ensures
            r.timestamp is None,
    {
        AudioStopData { timestamp: None }
    }
}

/// Data for a `voice-started` event.
#[derive(Debug, Clone, Copy, PartialEq, Eq, Structural)]
pub struct VoiceStartedData {
    /// Optional timestamp in milliseconds.
    pub timestamp: Option<u64>,
}

impl VoiceStartedData {
    /// Data with no timestamp.
    pub fn new() -> (r: Self)
        ensures
            r.timestamp is None,
    {
        VoiceStartedData { timestamp: None }
    }
}

impl Default for VoiceStartedData {
    fn default() -> (r: Self)
        ensures
            r.timestamp is None,
    {
        VoiceStartedData { timestamp: None }
    }
}

/// Data for a `voice-stopped` event.
#[derive(Debug, Clone, Copy, PartialEq, Eq, Structural)]
pub struct VoiceStoppedData {
    /// Optional timestamp in milliseconds.
    pub timestamp: Option<u64>,
}

impl VoiceStoppedData {
    /// Data with no timestamp.
    pub fn new() -> (r: Self)
        ensures
            r.timestamp is None,
    {
        VoiceStoppedData { timestamp: None }
    }
}

impl Default for VoiceStoppedData {
    fn default() -> (r: Self)
        ensures
            r.timestamp is None,
    {
        VoiceStoppedData { timestamp: None }
    }
}

/// Voice specification carried in a `synthesize` event.
#[derive(Debug, Clone, PartialEq, Eq)]
pub struct SynthesizeVoice {
    /// Voice name.
    pub name: Option<String>,
    /// Voice language.
    pub language: Option<String>,
    /// Speaker within the voice.
    pub speaker: Option<String>,
}

/// The content of a [`SynthesizeVoice`].
pub struct VoiceView {
    pub name: Option<Seq<char>>,
    pub language: Option<Seq<char>>,
    pub speaker: Option<Seq<char>>,
}

impl View for SynthesizeVoice {
    type V = VoiceView;

    open spec fn view(&self) -> VoiceView {
        VoiceView {
            name: text::opt_text(self.name),
            language: text::opt_text(self.language),
            speaker: text::opt_text(self.speaker),
        }
    }
}

/// The content of an optional voice.
pub open spec fn opt_voice(voice: Option<SynthesizeVoice>) -> Option<VoiceView> {
    match voice {
        Some(v) => Some(v@),
        None => None,
    }
}

impl SynthesizeVoice {
    /// A voice specification with all fields unset.
    pub fn new() -> (r: Self)
        ensures
            r@ == (VoiceView { name: None, language: None, speaker: None }),
    {
        SynthesizeVoice { name: None, language: None, speaker: None }
    }

    /// A voice specification with the given voice name.
    pub fn with_name(name: &str) -> (r: Self)
        ensures
            r@ == (VoiceView { name: Some(name@), language: None, speaker: None }),
    {
        SynthesizeVoice { name: Some(String::from_str(name)), language: None, speaker: None }
    }
}

impl Default for SynthesizeVoice {
    fn default() -> (r: Self)
        ensures
            r@ == (VoiceView { name: None, language: None, speaker: None }),
    {
        SynthesizeVoice { name: None, language: None, speaker: None }
    }
}

/// Data for a `synthesize` event.
#[derive(Debug, Clone, PartialEq, Eq)]
pub struct SynthesizeData {
    /// Text to synthesize.
    pub text: String,
    /// Optional voice specification.
    pub voice: Option<SynthesizeVoice>,
}

impl SynthesizeData {
    /// A request for the given text and no particular voice.
    pub fn new(text: &str) -> (r: Self)
        ensures
            r.text@ == text@,
            r.voice is None,
    {
        SynthesizeData { text: String::from_str(text), voice: None }
    }

    /// Sets the voice specification for this request.
    pub fn with_voice(self, voice: SynthesizeVoice) -> (r: Self)
        ensures
            r.text == self.text,
            r.voice == Some(voice),
    {
        SynthesizeData { text: self.text, voice: Some(voice) }
    }
}

/// Data for a `synthesize-start` event, which opens a streamed request.
#[derive(Debug, Clone, PartialEq, Eq)]
pub struct SynthesizeStartData {
    /// Language to speak.
    pub language: Option<String>,
    /// Optional voice specification.
    pub voice: Option<SynthesizeVoice>,
}

impl SynthesizeStartData {
    /// Data with no fields set.
    pub fn new() -> (r: Self)
        ensures
            r.language is None,
            r.voice is None,
    {
        SynthesizeStartData { language: None, voice: None }
    }

    /// Sets the language to speak.
    pub fn with_language(self, language: &str) -> (r: Self)
        ensures
            text::opt_text(r.language) == Some(language@),
            r.voice == self.voice,
    {
        SynthesizeStartData { language: Some(String::from_str(language)), voice: self.voice }
    }

    /// Sets the voice specification.
    pub fn with_voice(self, voice: SynthesizeVoice) -> (r: Self)
        ensures
            r.language == self.language,
            r.voice == Some(voice),
    {
        SynthesizeStartData { language: self.language, voice: Some(voice) }
    }
}

/// Data for a `synthesize-chunk` event.
#[derive(Debug, Clone, PartialEq, Eq)]
pub struct SynthesizeChunkData {
    /// A piece of the text.
    pub text: String,
}

impl SynthesizeChunkData {
    /// Data with the given piece of text.
    pub fn new(text: &str) -> (r: Self)
        ensures
            r.text@ == text@,
    {
        SynthesizeChunkData { text: String::from_str(text) }
    }
}

/// Data for a `transcript-chunk` event.
#[derive(Debug, Clone, PartialEq, Eq)]
pub struct TranscriptChunkData {
    /// A piece of the text.
    pub text: String,
}

impl TranscriptChunkData {
    /// Data with the given piece of text.
    pub fn new(text: &str) -> (r: Self)
        ensures
            r.text@ == text@,
    {
        TranscriptChunkData { text: String::from_str(text) }
    }
}

/// Data for a `transcribe` event (ASR request).
#[derive(Debug, Clone, PartialEq, Eq)]
pub struct TranscribeData {
    /// Model name to use for transcription.
    pub name: Option<String>,
    /// Language hint for transcription.
    pub language: Option<String>,
}

impl TranscribeData {
    /// Data with no fields set.
    pub fn new() -> (r: Self)
        ensures
            r.name is None,
            r.language is None,
    {
        TranscribeData { name: None, language: None }
    }

    /// Sets the model name to use for transcription.
    pub fn with_name(self, name: &str) -> (r: Self)
        ensures
            text::opt_text(r.name) == Some(name@),
            r.language == self.language,
    {
        TranscribeData { name: Some(String::from_str(name)), language: self.language }
    }

    /// Sets the language hint for transcription.
    pub fn with_language(self, language: &str) -> (r: Self)
        ensures
            r.name == self.name,
            text::opt_text(r.language) == Some(language@),
    {
        TranscribeData { name: self.name, language: Some(String::from_str(language)) }
    }
}

impl Default for TranscribeData {
    fn default() -> (r: Self)
        ensures
            r.name is None,
            r.language is None,
    {
        TranscribeData { name: None, language: None }
    }
}

/// Data for a `transcript-start` event.
#[derive(Debug, Clone, PartialEq, Eq)]
pub struct TranscriptStartData {
    /// Language of the transcription.
    pub language: Option<String>,
}

impl TranscriptStartData {
    /// Data with no language.
    pub fn new() -> (r: Self)
        ensures
            r.language is None,
    {
        TranscriptStartData { language: None }
    }

    /// Sets the language of the transcription.
    pub fn with_language(self, language: &str) -> (r: Self)
        ensures
            text::opt_text(r.language) == Some(language@),
    {
        TranscriptStartData { language: Some(String::from_str(language)) }
    }
}

/// Data for a `transcript` event (ASR result).
#[derive(Debug, Clone, PartialEq, Eq)]
pub struct TranscriptData {
    /// Transcribed text.
    pub text: String,
    /// Language of the transcription.
    pub language: Option<String>,
}

impl TranscriptData {
    /// A transcript of the given text and no language.
    pub fn new(text: &str) -> (r: Self)
        ensures
            r.text@ == text@,
            r.language is None,
    {
        TranscriptData { text: String::from_str(text), language: None }
    }

    /// Sets the language of the transcription.
    pub fn with_language(self, language: &str) -> (r: Self)
        ensures
            r.text == self.text,
            text::opt_text(r.language) == Some(language@),
    {
        TranscriptData { text: self.text, language: Some(String::from_str(language)) }
    }
}

/// Data for a `ping` event.
#[derive(Debug, Clone, PartialEq, Eq)]
pub struct PingData {
    /// Optional text to echo back in the `pong` response.
    pub text: Option<String>,
}

impl PingData {
    /// Data with no text.
    pub fn new() -> (r: Self)
        ensures
            r.text is None,
    {
        PingData { text: None }
    }

    /// Data with the given text.
    pub fn with_text(text: &str) -> (r: Self)
        ensures
            text::opt_text(r.text) == Some(text@),
    {
        PingData { text: Some(String::from_str(text)) }
    }
}

impl Default for PingData {
    fn default() -> (r: Self)
        ensures
            r.text is None,
    {
        PingData { text: None }
    }
}

/// Data for a `pong` event.
#[derive(Debug, Clone, PartialEq, Eq)]
pub struct PongData {
    /// Text echoed from the `ping` request.
    pub text: Option<String>,
}

impl PongData {
    /// Data with no text.
    pub fn new() -> (r: Self)
        ensures
            r.text is None,
    {
        PongData { text: None }
    }

    /// Data with the given text.
    pub fn with_text(text: &str) -> (r: Self)
        ensures
            text::opt_text(r.text) == Some(text@),
    {
        PongData { text: Some(String::from_str(text)) }
    }
}

impl Default for PongData {
    fn default() -> (r: Self)
        ensures
            r.text is None,
    {
        PongData { text: None }
    }
}

/// Data for an `error` event.
#[derive(Debug, Clone, PartialEq, Eq)]
pub struct ErrorData {
    /// Human-readable error message.
    pub text: String,
    /// Optional machine-readable error code.
    pub code: Option<String>,
}

impl ErrorData {
    /// An error with the given message and no code.
    pub fn new(text: &str) -> (r: Self)
        ensures
            r.text@ == text@,
            r.code is None,
    {
        ErrorData { text: String::from_str(text), code: None }
    }

    /// Sets the machine-readable error code.
    pub fn with_code(self, code: &str) -> (r: Self)
        ensures
            r.text == self.text,
            text::opt_text(r.code) == Some(code@),
    {
        ErrorData { text: self.text, code: Some(String::from_str(code)) }
    }
}

/// Data for an `info` event (service discovery response).
///
/// Service descriptors are kept as JSON values: the full schema is deeply
/// nested and only needed by callers building or reading discovery responses.
#[derive(Debug, Clone, PartialEq)]
pub struct InfoData {
    /// TTS service descriptors.
    pub tts: Vec<Json>,
    /// ASR service descriptors.
    pub asr: Vec<Json>,
    /// Wake word service descriptors.
    pub wake: Vec<Json>,
}

impl InfoData {
    /// Data with empty service descriptor lists.
    pub fn new() -> (r: Self)
        ensures
            r.tts@.len() == 0,
            r.asr@.len() == 0,
            r.wake@.len() == 0,
    {
        InfoData { tts: Vec::new(), asr: Vec::new(), wake: Vec::new() }
    }

    /// Sets the TTS service descriptors.
    pub fn with_tts(self, tts: Vec<Json>) -> (r: Self)
        ensures
            r.tts == tts,
            r.asr == self.asr,
            r.wake == self.wake,
    {
        InfoData { tts, asr: self.asr, wake: self.wake }
    }

    /// Sets the ASR service descriptors.
    pub fn with_asr(self, asr: Vec<Json>) -> (r: Self)
        ensures
            r.tts == self.tts,
            r.asr == asr,
            r.wake == self.wake,
    {
        InfoData { tts: self.tts, asr, wake: self.wake }
    }
}

impl Default for InfoData {
    fn default() -> (r: Self)
        ensures
            r.tts@.len() == 0,
            r.asr@.len() == 0,
            r.wake@.len() == 0,
    {
        InfoData { tts: Vec::new(), asr: Vec::new(), wake: Vec::new() }
    }
}

/// A Wyoming protocol event.
///
/// Each variant corresponds to a wire-format event type. The
/// [`Event::Unknown`] variant preserves events with unrecognized type strings,
/// so that a handler can ignore them rather than disconnecting.
#[derive(Debug, Clone, PartialEq)]
pub enum Event {
    /// Audio stream has started. Carries format metadata.
    AudioStart(AudioStartData),
    /// A chunk of raw PCM audio.
    AudioChunk {
        /// Audio format and optional timestamp.
        data: AudioChunkData,
        /// Raw PCM audio bytes.
        audio: Vec<u8>,
    },
    /// Audio stream has stopped.
    AudioStop(AudioStopData),
    /// Speech was detected.
    VoiceStarted(VoiceStartedData),
    /// Speech is over.
    VoiceStopped(VoiceStoppedData),
    /// Request to synthesize speech from text.
    Synthesize(SynthesizeData),
    /// Start of a synthesize request whose text is streamed.
    SynthesizeStart(SynthesizeStartData),
    /// A piece of the text of a streamed synthesize request.
    SynthesizeChunk(SynthesizeChunkData),
    /// End of the text of a streamed synthesize request.
    SynthesizeStop,
    /// End of the response to a streamed synthesize request.
    SynthesizeStopped,
    /// Request to transcribe speech to text.
    Transcribe(TranscribeData),
    /// Start of a streamed transcript.
    TranscriptStart(TranscriptStartData),
    /// A piece of a streamed transcript.
    TranscriptChunk(TranscriptChunkData),
    /// Result of transcribing speech to text.
    Transcript(TranscriptData),
    /// End of a streamed transcript.
    TranscriptStop,
    /// Request for service information. No data, no payload.
    Describe,
    /// Service information response.
    Info(InfoData),
    /// Keepalive request.
    Ping(PingData),
    /// Keepalive response.
    Pong(PongData),
    /// Error report.
    Error(ErrorData),
    /// An event with an unrecognized type string.
    ///
    /// Preserves the original type string, the merged data dict, and any
    /// binary payload.
    Unknown {
        /// The event type string from the wire.
        event_type: String,
        /// The merged data dict (inline header data + external data).
        data: Json,
        /// Optional binary payload.
        payload: Option<Vec<u8>>,
    },
}

/// The content of an [`Event`].
pub enum EventView {
    AudioStart(AudioStartData),
    AudioChunk { data: AudioChunkData, audio: Seq<u8> },
    AudioStop(AudioStopData),
    VoiceStarted(VoiceStartedData),
    VoiceStopped(VoiceStoppedData),
    Synthesize { text: Seq<char>, voice: Option<VoiceView> },
    SynthesizeStart { language: Option<Seq<char>>, voice: Option<VoiceView> },
    SynthesizeChunk { text: Seq<char> },
    SynthesizeStop,
    SynthesizeStopped,
    Transcribe { name: Option<Seq<char>>, language: Option<Seq<char>> },
    TranscriptStart { language: Option<Seq<char>> },
    TranscriptChunk { text: Seq<char> },
    Transcript { text: Seq<char>, language: Option<Seq<char>> },
    TranscriptStop,
    Describe,
    Info { tts: Seq<JsonView>, asr: Seq<JsonView>, wake: Seq<JsonView> },
    Ping { text: Option<Seq<char>> },
    Pong { text: Option<Seq<char>> },
    Error { text: Seq<char>, code: Option<Seq<char>> },
    Unknown { event_type: Seq<char>, data: JsonView, payload: Option<Seq<u8>> },
}

/// The content of an optional byte string.
pub open spec fn opt_bytes(o: Option<Vec<u8>>) -> Option<Seq<u8>> {
    match o {
        Some(v) => Some(v@),
        None => None,
    }
}

impl View for Event {
    type V = EventView;

    open spec fn view(&self) -> EventView {
        match *self {
            Event::AudioStart(d) => EventView::AudioStart(d),
            Event::AudioChunk { data, audio } => EventView::AudioChunk { data, audio: audio@ },
            Event::AudioStop(d) => EventView::AudioStop(d),
            Event::VoiceStarted(d) => EventView::VoiceStarted(d),
            Event::VoiceStopped(d) => EventView::VoiceStopped(d),
            Event::Synthesize(d) => EventView::Synthesize { text: d.text@, voice: opt_voice(d.voice) },
            Event::SynthesizeStart(d) => EventView::SynthesizeStart {
                language: text::opt_text(d.language),
                voice: opt_voice(d.voice),
            },
            Event::SynthesizeChunk(d) => EventView::SynthesizeChunk { text: d.text@ },
            Event::SynthesizeStop => EventView::SynthesizeStop,
            Event::SynthesizeStopped => EventView::SynthesizeStopped,
            Event::Transcribe(d) => EventView::Transcribe {
                name: text::opt_text(d.name),
                language: text::opt_text(d.language),
            },
            Event::TranscriptStart(d) => EventView::TranscriptStart {
                language: text::opt_text(d.language),
            },
            Event::TranscriptChunk(d) => EventView::TranscriptChunk { text: d.text@ },
            Event::Transcript(d) => EventView::Transcript {
                text: d.text@,
                language: text::opt_text(d.language),
            },
            Event::TranscriptStop => EventView::TranscriptStop,
            Event::Describe => EventView::Describe,
            Event::Info(d) => EventView::Info {
                tts: json::items_view(d.tts@),
                asr: json::items_view(d.asr@),
                wake: json::items_view(d.wake@),
            },
            Event::Ping(d) => EventView::Ping { text: text::opt_text(d.text) },
            Event::Pong(d) => EventView::Pong { text: text::opt_text(d.text) },
            Event::Error(d) => EventView::Error { text: d.text@, code: text::opt_text(d.code) },
            Event::Unknown { event_type, data, payload } => EventView::Unknown {
                event_type: event_type@,
                data: data@,
                payload: opt_bytes(payload),
            },
        }
    }
}

/// Wire-format type string for `audio-start` events.
pub const TYPE_AUDIO_START: &'static str = "audio-start";

/// Wire-format type string for `audio-chunk` events.
pub const TYPE_AUDIO_CHUNK: &'static str = "audio-chunk";

/// Wire-format type string for `audio-stop` events.
pub const TYPE_AUDIO_STOP: &'static str = "audio-stop";

/// Wire-format type string for `voice-started` events.
pub const TYPE_VOICE_STARTED: &'static str = "voice-started";

/// Wire-format type string for `voice-stopped` events.
pub const TYPE_VOICE_STOPPED: &'static str = "voice-stopped";

/// Wire-format type string for `synthesize` events.
pub const TYPE_SYNTHESIZE: &'static str = "synthesize";

/// Wire-format type string for `synthesize-start` events.
pub const TYPE_SYNTHESIZE_START: &'static str = "synthesize-start";

/// Wire-format type string for `synthesize-chunk` events.
pub const TYPE_SYNTHESIZE_CHUNK: &'static str = "synthesize-chunk";

/// Wire-format type string for `synthesize-stop` events.
pub const TYPE_SYNTHESIZE_STOP: &'static str = "synthesize-stop";

/// Wire-format type string for `synthesize-stopped` events.
pub const TYPE_SYNTHESIZE_STOPPED: &'static str = "synthesize-stopped";

/// Wire-format type string for `transcribe` events.
pub const TYPE_TRANSCRIBE: &'static str = "transcribe";

/// Wire-format type string for `transcript-start` events.
pub const TYPE_TRANSCRIPT_START: &'static str = "transcript-start";

/// Wire-format type string for `transcript-chunk` events.
pub const TYPE_TRANSCRIPT_CHUNK: &'static str = "transcript-chunk";

/// Wire-format type string for `transcript` events.
pub const TYPE_TRANSCRIPT: &'static str = "transcript";

/// Wire-format type string for `transcript-stop` events.
pub const TYPE_TRANSCRIPT_STOP: &'static str = "transcript-stop";

/// Wire-format type string for `describe` events.
pub const TYPE_DESCRIBE: &'static str = "describe";

/// Wire-format type string for `info` events.
pub const TYPE_INFO: &'static str = "info";

/// Wire-format type string for `ping` events.
pub const TYPE_PING: &'static str = "ping";

/// Wire-format type string for `pong` events.
pub const TYPE_PONG: &'static str = "pong";

/// Wire-format type string for `error` events.
pub const TYPE_ERROR: &'static str = "error";

/// The wire-format type string of an event.
pub open spec fn type_of(event: EventView) -> Seq<char> {
    match event {
        EventView::AudioStart(_) => TYPE_AUDIO_START@,
        EventView::AudioChunk { .. } => TYPE_AUDIO_CHUNK@,
        EventView::AudioStop(_) => TYPE_AUDIO_STOP@,
        EventView::VoiceStarted(_) => TYPE_VOICE_STARTED@,
        EventView::VoiceStopped(_) => TYPE_VOICE_STOPPED@,
        EventView::Synthesize { .. } => TYPE_SYNTHESIZE@,
        EventView::SynthesizeStart { .. } => TYPE_SYNTHESIZE_START@,
        EventView::SynthesizeChunk { .. } => TYPE_SYNTHESIZE_CHUNK@,
        EventView::SynthesizeStop => TYPE_SYNTHESIZE_STOP@,
        EventView::SynthesizeStopped => TYPE_SYNTHESIZE_STOPPED@,
        EventView::Transcribe { .. } => TYPE_TRANSCRIBE@,
        EventView::TranscriptStart { .. } => TYPE_TRANSCRIPT_START@,
        EventView::TranscriptChunk { .. } => TYPE_TRANSCRIPT_CHUNK@,
        EventView::Transcript { .. } => TYPE_TRANSCRIPT@,
        EventView::TranscriptStop => TYPE_TRANSCRIPT_STOP@,
        EventView::Describe => TYPE_DESCRIBE@,
        EventView::Info { .. } => TYPE_INFO@,
        EventView::Ping { .. } => TYPE_PING@,
        EventView::Pong { .. } => TYPE_PONG@,
        EventView::Error { .. } => TYPE_ERROR@,
        EventView::Unknown { event_type, .. } => event_type,
    }
}

/// The JSON value for an optional number.
pub open spec fn number_value(o: Option<u64>) -> Option<JsonView> {
    match o {
        Some(n) => Some(JsonView::Unsigned(n)),
        None => None,
    }
}

/// The members for an audio format and a timestamp.
pub open spec fn audio_fields(rate: u32, width: u16, channels: u16, timestamp: Option<u64>) -> Seq<
    (Seq<char>, JsonView),
> {
    json::one("rate"@, JsonView::Unsigned(rate as u64)) + json::one(
        "width"@,
        JsonView::Unsigned(width as u64),
    ) + json::one("channels"@, JsonView::Unsigned(channels as u64)) + json::maybe(
        "timestamp"@,
        number_value(timestamp),
    )
}

/// The members for a voice.
pub open spec fn voice_fields(voice: VoiceView) -> Seq<(Seq<char>, JsonView)> {
    json::maybe("name"@, json::text_value(voice.name)) + json::maybe(
        "language"@,
        json::text_value(voice.language),
    ) + json::maybe("speaker"@, json::text_value(voice.speaker))
}

/// The JSON value for an optional voice.
pub open spec fn voice_value(voice: Option<VoiceView>) -> Option<JsonView> {
    match voice {
        Some(v) => Some(JsonView::Object(voice_fields(v))),
        None => None,
    }
}

/// The JSON value for a list that is left out where it is empty.
pub open spec fn list_value(list: Seq<JsonView>) -> Option<JsonView> {
    if list.len() == 0 {
        None
    } else {
        Some(JsonView::Array(list))
    }
}

/// The data of an event: an object with the event's fields in order, those
/// that are unset left out; `null` for an event type that has no data.
pub open spec fn data_of(event: EventView) -> JsonView {
    match event {
        EventView::AudioStart(d) => JsonView::Object(
            audio_fields(d.rate, d.width, d.channels, d.timestamp),
        ),
        EventView::AudioChunk { data: d, .. } => JsonView::Object(
            audio_fields(d.rate, d.width, d.channels, d.timestamp),
        ),
        EventView::AudioStop(d) => JsonView::Object(
            json::maybe("timestamp"@, number_value(d.timestamp)),
        ),
        EventView::VoiceStarted(d) => JsonView::Object(
            json::maybe("timestamp"@, number_value(d.timestamp)),
        ),
        EventView::VoiceStopped(d) => JsonView::Object(
            json::maybe("timestamp"@, number_value(d.timestamp)),
        ),
        EventView::Synthesize { text, voice } => JsonView::Object(
            json::one("text"@, JsonView::Text(text)) + json::maybe("voice"@, voice_value(voice)),
        ),
        EventView::SynthesizeStart { language, voice } => JsonView::Object(
            json::maybe("language"@, json::text_value(language)) + json::maybe(
                "voice"@,
                voice_value(voice),
            ),
        ),
        EventView::SynthesizeChunk { text } => JsonView::Object(
            json::one("text"@, JsonView::Text(text)),
        ),
        EventView::SynthesizeStop => JsonView::Null,
        EventView::SynthesizeStopped => JsonView::Null,
        EventView::Transcribe { name, language } => JsonView::Object(
            json::maybe("name"@, json::text_value(name)) + json::maybe(
                "language"@,
                json::text_value(language),
            ),
        ),
        EventView::TranscriptStart { language } => JsonView::Object(
            json::maybe("language"@, json::text_value(language)),
        ),
        EventView::TranscriptChunk { text } => JsonView::Object(
            json::one("text"@, JsonView::Text(text)),
        ),
        EventView::Transcript { text, language } => JsonView::Object(
            json::one("text"@, JsonView::Text(text)) + json::maybe(
                "language"@,
                json::text_value(language),
            ),
        ),
        EventView::TranscriptStop => JsonView::Null,
        EventView::Describe => JsonView::Null,
        EventView::Info { tts, asr, wake } => JsonView::Object(
            json::maybe("tts"@, list_value(tts)) + json::maybe("asr"@, list_value(asr))
                + json::maybe("wake"@, list_value(wake)),
        ),
        EventView::Ping { text } => JsonView::Object(
            json::maybe("text"@, json::text_value(text)),
        ),
        EventView::Pong { text } => JsonView::Object(
            json::maybe("text"@, json::text_value(text)),
        ),
        EventView::Error { text, code } => JsonView::Object(
            json::one("text"@, JsonView::Text(text)) + json::maybe("code"@, json::text_value(code)),
        ),
        EventView::Unknown { data, .. } => data,
    }
}

/// The binary payload of an event.
pub open spec fn payload_of(event: EventView) -> Option<Seq<u8>> {
    match event {
        EventView::AudioChunk { audio, .. } => Some(audio),
        EventView::Unknown { payload, .. } => payload,
        _ => None,
    }
}

/// The data value that is sent as a segment: nothing where there is no
/// information to send.
pub open spec fn sent_data(event: EventView) -> Option<JsonView> {
    match data_of(event) {
        JsonView::Null => None,
        JsonView::Object(fields) => if fields.len() == 0 {
            None
        } else {
            Some(JsonView::Object(fields))
        },
        other => Some(other),
    }
}
/// The value given for the field called `name`, the field numbered `k`: a data
/// value lists its fields by name in an object or by position in an array.
pub open spec fn slot(data: JsonView, k: int, name: Seq<char>) -> Option<JsonView> {
    match data {
        JsonView::Object(fields) => json::member(fields, name),
        JsonView::Array(items) => if 0 <= k < items.len() {
            Some(items[k])
        } else {
            None
        },
        _ => None,
    }
}

/// `data` can list the values of `count` fields.
pub open spec fn is_record(data: JsonView, count: int) -> bool {
    match data {
        JsonView::Object(_) => true,
        JsonView::Array(items) => items.len() <= count,
        _ => false,
    }
}

/// A required integer of at most `max`.
pub open spec fn integer_field(value: Option<JsonView>, max: int) -> Option<u64> {
    match value {
        Some(JsonView::Unsigned(n)) => if n <= max {
            Some(n)
        } else {
            None
        },
        _ => None,
    }
}

/// An optional integer; `null` counts as unset.
pub open spec fn optional_integer(value: Option<JsonView>) -> Option<Option<u64>> {
    match value {
        None => Some(None),
        Some(JsonView::Null) => Some(None),
        Some(JsonView::Unsigned(n)) => Some(Some(n)),
        _ => None,
    }
}

/// A required text.
pub open spec fn text_field(value: Option<JsonView>) -> Option<Seq<char>> {
    match value {
        Some(JsonView::Text(s)) => Some(s),
        _ => None,
    }
}

/// An optional text; `null` counts as unset.
pub open spec fn optional_text(value: Option<JsonView>) -> Option<Option<Seq<char>>> {
    match value {
        None => Some(None),
        Some(JsonView::Null) => Some(None),
        Some(JsonView::Text(s)) => Some(Some(s)),
        _ => None,
    }
}

/// A list that is empty where it is left out.
pub open spec fn list_field(value: Option<JsonView>) -> Option<Seq<JsonView>> {
    match value {
        None => Some(Seq::empty()),
        Some(JsonView::Array(items)) => Some(items),
        _ => None,
    }
}

/// A voice, from a record of its name, language and speaker.
pub open spec fn voice_from(data: JsonView) -> Option<VoiceView> {
    let name = optional_text(slot(data, 0, "name"@));
    let language = optional_text(slot(data, 1, "language"@));
    let speaker = optional_text(slot(data, 2, "speaker"@));
    if is_record(data, 3) && name is Some && language is Some && speaker is Some {
        Some(VoiceView { name: name->0, language: language->0, speaker: speaker->0 })
    } else {
        None
    }
}

/// An optional voice; `null` counts as unset.
pub open spec fn optional_voice(value: Option<JsonView>) -> Option<Option<VoiceView>> {
    match value {
        None => Some(None),
        Some(JsonView::Null) => Some(None),
        Some(data) => match voice_from(data) {
            Some(voice) => Some(Some(voice)),
            None => None,
        },
    }
}

/// An audio format and a timestamp, from a record of them.
pub open spec fn audio_from(data: JsonView) -> Option<(u32, u16, u16, Option<u64>)> {
    let rate = integer_field(slot(data, 0, "rate"@), u32::MAX as int);
    let width = integer_field(slot(data, 1, "width"@), u16::MAX as int);
    let channels = integer_field(slot(data, 2, "channels"@), u16::MAX as int);
    let timestamp = optional_integer(slot(data, 3, "timestamp"@));
    if is_record(data, 4) && rate is Some && width is Some && channels is Some && timestamp is Some {
        Some((rate->0 as u32, width->0 as u16, channels->0 as u16, timestamp->0))
    } else {
        None
    }
}

/// A timestamp, from a record of it.
pub open spec fn timestamp_from(data: JsonView) -> Option<Option<u64>> {
    if is_record(data, 1) {
        optional_integer(slot(data, 0, "timestamp"@))
    } else {
        None
    }
}

/// A required text alone, from a record of it.
pub open spec fn text_from(data: JsonView) -> Option<Seq<char>> {
    if is_record(data, 1) {
        text_field(slot(data, 0, "text"@))
    } else {
        None
    }
}

/// An optional text alone, from a record of it.
pub open spec fn optional_text_from(data: JsonView, name: Seq<char>) -> Option<Option<Seq<char>>> {
    if is_record(data, 1) {
        optional_text(slot(data, 0, name))
    } else {
        None
    }
}

/// A required text and an optional one, from a record of them.
pub open spec fn text_pair_from(data: JsonView, second: Seq<char>) -> Option<
    (Seq<char>, Option<Seq<char>>),
> {
    let text = text_field(slot(data, 0, "text"@));
    let other = optional_text(slot(data, 1, second));
    if is_record(data, 2) && text is Some && other is Some {
        Some((text->0, other->0))
    } else {
        None
    }
}

/// No data at all stands for a data value with no fields set.
pub open spec fn filled(data: JsonView) -> JsonView {
    if data is Null {
        JsonView::Object(Seq::empty())
    } else {
        data
    }
}

/// The bytes of a payload, none where it is absent.
pub open spec fn payload_bytes(payload: Option<Seq<u8>>) -> Seq<u8> {
    match payload {
        Some(bytes) => bytes,
        None => Seq::empty(),
    }
}

/// `event_type` is the type string of one of the typed events.
pub open spec fn known_type(event_type: Seq<char>) -> bool {
    ||| event_type == TYPE_AUDIO_START@
    ||| event_type == TYPE_AUDIO_CHUNK@
    ||| event_type == TYPE_AUDIO_STOP@
    ||| event_type == TYPE_VOICE_STARTED@
    ||| event_type == TYPE_VOICE_STOPPED@
    ||| event_type == TYPE_SYNTHESIZE@
    ||| event_type == TYPE_SYNTHESIZE_START@
    ||| event_type == TYPE_SYNTHESIZE_CHUNK@
    ||| event_type == TYPE_SYNTHESIZE_STOP@
    ||| event_type == TYPE_SYNTHESIZE_STOPPED@
    ||| event_type == TYPE_TRANSCRIBE@
    ||| event_type == TYPE_TRANSCRIPT_START@
    ||| event_type == TYPE_TRANSCRIPT_CHUNK@
    ||| event_type == TYPE_TRANSCRIPT@
    ||| event_type == TYPE_TRANSCRIPT_STOP@
    ||| event_type == TYPE_DESCRIBE@
    ||| event_type == TYPE_INFO@
    ||| event_type == TYPE_PING@
    ||| event_type == TYPE_PONG@
    ||| event_type == TYPE_ERROR@
}

/// The typed event for a type string, a data value and a payload, if the data
/// matches the schema of the type. An unrecognized type takes any data.
pub open spec fn event_from(event_type: Seq<char>, data: JsonView, payload: Option<Seq<u8>>) -> Option<
    EventView,
> {
    let data = filled(data);
    if event_type == TYPE_AUDIO_START@ {
        match audio_from(data) {
            Some((rate, width, channels, timestamp)) => Some(
                EventView::AudioStart(AudioStartData { rate, width, channels, timestamp }),
            ),
            None => None,
        }
    } else if event_type == TYPE_AUDIO_CHUNK@ {
        match audio_from(data) {
            Some((rate, width, channels, timestamp)) => Some(
                EventView::AudioChunk {
                    data: AudioChunkData { rate, width, channels, timestamp },
                    audio: payload_bytes(payload),
                },
            ),
            None => None,
        }
    } else if event_type == TYPE_AUDIO_STOP@ {
        match timestamp_from(data) {
            Some(timestamp) => Some(EventView::AudioStop(AudioStopData { timestamp })),
            None => None,
        }
    } else if event_type == TYPE_VOICE_STARTED@ {
        match timestamp_from(data) {
            Some(timestamp) => Some(EventView::VoiceStarted(VoiceStartedData { timestamp })),
            None => None,
        }
    } else if event_type == TYPE_VOICE_STOPPED@ {
        match timestamp_from(data) {
            Some(timestamp) => Some(EventView::VoiceStopped(VoiceStoppedData { timestamp })),
            None => None,
        }
    } else if event_type == TYPE_SYNTHESIZE@ {
        let text = text_field(slot(data, 0, "text"@));
        let voice = optional_voice(slot(data, 1, "voice"@));
        if is_record(data, 2) && text is Some && voice is Some {
            Some(EventView::Synthesize { text: text->0, voice: voice->0 })
        } else {
            None
        }
    } else if event_type == TYPE_SYNTHESIZE_START@ {
        let language = optional_text(slot(data, 0, "language"@));
        let voice = optional_voice(slot(data, 1, "voice"@));
        if is_record(data, 2) && language is Some && voice is Some {
            Some(EventView::SynthesizeStart { language: language->0, voice: voice->0 })
        } else {
            None
        }
    } else if event_type == TYPE_SYNTHESIZE_CHUNK@ {
        match text_from(data) {
            Some(text) => Some(EventView::SynthesizeChunk { text }),
            None => None,
        }
    } else if event_type == TYPE_SYNTHESIZE_STOP@ {
        Some(EventView::SynthesizeStop)
    } else if event_type == TYPE_SYNTHESIZE_STOPPED@ {
        Some(EventView::SynthesizeStopped)
    } else if event_type == TYPE_TRANSCRIBE@ {
        let name = optional_text(slot(data, 0, "name"@));
        let language = optional_text(slot(data, 1, "language"@));
        if is_record(data, 2) && name is Some && language is Some {
            Some(EventView::Transcribe { name: name->0, language: language->0 })
        } else {
            None
        }
    } else if event_type == TYPE_TRANSCRIPT_START@ {
        match optional_text_from(data, "language"@) {
            Some(language) => Some(EventView::TranscriptStart { language }),
            None => None,
        }
    } else if event_type == TYPE_TRANSCRIPT_CHUNK@ {
        match text_from(data) {
            Some(text) => Some(EventView::TranscriptChunk { text }),
            None => None,
        }
    } else if event_type == TYPE_TRANSCRIPT@ {
        match text_pair_from(data, "language"@) {
            Some((text, language)) => Some(EventView::Transcript { text, language }),
            None => None,
        }
    } else if event_type == TYPE_TRANSCRIPT_STOP@ {
        Some(EventView::TranscriptStop)
    } else if event_type == TYPE_DESCRIBE@ {
        Some(EventView::Describe)
    } else if event_type == TYPE_INFO@ {
        let tts = list_field(slot(data, 0, "tts"@));
        let asr = list_field(slot(data, 1, "asr"@));
        let wake = list_field(slot(data, 2, "wake"@));
        if is_record(data, 3) && tts is Some && asr is Some && wake is Some {
            Some(EventView::Info { tts: tts->0, asr: asr->0, wake: wake->0 })
        } else {
            None
        }
    } else if event_type == TYPE_PING@ {
        match optional_text_from(data, "text"@) {
            Some(text) => Some(EventView::Ping { text }),
            None => None,
        }
    } else if event_type == TYPE_PONG@ {
        match optional_text_from(data, "text"@) {
            Some(text) => Some(EventView::Pong { text }),
            None => None,
        }
    } else if event_type == TYPE_ERROR@ {
        match text_pair_from(data, "code"@) {
            Some((text, code)) => Some(EventView::Error { text, code }),
            None => None,
        }
    } else {
        Some(EventView::Unknown { event_type, data, payload })
    }
}

/// The fields of the data of a typed event that has any.
pub open spec fn schema_of(event_type: Seq<char>) -> Option<SchemaView> {
    if event_type == TYPE_AUDIO_START@ {
        Some(
            SchemaView {
                title: "struct AudioStartData"@,
                fields: seq![
                    ("rate"@, Kind::U32),
                    ("width"@, Kind::U16),
                    ("channels"@, Kind::U16),
                    ("timestamp"@, Kind::OptionalU64),
                ],
            },
        )
    } else if event_type == TYPE_AUDIO_CHUNK@ {
        Some(
            SchemaView {
                title: "struct AudioChunkData"@,
                fields: seq![
                    ("rate"@, Kind::U32),
                    ("width"@, Kind::U16),
                    ("channels"@, Kind::U16),
                    ("timestamp"@, Kind::OptionalU64),
                ],
            },
        )
    } else if event_type == TYPE_AUDIO_STOP@ {
        Some(
            SchemaView {
                title: "struct AudioStopData"@,
                fields: seq![
                    ("timestamp"@, Kind::OptionalU64),
                ],
            },
        )
    } else if event_type == TYPE_VOICE_STARTED@ {
        Some(
            SchemaView {
                title: "struct VoiceStartedData"@,
                fields: seq![
                    ("timestamp"@, Kind::OptionalU64),
                ],
            },
        )
    } else if event_type == TYPE_VOICE_STOPPED@ {
        Some(
            SchemaView {
                title: "struct VoiceStoppedData"@,
                fields: seq![
                    ("timestamp"@, Kind::OptionalU64),
                ],
            },
        )
    } else if event_type == TYPE_SYNTHESIZE@ {
        Some(
            SchemaView {
                title: "struct SynthesizeData"@,
                fields: seq![
                    ("text"@, Kind::Text),
                    ("voice"@, Kind::OptionalVoice),
                ],
            },
        )
    } else if event_type == TYPE_SYNTHESIZE_START@ {
        Some(
            SchemaView {
                title: "struct SynthesizeStartData"@,
                fields: seq![
                    ("language"@, Kind::OptionalText),
                    ("voice"@, Kind::OptionalVoice),
                ],
            },
        )
    } else if event_type == TYPE_SYNTHESIZE_CHUNK@ {
        Some(
            SchemaView {
                title: "struct SynthesizeChunkData"@,
                fields: seq![
                    ("text"@, Kind::Text),
                ],
            },
        )
    } else if event_type == TYPE_TRANSCRIBE@ {
        Some(
            SchemaView {
                title: "struct TranscribeData"@,
                fields: seq![
                    ("name"@, Kind::OptionalText),
                    ("language"@, Kind::OptionalText),
                ],
            },
        )
    } else if event_type == TYPE_TRANSCRIPT_START@ {
        Some(
            SchemaView {
                title: "struct TranscriptStartData"@,
                fields: seq![
                    ("language"@, Kind::OptionalText),
                ],
            },
        )
    } else if event_type == TYPE_TRANSCRIPT_CHUNK@ {
        Some(
            SchemaView {
                title: "struct TranscriptChunkData"@,
                fields: seq![
                    ("text"@, Kind::Text),
                ],
            },
        )
    } else if event_type == TYPE_TRANSCRIPT@ {
        Some(
            SchemaView {
                title: "struct TranscriptData"@,
                fields: seq![
                    ("text"@, Kind::Text),
                    ("language"@, Kind::OptionalText),
                ],
            },
        )
    } else if event_type == TYPE_INFO@ {
        Some(
            SchemaView {
                title: "struct InfoData"@,
                fields: seq![
                    ("tts"@, Kind::List),
                    ("asr"@, Kind::List),
                    ("wake"@, Kind::List),
                ],
            },
        )
    } else if event_type == TYPE_PING@ {
        Some(
            SchemaView {
                title: "struct PingData"@,
                fields: seq![
                    ("text"@, Kind::OptionalText),
                ],
            },
        )
    } else if event_type == TYPE_PONG@ {
        Some(
            SchemaView {
                title: "struct PongData"@,
                fields: seq![
                    ("text"@, Kind::OptionalText),
                ],
            },
        )
    } else if event_type == TYPE_ERROR@ {
        Some(
            SchemaView {
                title: "struct ErrorData"@,
                fields: seq![
                    ("text"@, Kind::Text),
                    ("code"@, Kind::OptionalText),
                ],
            },
        )
    } else {
        None
    }
}

/// Why data does not match the schema of its event type, if it does not.
pub open spec fn data_refused(event_type: Seq<char>, data: JsonView) -> Option<Seq<char>> {
    match schema_of(event_type) {
        Some(schema) => schema::record_refused(filled(data), schema, 1),
        None => None,
    }
}

/// Data from which no event can be built is refused for a reason.
pub proof fn law_refused_for_a_reason(
    event_type: Seq<char>,
    data: JsonView,
    payload: Option<Seq<u8>>,
)
    requires
        event_from(event_type, data, payload) is None,
    ensures
        data_refused(event_type, data) is Some,
{
    if data_refused(event_type, data) is None && schema_of(event_type) is Some {
        let value = filled(data);
        let schema = schema_of(event_type)->0;
        let n = schema.fields.len() as int;
        lemma_names_differ();
        reveal_with_fuel(schema::kind_of, 5);
        assert forall|k: int| 0 <= k < n implies schema::kind_of(
            schema.fields,
            (#[trigger] schema.fields[k]).0,
            0,
        ) == Some(schema.fields[k].1) by {}
        schema::lemma_suits(value, schema, 1, 0);
        if n > 1 {
            schema::lemma_suits(value, schema, 1, 1);
        }
        if n > 2 {
            schema::lemma_suits(value, schema, 1, 2);
        }
        if n > 3 {
            schema::lemma_suits(value, schema, 1, 3);
        }
        lemma_voice_suits(slot(value, 1, "voice"@));
    }
}

/// A voice that is not refused can be read.
proof fn lemma_voice_suits(value: Option<JsonView>)
    requires
        value matches Some(v) ==> schema::value_refused(Kind::OptionalVoice, v, 1) is None,
    ensures
        optional_voice(value) is Some,
{
    if let Some(v) = value {
        if !(v is Null) {
            let schema = schema::voice_schema();
            lemma_names_differ();
            reveal_with_fuel(schema::kind_of, 5);
            schema::lemma_suits(v, schema, 0, 0);
            schema::lemma_suits(v, schema, 0, 1);
            schema::lemma_suits(v, schema, 0, 2);
        }
    }
}

/// The fields of the data of a typed event that has any.
fn find_schema(event_type: &str) -> (r: Option<Schema>)
    ensures
        match r {
            Some(schema) => schema_of(event_type@) == Some(schema@),
            None => schema_of(event_type@) is None,
        },
{
    let schema = if text::same(event_type, TYPE_AUDIO_START) {
        Schema {
            title: "struct AudioStartData",
            fields: vec![
                ("rate", Kind::U32),
                ("width", Kind::U16),
                ("channels", Kind::U16),
                ("timestamp", Kind::OptionalU64),
            ],
        }
    } else if text::same(event_type, TYPE_AUDIO_CHUNK) {
        Schema {
            title: "struct AudioChunkData",
            fields: vec![
                ("rate", Kind::U32),
                ("width", Kind::U16),
                ("channels", Kind::U16),
                ("timestamp", Kind::OptionalU64),
            ],
        }
    } else if text::same(event_type, TYPE_AUDIO_STOP) {
        Schema {
            title: "struct AudioStopData",
            fields: vec![
                ("timestamp", Kind::OptionalU64),
            ],
        }
    } else if text::same(event_type, TYPE_VOICE_STARTED) {
        Schema {
            title: "struct VoiceStartedData",
            fields: vec![
                ("timestamp", Kind::OptionalU64),
            ],
        }
    } else if text::same(event_type, TYPE_VOICE_STOPPED) {
        Schema {
            title: "struct VoiceStoppedData",
            fields: vec![
                ("timestamp", Kind::OptionalU64),
            ],
        }
    } else if text::same(event_type, TYPE_SYNTHESIZE) {
        Schema {
            title: "struct SynthesizeData",
            fields: vec![
                ("text", Kind::Text),
                ("voice", Kind::OptionalVoice),
            ],
        }
    } else if text::same(event_type, TYPE_SYNTHESIZE_START) {
        Schema {
            title: "struct SynthesizeStartData",
            fields: vec![
                ("language", Kind::OptionalText),
                ("voice", Kind::OptionalVoice),
            ],
        }
    } else if text::same(event_type, TYPE_SYNTHESIZE_CHUNK) {
        Schema {
            title: "struct SynthesizeChunkData",
            fields: vec![
                ("text", Kind::Text),
            ],
        }
    } else if text::same(event_type, TYPE_TRANSCRIBE) {
        Schema {
            title: "struct TranscribeData",
            fields: vec![
                ("name", Kind::OptionalText),
                ("language", Kind::OptionalText),
            ],
        }
    } else if text::same(event_type, TYPE_TRANSCRIPT_START) {
        Schema {
            title: "struct TranscriptStartData",
            fields: vec![
                ("language", Kind::OptionalText),
            ],
        }
    } else if text::same(event_type, TYPE_TRANSCRIPT_CHUNK) {
        Schema {
            title: "struct TranscriptChunkData",
            fields: vec![
                ("text", Kind::Text),
            ],
        }
    } else if text::same(event_type, TYPE_TRANSCRIPT) {
        Schema {
            title: "struct TranscriptData",
            fields: vec![
                ("text", Kind::Text),
                ("language", Kind::OptionalText),
            ],
        }
    } else if text::same(event_type, TYPE_INFO) {
        Schema {
            title: "struct InfoData",
            fields: vec![
                ("tts", Kind::List),
                ("asr", Kind::List),
                ("wake", Kind::List),
            ],
        }
    } else if text::same(event_type, TYPE_PING) {
        Schema {
            title: "struct PingData",
            fields: vec![
                ("text", Kind::OptionalText),
            ],
        }
    } else if text::same(event_type, TYPE_PONG) {
        Schema {
            title: "struct PongData",
            fields: vec![
                ("text", Kind::OptionalText),
            ],
        }
    } else if text::same(event_type, TYPE_ERROR) {
        Schema {
            title: "struct ErrorData",
            fields: vec![
                ("text", Kind::Text),
                ("code", Kind::OptionalText),
            ],
        }
    } else {
        return None;
    };
    proof {
        assert(schema@.fields =~= schema_of(event_type@)->0.fields);
    }
    Some(schema)
}

/// Reads the field called `name`, numbered `k`.
pub(crate) fn slot_of<'a>(data: &'a Json, k: usize, name: &str) -> (r: Option<&'a Json>)
    ensures
        match r {
            Some(value) => slot(data@, k as int, name@) == Some(value@),
            None => slot(data@, k as int, name@) is None,
        },
{
    match data {
        Json::Object(fields) => json::find(fields, name),
        Json::Array(items) => if k < items.len() {
            Some(&items[k])
        } else {
            None
        },
        _ => None,
    }
}

/// Whether `data` can list the values of `count` fields.
pub(crate) fn record(data: &Json, count: usize) -> (r: bool)
    ensures
        r == is_record(data@, count as int),
{
    match data {
        Json::Object(_) => true,
        Json::Array(items) => items.len() <= count,
        _ => false,
    }
}

/// Reads a required integer of at most `max`.
fn read_integer(value: Option<&Json>, max: u64) -> (r: Option<u64>)
    ensures
        r == integer_field(
            match value {
                Some(v) => Some(v@),
                None => None,
            },
            max as int,
        ),
{
    match value {
        Some(Json::Unsigned(n)) => if *n <= max {
            Some(*n)
        } else {
            None
        },
        _ => None,
    }
}

/// Reads an optional integer.
fn read_optional_integer(value: Option<&Json>) -> (r: Option<Option<u64>>)
    ensures
        r == optional_integer(
            match value {
                Some(v) => Some(v@),
                None => None,
            },
        ),
{
    match value {
        None => Some(None),
        Some(Json::Null) => Some(None),
        Some(Json::Unsigned(n)) => Some(Some(*n)),
        _ => None,
    }
}

/// Reads a required text.
pub(crate) fn read_text(value: Option<&Json>) -> (r: Option<String>)
    ensures
        text::opt_text(r) == text_field(
            match value {
                Some(v) => Some(v@),
                None => None,
            },
        ),
{
    match value {
        Some(Json::Text(s)) => Some(s.clone()),
        _ => None,
    }
}

/// The content of an optional text that may have failed to read.
pub open spec fn opt_opt_text(o: Option<Option<String>>) -> Option<Option<Seq<char>>> {
    match o {
        Some(t) => Some(text::opt_text(t)),
        None => None,
    }
}

/// Reads an optional text.
pub(crate) fn read_optional_text(value: Option<&Json>) -> (r: Option<Option<String>>)
    ensures
        opt_opt_text(r) == optional_text(
            match value {
                Some(v) => Some(v@),
                None => None,
            },
        ),
{
    match value {
        None => Some(None),
        Some(Json::Null) => Some(None),
        Some(Json::Text(s)) => Some(Some(s.clone())),
        _ => None,
    }
}

/// Copies a list of JSON values.
pub fn copy_items(items: &Vec<Json>) -> (r: Vec<Json>)
    ensures
        json::items_view(r@) == json::items_view(items@),
{
    let mut r: Vec<Json> = Vec::new();
    let mut i: usize = 0;
    while i < items.len()
        invariant
            i <= items@.len(),
            json::items_view(r@) == json::items_view(items@).take(i as int),
        decreases items@.len() - i,
    {
        let item: Json = items[i].clone();
        let ghost before = json::items_view(r@);
        r.push(item);
        proof {
            assert(json::items_view(r@) == before.push(item@));
            assert(json::items_view(items@).take(i + 1) == before.push(items@[i as int]@));
        }
        i = i + 1;
    }
    proof {
        assert(json::items_view(items@).take(i as int) == json::items_view(items@));
    }
    r
}

/// Reads a list that is empty where it is left out.
fn read_list(value: Option<&Json>) -> (r: Option<Vec<Json>>)
    ensures
        list_field(
            match value {
                Some(v) => Some(v@),
                None => None,
            },
        ) == (match r {
            Some(items) => Some(json::items_view(items@)),
            None => None,
        }),
{
    match value {
        None => {
            let items: Vec<Json> = Vec::new();
            proof {
                assert(json::items_view(items@) == Seq::<JsonView>::empty());
            }
            Some(items)
        },
        Some(Json::Array(items)) => Some(copy_items(items)),
        _ => None,
    }
}

/// Reads an optional voice.
fn read_optional_voice(value: Option<&Json>) -> (r: Option<Option<SynthesizeVoice>>)
    ensures
        optional_voice(
            match value {
                Some(v) => Some(v@),
                None => None,
            },
        ) == (match r {
            Some(voice) => Some(opt_voice(voice)),
            None => None,
        }),
{
    match value {
        None => Some(None),
        Some(Json::Null) => Some(None),
        Some(data) => {
            let name = read_optional_text(slot_of(data, 0, "name"));
            let language = read_optional_text(slot_of(data, 1, "language"));
            let speaker = read_optional_text(slot_of(data, 2, "speaker"));
            if !record(data, 3) {
                return None;
            }
            match (name, language, speaker) {
                (Some(name), Some(language), Some(speaker)) => Some(
                    Some(SynthesizeVoice { name, language, speaker }),
                ),
                _ => None,
            }
        },
    }
}

/// Reads an audio format and a timestamp.
fn read_audio(data: &Json) -> (r: Option<(u32, u16, u16, Option<u64>)>)
    ensures
        r == audio_from(data@),
{
    let rate = read_integer(slot_of(data, 0, "rate"), 0xffff_ffff);
    let width = read_integer(slot_of(data, 1, "width"), 0xffff);
    let channels = read_integer(slot_of(data, 2, "channels"), 0xffff);
    let timestamp = read_optional_integer(slot_of(data, 3, "timestamp"));
    if !record(data, 4) {
        return None;
    }
    match (rate, width, channels, timestamp) {
        (Some(rate), Some(width), Some(channels), Some(timestamp)) => Some(
            (rate as u32, width as u16, channels as u16, timestamp),
        ),
        _ => None,
    }
}

/// Reads a timestamp alone.
fn read_timestamp(data: &Json) -> (r: Option<Option<u64>>)
    ensures
        r == timestamp_from(data@),
{
    if record(data, 1) {
        read_optional_integer(slot_of(data, 0, "timestamp"))
    } else {
        None
    }
}

/// Reads a required text alone.
fn read_text_alone(data: &Json) -> (r: Option<String>)
    ensures
        text::opt_text(r) == text_from(data@),
{
    if record(data, 1) {
        read_text(slot_of(data, 0, "text"))
    } else {
        None
    }
}

/// Reads an optional text alone.
fn read_optional_text_alone(data: &Json, name: &str) -> (r: Option<Option<String>>)
    ensures
        opt_opt_text(r) == optional_text_from(data@, name@),
{
    if record(data, 1) {
        read_optional_text(slot_of(data, 0, name))
    } else {
        None
    }
}

/// Reads a required text and an optional one.
fn read_text_pair(data: &Json, second: &str) -> (r: Option<(String, Option<String>)>)
    ensures
        text_pair_from(data@, second@) == (match r {
            Some((a, b)) => Some((a@, text::opt_text(b))),
            None => None,
        }),
{
    let a = read_text(slot_of(data, 0, "text"));
    let b = read_optional_text(slot_of(data, 1, second));
    if !record(data, 2) {
        return None;
    }
    match (a, b) {
        (Some(a), Some(b)) => Some((a, b)),
        _ => None,
    }
}

/// Adds a timestamp member, if there is a timestamp.
fn put_timestamp(fields: &mut Vec<(String, Json)>, timestamp: Option<u64>)
    ensures
        json::fields_view(final(fields)@) == json::fields_view(old(fields)@) + json::maybe(
            "timestamp"@,
            number_value(timestamp),
        ),
{
    if let Some(n) = timestamp {
        json::put(fields, "timestamp", Json::Unsigned(n));
    }
    proof {
        if timestamp is None {
            assert(json::fields_view(fields@) == json::fields_view(old(fields)@) + json::maybe(
                "timestamp"@,
                None,
            ));
        }
    }
}

/// Adds a voice member, if there is a voice.
fn put_voice(fields: &mut Vec<(String, Json)>, voice: &Option<SynthesizeVoice>)
    ensures
        json::fields_view(final(fields)@) == json::fields_view(old(fields)@) + json::maybe(
            "voice"@,
            voice_value(opt_voice(*voice)),
        ),
{
    if let Some(v) = voice {
        let mut inner: Vec<(String, Json)> = Vec::new();
        json::put_text(&mut inner, "name", &v.name);
        json::put_text(&mut inner, "language", &v.language);
        json::put_text(&mut inner, "speaker", &v.speaker);
        proof {
            assert(json::fields_view(inner@) == voice_fields(v@));
        }
        json::put(fields, "voice", Json::Object(inner));
    }
    proof {
        if voice is None {
            assert(json::fields_view(fields@) == json::fields_view(old(fields)@) + json::maybe(
                "voice"@,
                None,
            ));
        }
    }
}

/// Adds a list member, if the list is not empty.
fn put_list(fields: &mut Vec<(String, Json)>, name: &str, list: &Vec<Json>)
    ensures
        json::fields_view(final(fields)@) == json::fields_view(old(fields)@) + json::maybe(
            name@,
            list_value(json::items_view(list@)),
        ),
{
    if list.len() > 0 {
        json::put(fields, name, Json::Array(copy_items(list)));
    }
    proof {
        if list@.len() == 0 {
            assert(json::fields_view(fields@) == json::fields_view(old(fields)@) + json::maybe(
                name@,
                None,
            ));
        }
    }
}

/// The members for an audio format and a timestamp.
fn audio_members(rate: u32, width: u16, channels: u16, timestamp: Option<u64>) -> (r: Vec<
    (String, Json),
>)
    ensures
        json::fields_view(r@) == audio_fields(rate, width, channels, timestamp),
{
    let mut fields: Vec<(String, Json)> = Vec::new();
    json::put(&mut fields, "rate", Json::Unsigned(rate as u64));
    json::put(&mut fields, "width", Json::Unsigned(width as u64));
    json::put(&mut fields, "channels", Json::Unsigned(channels as u64));
    put_timestamp(&mut fields, timestamp);
    proof {
        assert(json::fields_view(fields@) == audio_fields(rate, width, channels, timestamp));
    }
    fields
}

impl Event {
    /// Returns the wire-format type string for this event.
    pub fn event_type(&self) -> (r: &str)
        ensures
            r@ == type_of(self@),
    {
        match self {
            Event::AudioStart(_) => TYPE_AUDIO_START,
            Event::AudioChunk { .. } => TYPE_AUDIO_CHUNK,
            Event::AudioStop(_) => TYPE_AUDIO_STOP,
            Event::VoiceStarted(_) => TYPE_VOICE_STARTED,
            Event::VoiceStopped(_) => TYPE_VOICE_STOPPED,
            Event::Synthesize(_) => TYPE_SYNTHESIZE,
            Event::SynthesizeStart(_) => TYPE_SYNTHESIZE_START,
            Event::SynthesizeChunk(_) => TYPE_SYNTHESIZE_CHUNK,
            Event::SynthesizeStop => TYPE_SYNTHESIZE_STOP,
            Event::SynthesizeStopped => TYPE_SYNTHESIZE_STOPPED,
            Event::Transcribe(_) => TYPE_TRANSCRIBE,
            Event::TranscriptStart(_) => TYPE_TRANSCRIPT_START,
            Event::TranscriptChunk(_) => TYPE_TRANSCRIPT_CHUNK,
            Event::Transcript(_) => TYPE_TRANSCRIPT,
            Event::TranscriptStop => TYPE_TRANSCRIPT_STOP,
            Event::Describe => TYPE_DESCRIBE,
            Event::Info(_) => TYPE_INFO,
            Event::Ping(_) => TYPE_PING,
            Event::Pong(_) => TYPE_PONG,
            Event::Error(_) => TYPE_ERROR,
            Event::Unknown { event_type, .. } => event_type.as_str(),
        }
    }

    /// This event's `data` as a JSON value.
    pub fn data(&self) -> (r: Json)
        ensures
            r@ == data_of(self@),
    {
        let mut fields: Vec<(String, Json)> = Vec::new();
        let ghost none = json::fields_view(fields@);
        proof {
            assert(none == Seq::<(Seq<char>, JsonView)>::empty());
        }
        match self {
            Event::AudioStart(d) => {
                fields = audio_members(d.rate, d.width, d.channels, d.timestamp);
            },
            Event::AudioChunk { data: d, .. } => {
                fields = audio_members(d.rate, d.width, d.channels, d.timestamp);
            },
            Event::AudioStop(d) => {
                put_timestamp(&mut fields, d.timestamp);
            },
            Event::VoiceStarted(d) => {
                put_timestamp(&mut fields, d.timestamp);
            },
            Event::VoiceStopped(d) => {
                put_timestamp(&mut fields, d.timestamp);
            },
            Event::Synthesize(d) => {
                json::put(&mut fields, "text", Json::Text(d.text.clone()));
                put_voice(&mut fields, &d.voice);
            },
            Event::SynthesizeStart(d) => {
                json::put_text(&mut fields, "language", &d.language);
                put_voice(&mut fields, &d.voice);
            },
            Event::SynthesizeChunk(d) => {
                json::put(&mut fields, "text", Json::Text(d.text.clone()));
            },
            Event::SynthesizeStop => {
                return Json::Null;
            },
            Event::SynthesizeStopped => {
                return Json::Null;
            },
            Event::Transcribe(d) => {
                json::put_text(&mut fields, "name", &d.name);
                json::put_text(&mut fields, "language", &d.language);
            },
            Event::TranscriptStart(d) => {
                json::put_text(&mut fields, "language", &d.language);
            },
            Event::TranscriptChunk(d) => {
                json::put(&mut fields, "text", Json::Text(d.text.clone()));
            },
            Event::Transcript(d) => {
                json::put(&mut fields, "text", Json::Text(d.text.clone()));
                json::put_text(&mut fields, "language", &d.language);
            },
            Event::TranscriptStop => {
                return Json::Null;
            },
            Event::Describe => {
                return Json::Null;
            },
            Event::Info(d) => {
                put_list(&mut fields, "tts", &d.tts);
                put_list(&mut fields, "asr", &d.asr);
                put_list(&mut fields, "wake", &d.wake);
            },
            Event::Ping(d) => {
                json::put_text(&mut fields, "text", &d.text);
            },
            Event::Pong(d) => {
                json::put_text(&mut fields, "text", &d.text);
            },
            Event::Error(d) => {
                json::put(&mut fields, "text", Json::Text(d.text.clone()));
                json::put_text(&mut fields, "code", &d.code);
            },
            Event::Unknown { data, .. } => {
                return data.clone();
            },
        }
        proof {
            assert(json::fields_view(fields@) == data_of(self@)->Object_0);
        }
        Json::Object(fields)
    }

    /// Serializes this event's `data` dict to JSON bytes.
    ///
    /// Returns `Ok(None)` for events with no data (e.g. [`Event::Describe`] or
    /// an [`Event::Unknown`] with a `null` or empty data value).
    pub fn serialize_data(&self) -> (r: Result<Option<Vec<u8>>, ProtocolError>)
        ensures
            r is Ok,
            match (r->Ok_0, sent_data(self@)) {
                (None, None) => true,
                (Some(bytes), Some(value)) => bytes@ == json::json_text(value) && bytes@.len() > 0 && (json::exact(
                    value,
                    json::MAX_NESTING as nat,
                ) ==> json::reads_as(bytes@, value)),
                _ => false,
            },
    {
        let data = self.data();
        match &data {
            Json::Null => {
                return Ok(None);
            },
            Json::Object(fields) => {
                if fields.len() == 0 {
                    return Ok(None);
                }
            },
            _ => {},
        }
        match json::serialize(&data) {
            Ok(bytes) => Ok(Some(bytes)),
            Err(e) => Err(ProtocolError::Serialization(e)),
        }
    }

    /// Returns the binary payload for this event, if any.
    pub fn payload(&self) -> (r: Option<&[u8]>)
        ensures
            payload_of(self@) == (match r {
                Some(bytes) => Some(bytes@),
                None => None,
            }),
    {
        match self {
            Event::AudioChunk { audio, .. } => Some(audio.as_slice()),
            Event::Unknown { payload, .. } => match payload {
                Some(bytes) => Some(bytes.as_slice()),
                None => None,
            },
            _ => None,
        }
    }

    /// Constructs an [`Event`] from parsed wire components.
    ///
    /// Dispatches on `event_type` and reads `data` into the matching typed
    /// struct. Unrecognized type strings become [`Event::Unknown`] rather than
    /// an error, so servers can tolerate events from newer protocol versions.
    pub fn from_wire(event_type: &str, data: Json, payload: Option<Vec<u8>>) -> (r: Result<
        Event,
        ProtocolError,
    >)
        ensures
            match r {
                Ok(event) => event_from(event_type@, data@, opt_bytes(payload)) == Some(event@),
                Err(e) => event_from(event_type@, data@, opt_bytes(payload)) is None && (
                data_refused(event_type@, data@) matches Some(reason) && e@
                    == ErrorView::InvalidEventData(reason)),
            },
    {
        let ghost given = data@;
        let data = match data {
            Json::Null => {
                let empty: Vec<(String, Json)> = Vec::new();
                proof {
                    assert(json::fields_view(empty@) == Seq::<(Seq<char>, JsonView)>::empty());
                }
                Json::Object(empty)
            },
            other => other,
        };
        proof {
            assert(data@ == filled(given));
        }
        if text::same(event_type, TYPE_AUDIO_START) {
            if let Some((rate, width, channels, timestamp)) = read_audio(&data) {
                return Ok(Event::AudioStart(AudioStartData { rate, width, channels, timestamp }));
            }
        } else if text::same(event_type, TYPE_AUDIO_CHUNK) {
            if let Some((rate, width, channels, timestamp)) = read_audio(&data) {
                let audio = match payload {
                    Some(bytes) => bytes,
                    None => Vec::new(),
                };
                return Ok(
                    Event::AudioChunk {
                        data: AudioChunkData { rate, width, channels, timestamp },
                        audio,
                    },
                );
            }
        } else if text::same(event_type, TYPE_AUDIO_STOP) {
            if let Some(timestamp) = read_timestamp(&data) {
                return Ok(Event::AudioStop(AudioStopData { timestamp }));
            }
        } else if text::same(event_type, TYPE_VOICE_STARTED) {
            if let Some(timestamp) = read_timestamp(&data) {
                return Ok(Event::VoiceStarted(VoiceStartedData { timestamp }));
            }
        } else if text::same(event_type, TYPE_VOICE_STOPPED) {
            if let Some(timestamp) = read_timestamp(&data) {
                return Ok(Event::VoiceStopped(VoiceStoppedData { timestamp }));
            }
        } else if text::same(event_type, TYPE_SYNTHESIZE) {
            let text = read_text(slot_of(&data, 0, "text"));
            let voice = read_optional_voice(slot_of(&data, 1, "voice"));
            if record(&data, 2) {
                if let (Some(text), Some(voice)) = (text, voice) {
                    return Ok(Event::Synthesize(SynthesizeData { text, voice }));
                }
            }
        } else if text::same(event_type, TYPE_SYNTHESIZE_START) {
            let language = read_optional_text(slot_of(&data, 0, "language"));
            let voice = read_optional_voice(slot_of(&data, 1, "voice"));
            if record(&data, 2) {
                if let (Some(language), Some(voice)) = (language, voice) {
                    return Ok(Event::SynthesizeStart(SynthesizeStartData { language, voice }));
                }
            }
        } else if text::same(event_type, TYPE_SYNTHESIZE_CHUNK) {
            if let Some(text) = read_text_alone(&data) {
                return Ok(Event::SynthesizeChunk(SynthesizeChunkData { text }));
            }
        } else if text::same(event_type, TYPE_SYNTHESIZE_STOP) {
            return Ok(Event::SynthesizeStop);
        } else if text::same(event_type, TYPE_SYNTHESIZE_STOPPED) {
            return Ok(Event::SynthesizeStopped);
        } else if text::same(event_type, TYPE_TRANSCRIBE) {
            let name = read_optional_text(slot_of(&data, 0, "name"));
            let language = read_optional_text(slot_of(&data, 1, "language"));
            if record(&data, 2) {
                if let (Some(name), Some(language)) = (name, language) {
                    return Ok(Event::Transcribe(TranscribeData { name, language }));
                }
            }
        } else if text::same(event_type, TYPE_TRANSCRIPT_START) {
            if let Some(language) = read_optional_text_alone(&data, "language") {
                return Ok(Event::TranscriptStart(TranscriptStartData { language }));
            }
        } else if text::same(event_type, TYPE_TRANSCRIPT_CHUNK) {
            if let Some(text) = read_text_alone(&data) {
                return Ok(Event::TranscriptChunk(TranscriptChunkData { text }));
            }
        } else if text::same(event_type, TYPE_TRANSCRIPT) {
            if let Some((text, language)) = read_text_pair(&data, "language") {
                return Ok(Event::Transcript(TranscriptData { text, language }));
            }
        } else if text::same(event_type, TYPE_TRANSCRIPT_STOP) {
            return Ok(Event::TranscriptStop);
        } else if text::same(event_type, TYPE_DESCRIBE) {
            return Ok(Event::Describe);
        } else if text::same(event_type, TYPE_INFO) {
            let tts = read_list(slot_of(&data, 0, "tts"));
            let asr = read_list(slot_of(&data, 1, "asr"));
            let wake = read_list(slot_of(&data, 2, "wake"));
            if record(&data, 3) {
                if let (Some(tts), Some(asr), Some(wake)) = (tts, asr, wake) {
                    return Ok(Event::Info(InfoData { tts, asr, wake }));
                }
            }
        } else if text::same(event_type, TYPE_PING) {
            if let Some(text) = read_optional_text_alone(&data, "text") {
                return Ok(Event::Ping(PingData { text }));
            }
        } else if text::same(event_type, TYPE_PONG) {
            if let Some(text) = read_optional_text_alone(&data, "text") {
                return Ok(Event::Pong(PongData { text }));
            }
        } else if text::same(event_type, TYPE_ERROR) {
            if let Some((text, code)) = read_text_pair(&data, "code") {
                return Ok(Event::Error(ErrorData { text, code }));
            }
        } else {
            return Ok(Event::Unknown { event_type: String::from_str(event_type), data, payload });
        }
        proof {
            law_refused_for_a_reason(event_type@, given, opt_bytes(payload));
        }
        let reason = match find_schema(event_type) {
            Some(schema) => schema::record_error(&data, &schema, 1),
            None => None,
        };
        match reason {
            Some(reason) => Err(ProtocolError::InvalidEventData(reason)),
            None => Err(ProtocolError::InvalidEventData(String::new())),
        }
    }
}
/// The type strings differ from one another: in length, or else in a character.
proof fn lemma_types_differ()
    ensures
        TYPE_AUDIO_START@.len() == 11,
        TYPE_AUDIO_CHUNK@.len() == 11,
        TYPE_AUDIO_STOP@.len() == 10,
        TYPE_VOICE_STARTED@.len() == 13,
        TYPE_VOICE_STOPPED@.len() == 13,
        TYPE_SYNTHESIZE@.len() == 10,
        TYPE_SYNTHESIZE_START@.len() == 16,
        TYPE_SYNTHESIZE_CHUNK@.len() == 16,
        TYPE_SYNTHESIZE_STOP@.len() == 15,
        TYPE_SYNTHESIZE_STOPPED@.len() == 18,
        TYPE_TRANSCRIBE@.len() == 10,
        TYPE_TRANSCRIPT_START@.len() == 16,
        TYPE_TRANSCRIPT_CHUNK@.len() == 16,
        TYPE_TRANSCRIPT@.len() == 10,
        TYPE_TRANSCRIPT_STOP@.len() == 15,
        TYPE_DESCRIBE@.len() == 8,
        TYPE_INFO@.len() == 4,
        TYPE_PING@.len() == 4,
        TYPE_PONG@.len() == 4,
        TYPE_ERROR@.len() == 5,
        TYPE_AUDIO_START@ != TYPE_AUDIO_CHUNK@,
        TYPE_AUDIO_STOP@ != TYPE_SYNTHESIZE@,
        TYPE_AUDIO_STOP@ != TYPE_TRANSCRIBE@,
        TYPE_AUDIO_STOP@ != TYPE_TRANSCRIPT@,
        TYPE_VOICE_STARTED@ != TYPE_VOICE_STOPPED@,
        TYPE_SYNTHESIZE@ != TYPE_TRANSCRIBE@,
        TYPE_SYNTHESIZE@ != TYPE_TRANSCRIPT@,
        TYPE_SYNTHESIZE_START@ != TYPE_SYNTHESIZE_CHUNK@,
        TYPE_SYNTHESIZE_START@ != TYPE_TRANSCRIPT_START@,
        TYPE_SYNTHESIZE_START@ != TYPE_TRANSCRIPT_CHUNK@,
        TYPE_SYNTHESIZE_CHUNK@ != TYPE_TRANSCRIPT_START@,
        TYPE_SYNTHESIZE_CHUNK@ != TYPE_TRANSCRIPT_CHUNK@,
        TYPE_SYNTHESIZE_STOP@ != TYPE_TRANSCRIPT_STOP@,
        TYPE_TRANSCRIBE@ != TYPE_TRANSCRIPT@,
        TYPE_TRANSCRIPT_START@ != TYPE_TRANSCRIPT_CHUNK@,
        TYPE_INFO@ != TYPE_PING@,
        TYPE_INFO@ != TYPE_PONG@,
        TYPE_PING@ != TYPE_PONG@,
{
    reveal_strlit("audio-start");
    reveal_strlit("audio-chunk");
    reveal_strlit("audio-stop");
    reveal_strlit("voice-started");
    reveal_strlit("voice-stopped");
    reveal_strlit("synthesize");
    reveal_strlit("synthesize-start");
    reveal_strlit("synthesize-chunk");
    reveal_strlit("synthesize-stop");
    reveal_strlit("synthesize-stopped");
    reveal_strlit("transcribe");
    reveal_strlit("transcript-start");
    reveal_strlit("transcript-chunk");
    reveal_strlit("transcript");
    reveal_strlit("transcript-stop");
    reveal_strlit("describe");
    reveal_strlit("info");
    reveal_strlit("ping");
    reveal_strlit("pong");
    reveal_strlit("error");
    assert(TYPE_AUDIO_START@[6] != TYPE_AUDIO_CHUNK@[6]);
    assert(TYPE_AUDIO_STOP@[0] != TYPE_SYNTHESIZE@[0]);
    assert(TYPE_AUDIO_STOP@[0] != TYPE_TRANSCRIBE@[0]);
    assert(TYPE_AUDIO_STOP@[0] != TYPE_TRANSCRIPT@[0]);
    assert(TYPE_VOICE_STARTED@[8] != TYPE_VOICE_STOPPED@[8]);
    assert(TYPE_SYNTHESIZE@[0] != TYPE_TRANSCRIBE@[0]);
    assert(TYPE_SYNTHESIZE@[0] != TYPE_TRANSCRIPT@[0]);
    assert(TYPE_SYNTHESIZE_START@[11] != TYPE_SYNTHESIZE_CHUNK@[11]);
    assert(TYPE_SYNTHESIZE_START@[0] != TYPE_TRANSCRIPT_START@[0]);
    assert(TYPE_SYNTHESIZE_START@[0] != TYPE_TRANSCRIPT_CHUNK@[0]);
    assert(TYPE_SYNTHESIZE_CHUNK@[0] != TYPE_TRANSCRIPT_START@[0]);
    assert(TYPE_SYNTHESIZE_CHUNK@[0] != TYPE_TRANSCRIPT_CHUNK@[0]);
    assert(TYPE_SYNTHESIZE_STOP@[0] != TYPE_TRANSCRIPT_STOP@[0]);
    assert(TYPE_TRANSCRIBE@[8] != TYPE_TRANSCRIPT@[8]);
    assert(TYPE_TRANSCRIPT_START@[11] != TYPE_TRANSCRIPT_CHUNK@[11]);
    assert(TYPE_INFO@[0] != TYPE_PING@[0]);
    assert(TYPE_INFO@[0] != TYPE_PONG@[0]);
    assert(TYPE_PING@[1] != TYPE_PONG@[1]);
}

/// The field names differ from one another: in length, or else in a character.
proof fn lemma_names_differ()
    ensures
        "rate"@.len() == 4,
        "width"@.len() == 5,
        "channels"@.len() == 8,
        "timestamp"@.len() == 9,
        "name"@.len() == 4,
        "language"@.len() == 8,
        "speaker"@.len() == 7,
        "text"@.len() == 4,
        "voice"@.len() == 5,
        "tts"@.len() == 3,
        "asr"@.len() == 3,
        "wake"@.len() == 4,
        "code"@.len() == 4,
        "rate"@ != "name"@,
        "rate"@ != "text"@,
        "rate"@ != "wake"@,
        "rate"@ != "code"@,
        "width"@ != "voice"@,
        "channels"@ != "language"@,
        "name"@ != "text"@,
        "name"@ != "wake"@,
        "name"@ != "code"@,
        "text"@ != "wake"@,
        "text"@ != "code"@,
        "tts"@ != "asr"@,
        "wake"@ != "code"@,
{
    reveal_strlit("rate");
    reveal_strlit("width");
    reveal_strlit("channels");
    reveal_strlit("timestamp");
    reveal_strlit("name");
    reveal_strlit("language");
    reveal_strlit("speaker");
    reveal_strlit("text");
    reveal_strlit("voice");
    reveal_strlit("tts");
    reveal_strlit("asr");
    reveal_strlit("wake");
    reveal_strlit("code");
    assert("rate"@[0] != "name"@[0]);
    assert("rate"@[0] != "text"@[0]);
    assert("rate"@[0] != "wake"@[0]);
    assert("rate"@[0] != "code"@[0]);
    assert("width"@[0] != "voice"@[0]);
    assert("channels"@[0] != "language"@[0]);
    assert("name"@[0] != "text"@[0]);
    assert("name"@[0] != "wake"@[0]);
    assert("name"@[0] != "code"@[0]);
    assert("text"@[0] != "wake"@[0]);
    assert("text"@[0] != "code"@[0]);
    assert("tts"@[0] != "asr"@[0]);
    assert("wake"@[0] != "code"@[0]);
}

/// What an event comes back as from the wire: an [`Event::Unknown`] without data
/// comes back with an empty data dict, and one with an empty payload without it.
pub open spec fn read_back(event: EventView) -> EventView {
    match event {
        EventView::Unknown { event_type, data, payload } => EventView::Unknown {
            event_type,
            data: filled(data),
            payload: sent_payload(payload),
        },
        other => other,
    }
}

/// A payload of no bytes is as good as none.
pub open spec fn sent_payload(payload: Option<Seq<u8>>) -> Option<Seq<u8>> {
    match payload {
        Some(bytes) => if bytes.len() > 0 {
            Some(bytes)
        } else {
            None
        },
        None => None,
    }
}

/// An [`Event::Unknown`] that carries the type string of a typed event, or data
/// that is not a dict, does not come back from the wire as it was.
pub open spec fn survives(event: EventView) -> bool {
    match event {
        EventView::Unknown { event_type, data, .. } => !known_type(event_type) && (data is Null
            || data is Object),
        _ => true,
    }
}

/// The data of a voice reads back as that voice.
proof fn lemma_voice_round_trip(voice: Option<VoiceView>)
    ensures
        optional_voice(voice_value(voice)) == Some(voice),
{
    broadcast use json::group_member;

    lemma_names_differ();
    if let Some(v) = voice {
        assert(voice_from(JsonView::Object(voice_fields(v))) == Some(v));
    }
}

/// The data of an audio event reads back as its format and timestamp.
proof fn lemma_audio_round_trip(rate: u32, width: u16, channels: u16, timestamp: Option<u64>)
    ensures
        audio_from(JsonView::Object(audio_fields(rate, width, channels, timestamp))) == Some(
            (rate, width, channels, timestamp),
        ),
{
    broadcast use json::group_member;

    lemma_names_differ();
}

/// The type strings of the typed events are short.
pub proof fn lemma_type_length(event: EventView)
    requires
        !(event is Unknown),
    ensures
        type_of(event).len() <= 20,
{
    reveal_strlit("audio-start");
    reveal_strlit("audio-chunk");
    reveal_strlit("audio-stop");
    reveal_strlit("voice-started");
    reveal_strlit("voice-stopped");
    reveal_strlit("synthesize");
    reveal_strlit("synthesize-start");
    reveal_strlit("synthesize-chunk");
    reveal_strlit("synthesize-stop");
    reveal_strlit("synthesize-stopped");
    reveal_strlit("transcribe");
    reveal_strlit("transcript-start");
    reveal_strlit("transcript-chunk");
    reveal_strlit("transcript");
    reveal_strlit("transcript-stop");
    reveal_strlit("describe");
    reveal_strlit("info");
    reveal_strlit("ping");
    reveal_strlit("pong");
    reveal_strlit("error");
}

/// Building an event from the type string, the data and the payload of an event
/// gives that event back.
pub proof fn law_event_round_trip(event: EventView)
    requires
        survives(event),
    ensures
        event_from(type_of(event), data_of(event), sent_payload(payload_of(event))) == Some(
            read_back(event),
        ),
{
    lemma_types_differ();
    let data = data_of(event);
    match event {
        EventView::AudioStart(d) => {
            lemma_audio_round_trip(d.rate, d.width, d.channels, d.timestamp);
        },
        EventView::AudioChunk { data: d, audio } => {
            lemma_audio_round_trip(d.rate, d.width, d.channels, d.timestamp);
            assert(payload_bytes(sent_payload(Some(audio))) =~= audio);
        },
        EventView::AudioStop(d) => {
            assert(timestamp_from(data) == Some(d.timestamp)) by {
                broadcast use json::group_member;

            }
        },
        EventView::VoiceStarted(d) => {
            assert(timestamp_from(data) == Some(d.timestamp)) by {
                broadcast use json::group_member;

            }
        },
        EventView::VoiceStopped(d) => {
            assert(timestamp_from(data) == Some(d.timestamp)) by {
                broadcast use json::group_member;

            }
        },
        EventView::Synthesize { text, voice } => {
            lemma_voice_round_trip(voice);
            assert(slot(data, 0, "text"@) == Some(JsonView::Text(text)) && slot(data, 1, "voice"@)
                == voice_value(voice)) by {
                broadcast use json::group_member;

                lemma_names_differ();
            }
        },
        EventView::SynthesizeStart { language, voice } => {
            lemma_voice_round_trip(voice);
            assert(slot(data, 0, "language"@) == json::text_value(language) && slot(
                data,
                1,
                "voice"@,
            ) == voice_value(voice)) by {
                broadcast use json::group_member;

                lemma_names_differ();
            }
        },
        EventView::SynthesizeChunk { text } => {
            assert(text_from(data) == Some(text)) by {
                broadcast use json::group_member;

            }
        },
        EventView::Transcribe { name, language } => {
            assert(slot(data, 0, "name"@) == json::text_value(name) && slot(data, 1, "language"@)
                == json::text_value(language)) by {
                broadcast use json::group_member;

                lemma_names_differ();
            }
        },
        EventView::TranscriptStart { language } => {
            assert(optional_text_from(data, "language"@) == Some(language)) by {
                broadcast use json::group_member;

            }
        },
        EventView::TranscriptChunk { text } => {
            assert(text_from(data) == Some(text)) by {
                broadcast use json::group_member;

            }
        },
        EventView::Transcript { text, language } => {
            assert(text_pair_from(data, "language"@) == Some((text, language))) by {
                broadcast use json::group_member;

                lemma_names_differ();
            }
        },
        EventView::Info { tts, asr, wake } => {
            assert(slot(data, 0, "tts"@) == list_value(tts) && slot(data, 1, "asr"@) == list_value(
                asr,
            ) && slot(data, 2, "wake"@) == list_value(wake)) by {
                broadcast use json::group_member;

                lemma_names_differ();
            }
            assert(list_field(list_value(tts)) =~= Some(tts));
            assert(list_field(list_value(asr)) =~= Some(asr));
            assert(list_field(list_value(wake)) =~= Some(wake));
        },
        EventView::Ping { text } => {
            assert(optional_text_from(data, "text"@) == Some(text)) by {
                broadcast use json::group_member;

            }
        },
        EventView::Pong { text } => {
            assert(optional_text_from(data, "text"@) == Some(text)) by {
                broadcast use json::group_member;

            }
        },
        EventView::Error { text, code } => {
            assert(text_pair_from(data, "code"@) == Some((text, code))) by {
                broadcast use json::group_member;

                lemma_names_differ();
            }
        },
        _ => {},
    }
}
/// An event whose data reads back exactly: the descriptors of an `info` event
/// and the data of an unrecognized one are [`json::exact`].
pub open spec fn exact_event(event: EventView) -> bool {
    match event {
        EventView::Info { tts, asr, wake } => exact_items(tts) && exact_items(asr) && exact_items(
            wake,
        ),
        EventView::Unknown { data, .. } => json::exact(data, json::MAX_NESTING as nat),
        _ => true,
    }
}

/// Every descriptor of a list is exact, two levels below the outermost value.
pub open spec fn exact_items(items: Seq<JsonView>) -> bool {
    forall|i: int|
        0 <= i < items.len() ==> json::exact(#[trigger] items[i], (json::MAX_NESTING - 2) as nat)
}

/// The data of a voice is exact.
proof fn lemma_voice_exact(voice: Option<VoiceView>)
    ensures
        voice matches Some(v) ==> json::exact(voice_value(voice)->0, 2),
{
    broadcast use json::group_member;

    lemma_names_differ();
    if let Some(v) = voice {
        let a = json::maybe("name"@, json::text_value(v.name));
        let b = a + json::maybe("language"@, json::text_value(v.language));
        json::lemma_distinct_maybe(a, "language"@, json::text_value(v.language));
        json::lemma_distinct_maybe(b, "speaker"@, json::text_value(v.speaker));
        assert forall|i: int| 0 <= i < voice_fields(v).len() implies json::exact(
            (#[trigger] voice_fields(v)[i]).1,
            1,
        ) by {}
    }
}

/// The data of an event is exact where the values it carries are.
#[verifier::rlimit(40)]
#[verifier::spinoff_prover]
pub proof fn lemma_data_exact(event: EventView)
    requires
        exact_event(event),
    ensures
        json::exact(data_of(event), json::MAX_NESTING as nat),
{
    broadcast use json::group_member;

    reveal_with_fuel(json::exact, 3);
    lemma_names_differ();
    match event {
        EventView::AudioStart(d) => {
            lemma_audio_exact(d.rate, d.width, d.channels, d.timestamp);
        },
        EventView::AudioChunk { data: d, .. } => {
            lemma_audio_exact(d.rate, d.width, d.channels, d.timestamp);
        },
        EventView::Synthesize { text, voice } => {
            lemma_voice_exact(voice);
            let a = json::one("text"@, JsonView::Text(text));
            json::lemma_distinct_maybe(a, "voice"@, voice_value(voice));
            lemma_exact_weaken(voice_value(voice), 2, (json::MAX_NESTING - 1) as nat);
        },
        EventView::SynthesizeStart { language, voice } => {
            lemma_voice_exact(voice);
            let a = json::maybe("language"@, json::text_value(language));
            json::lemma_distinct_maybe(a, "voice"@, voice_value(voice));
            lemma_exact_weaken(voice_value(voice), 2, (json::MAX_NESTING - 1) as nat);
        },
        EventView::Transcribe { name, language } => {
            let a = json::maybe("name"@, json::text_value(name));
            json::lemma_distinct_maybe(a, "language"@, json::text_value(language));
        },
        EventView::Transcript { text, language } => {
            let a = json::one("text"@, JsonView::Text(text));
            json::lemma_distinct_maybe(a, "language"@, json::text_value(language));
        },
        EventView::Info { tts, asr, wake } => {
            let a = json::maybe("tts"@, list_value(tts));
            let b = a + json::maybe("asr"@, list_value(asr));
            json::lemma_distinct_maybe(a, "asr"@, list_value(asr));
            json::lemma_distinct_maybe(b, "wake"@, list_value(wake));
        },
        EventView::Error { text, code } => {
            let a = json::one("text"@, JsonView::Text(text));
            json::lemma_distinct_maybe(a, "code"@, json::text_value(code));
        },
        _ => {},
    }
}

/// The members for an audio format and a timestamp are exact.
proof fn lemma_audio_exact(rate: u32, width: u16, channels: u16, timestamp: Option<u64>)
    ensures
        json::exact(
            JsonView::Object(audio_fields(rate, width, channels, timestamp)),
            json::MAX_NESTING as nat,
        ),
{
    broadcast use json::group_member;

    reveal_with_fuel(json::exact, 2);
    lemma_names_differ();
    let a = json::one("rate"@, JsonView::Unsigned(rate as u64));
    let b = a + json::one("width"@, JsonView::Unsigned(width as u64));
    let c = b + json::one("channels"@, JsonView::Unsigned(channels as u64));
    json::lemma_distinct_one(a, "width"@, JsonView::Unsigned(width as u64));
    json::lemma_distinct_one(b, "channels"@, JsonView::Unsigned(channels as u64));
    json::lemma_distinct_maybe(c, "timestamp"@, number_value(timestamp));
}

/// A value that is exact within a nesting is exact within a larger one.
proof fn lemma_exact_weaken(value: Option<JsonView>, small: nat, large: nat)
    requires
        small <= large,
        value matches Some(v) ==> json::exact(v, small),
    ensures
        value matches Some(v) ==> json::exact(v, large),
    decreases small,
{
    match value {
        Some(JsonView::Array(items)) => {
            assert forall|i: int| 0 <= i < items.len() implies json::exact(
                #[trigger] items[i],
                (large - 1) as nat,
            ) by {
                lemma_exact_weaken(Some(items[i]), (small - 1) as nat, (large - 1) as nat);
            }
        },
        Some(JsonView::Object(fields)) => {
            assert forall|i: int| 0 <= i < fields.len() implies json::exact(
                (#[trigger] fields[i]).1,
                (large - 1) as nat,
            ) by {
                lemma_exact_weaken(Some(fields[i].1), (small - 1) as nat, (large - 1) as nat);
            }
        },
        _ => {},
    }
}

/// The member called `name` is this text; it is missing or `null` where there
/// is no text.
pub open spec fn text_under(
    fields: Seq<(Seq<char>, JsonView)>,
    name: Seq<char>,
    value: Option<String>,
) -> bool {
    match value {
        Some(s) => json::member(fields, name) == Some(JsonView::Text(s@)),
        None => json::member(fields, name) is None || json::member(fields, name) == Some(
            JsonView::Null,
        ),
    }
}

/// The member called `name` is this number; it is missing or `null` where there
/// is no number.
pub open spec fn number_under(
    fields: Seq<(Seq<char>, JsonView)>,
    name: Seq<char>,
    value: Option<u64>,
) -> bool {
    match value {
        Some(n) => json::member(fields, name) == Some(JsonView::Unsigned(n)),
        None => json::member(fields, name) is None || json::member(fields, name) == Some(
            JsonView::Null,
        ),
    }
}

/// The member called `name` is this list; it may be missing where the list is
/// empty.
pub open spec fn list_under(
    fields: Seq<(Seq<char>, JsonView)>,
    name: Seq<char>,
    list: Seq<Json>,
) -> bool {
    match json::member(fields, name) {
        Some(JsonView::Array(items)) => items.len() == list.len() && forall|i: int|
            0 <= i < items.len() ==> #[trigger] items[i] == list[i]@,
        None => list.len() == 0,
        _ => false,
    }
}

/// The item at a position is this text; it is missing or `null` where there is
/// no text.
pub open spec fn text_at(items: Seq<JsonView>, k: int, value: Option<String>) -> bool {
    match value {
        Some(s) => k < items.len() && items[k] == JsonView::Text(s@),
        None => k >= items.len() || items[k] == JsonView::Null,
    }
}

/// The member called `"voice"` tells the name, the language and the speaker of
/// this voice, by name or by position; it is missing or `null` where there is
/// no voice.
pub open spec fn voice_under(
    fields: Seq<(Seq<char>, JsonView)>,
    voice: Option<SynthesizeVoice>,
) -> bool {
    match voice {
        None => json::member(fields, "voice"@) is None || json::member(fields, "voice"@) == Some(
            JsonView::Null,
        ),
        Some(v) => match json::member(fields, "voice"@) {
            Some(JsonView::Object(inner)) => text_under(inner, "name"@, v.name) && text_under(
                inner,
                "language"@,
                v.language,
            ) && text_under(inner, "speaker"@, v.speaker),
            Some(JsonView::Array(items)) => items.len() <= 3 && text_at(items, 0, v.name)
                && text_at(items, 1, v.language) && text_at(items, 2, v.speaker),
            _ => false,
        },
    }
}

/// Each field of an event that is read is what stands in the data under the
/// field's own name, and the type string names the event.
pub proof fn law_read_by_name(
    event_type: Seq<char>,
    fields: Seq<(Seq<char>, JsonView)>,
    payload: Option<Seq<u8>>,
    event: Event,
)
    requires
        event_from(event_type, JsonView::Object(fields), payload) == Some(event@),
    ensures
        match event {
            Event::AudioStart(d) => event_type == "audio-start"@ && json::member(fields, "rate"@)
                == Some(JsonView::Unsigned(d.rate as u64)) && json::member(fields, "width"@)
                == Some(JsonView::Unsigned(d.width as u64)) && json::member(fields, "channels"@)
                == Some(JsonView::Unsigned(d.channels as u64)) && number_under(
                fields,
                "timestamp"@,
                d.timestamp,
            ),
            Event::AudioChunk { data: d, audio } => event_type == "audio-chunk"@ && json::member(
                fields,
                "rate"@,
            ) == Some(JsonView::Unsigned(d.rate as u64)) && json::member(fields, "width"@) == Some(
                JsonView::Unsigned(d.width as u64),
            ) && json::member(fields, "channels"@) == Some(JsonView::Unsigned(d.channels as u64))
                && number_under(fields, "timestamp"@, d.timestamp) && (match payload {
                Some(bytes) => audio@ == bytes,
                None => audio@.len() == 0,
            }),
            Event::AudioStop(d) => event_type == "audio-stop"@ && number_under(
                fields,
                "timestamp"@,
                d.timestamp,
            ),
            Event::VoiceStarted(d) => event_type == "voice-started"@ && number_under(
                fields,
                "timestamp"@,
                d.timestamp,
            ),
            Event::VoiceStopped(d) => event_type == "voice-stopped"@ && number_under(
                fields,
                "timestamp"@,
                d.timestamp,
            ),
            Event::Synthesize(d) => event_type == "synthesize"@ && json::member(fields, "text"@)
                == Some(JsonView::Text(d.text@)) && voice_under(fields, d.voice),
            Event::SynthesizeStart(d) => event_type == "synthesize-start"@ && text_under(
                fields,
                "language"@,
                d.language,
            ) && voice_under(fields, d.voice),
            Event::SynthesizeChunk(d) => event_type == "synthesize-chunk"@ && json::member(
                fields,
                "text"@,
            ) == Some(JsonView::Text(d.text@)),
            Event::SynthesizeStop => event_type == "synthesize-stop"@,
            Event::SynthesizeStopped => event_type == "synthesize-stopped"@,
            Event::Transcribe(d) => event_type == "transcribe"@ && text_under(
                fields,
                "name"@,
                d.name,
            ) && text_under(fields, "language"@, d.language),
            Event::TranscriptStart(d) => event_type == "transcript-start"@ && text_under(
                fields,
                "language"@,
                d.language,
            ),
            Event::TranscriptChunk(d) => event_type == "transcript-chunk"@ && json::member(
                fields,
                "text"@,
            ) == Some(JsonView::Text(d.text@)),
            Event::Transcript(d) => event_type == "transcript"@ && json::member(fields, "text"@)
                == Some(JsonView::Text(d.text@)) && text_under(fields, "language"@, d.language),
            Event::TranscriptStop => event_type == "transcript-stop"@,
            Event::Describe => event_type == "describe"@,
            Event::Info(d) => event_type == "info"@ && list_under(fields, "tts"@, d.tts@)
                && list_under(fields, "asr"@, d.asr@) && list_under(fields, "wake"@, d.wake@),
            Event::Ping(d) => event_type == "ping"@ && text_under(fields, "text"@, d.text),
            Event::Pong(d) => event_type == "pong"@ && text_under(fields, "text"@, d.text),
            Event::Error(d) => event_type == "error"@ && json::member(fields, "text"@) == Some(
                JsonView::Text(d.text@),
            ) && text_under(fields, "code"@, d.code),
            Event::Unknown { event_type: t, data, payload: p } => t@ == event_type && data@
                == JsonView::Object(fields) && (match (p, payload) {
                (Some(p), Some(bytes)) => p@ == bytes,
                (None, None) => true,
                _ => false,
            }),
        },
{
    if let Event::Info(d) = event {
        assert(json::items_view(d.tts@) == event@->tts);
        assert(json::items_view(d.asr@) == event@->asr);
        assert(json::items_view(d.wake@) == event@->wake);
    }
}

/// The member called `name` is a whole number of at most `max`.
pub open spec fn has_number(
    fields: Seq<(Seq<char>, JsonView)>,
    name: Seq<char>,
    max: int,
) -> bool {
    json::member(fields, name) matches Some(JsonView::Unsigned(n)) && n <= max
}

/// The member called `name` is a text.
pub open spec fn has_text(fields: Seq<(Seq<char>, JsonView)>, name: Seq<char>) -> bool {
    json::member(fields, name) matches Some(JsonView::Text(_))
}

/// There is no member called `name` to speak of: it is missing or `null`.
pub open spec fn unset(fields: Seq<(Seq<char>, JsonView)>, name: Seq<char>) -> bool {
    json::member(fields, name) is None || json::member(fields, name) == Some(JsonView::Null)
}

/// The member called `name` is a list, or missing.
pub open spec fn has_list(fields: Seq<(Seq<char>, JsonView)>, name: Seq<char>) -> bool {
    json::member(fields, name) is None || (json::member(fields, name) matches Some(
        JsonView::Array(_),
    ))
}

/// The item at a position is a text, `null` or missing.
pub open spec fn has_text_at(items: Seq<JsonView>, k: int) -> bool {
    k >= items.len() || items[k] is Null || items[k] is Text
}

/// The member called `"voice"` tells a voice, or is missing or `null`.
pub open spec fn has_voice(fields: Seq<(Seq<char>, JsonView)>) -> bool {
    unset(fields, "voice"@) || (match json::member(fields, "voice"@) {
        Some(JsonView::Object(inner)) => (has_text(inner, "name"@) || unset(inner, "name"@)) && (
        has_text(inner, "language"@) || unset(inner, "language"@)) && (has_text(inner, "speaker"@)
            || unset(inner, "speaker"@)),
        Some(JsonView::Array(items)) => items.len() <= 3 && has_text_at(items, 0) && has_text_at(
            items,
            1,
        ) && has_text_at(items, 2),
        _ => false,
    })
}

/// Which data an event type accepts: the members that it requires must be there
/// with a value of their type, those that it knows besides may be left out, and
/// whatever else there is does not matter. An event that is accepted is of the
/// type that its type string names.
pub proof fn law_accepted(
    event_type: Seq<char>,
    fields: Seq<(Seq<char>, JsonView)>,
    payload: Option<Seq<u8>>,
)
    ensures
        ({
            let read = event_from(event_type, JsonView::Object(fields), payload);
            let timed = has_number(fields, "timestamp"@, u64::MAX as int) || unset(
                fields,
                "timestamp"@,
            );
            let audio = has_number(fields, "rate"@, 0xffff_ffff) && has_number(
                fields,
                "width"@,
                0xffff,
            ) && has_number(fields, "channels"@, 0xffff) && timed;
            let language = has_text(fields, "language"@) || unset(fields, "language"@);
            let optional_text = has_text(fields, "text"@) || unset(fields, "text"@);
            &&& event_type == "audio-start"@ ==> (if audio {
                read matches Some(EventView::AudioStart(_))
            } else {
                read is None
            })
            &&& event_type == "audio-chunk"@ ==> (if audio {
                read matches Some(EventView::AudioChunk { .. })
            } else {
                read is None
            })
            &&& event_type == "audio-stop"@ ==> (if timed {
                read matches Some(EventView::AudioStop(_))
            } else {
                read is None
            })
            &&& event_type == "voice-started"@ ==> (if timed {
                read matches Some(EventView::VoiceStarted(_))
            } else {
                read is None
            })
            &&& event_type == "voice-stopped"@ ==> (if timed {
                read matches Some(EventView::VoiceStopped(_))
            } else {
                read is None
            })
            &&& event_type == "synthesize"@ ==> (if has_text(fields, "text"@) && has_voice(
                fields,
            ) {
                read matches Some(EventView::Synthesize { .. })
            } else {
                read is None
            })
            &&& event_type == "synthesize-start"@ ==> (if language && has_voice(fields) {
                read matches Some(EventView::SynthesizeStart { .. })
            } else {
                read is None
            })
            &&& event_type == "synthesize-chunk"@ ==> (if has_text(fields, "text"@) {
                read matches Some(EventView::SynthesizeChunk { .. })
            } else {
                read is None
            })
            &&& event_type == "synthesize-stop"@ ==> read == Some(EventView::SynthesizeStop)
            &&& event_type == "synthesize-stopped"@ ==> read == Some(EventView::SynthesizeStopped)
            &&& event_type == "transcribe"@ ==> (if (has_text(fields, "name"@) || unset(
                fields,
                "name"@,
            )) && language {
                read matches Some(EventView::Transcribe { .. })
            } else {
                read is None
            })
            &&& event_type == "transcript-start"@ ==> (if language {
                read matches Some(EventView::TranscriptStart { .. })
            } else {
                read is None
            })
            &&& event_type == "transcript-chunk"@ ==> (if has_text(fields, "text"@) {
                read matches Some(EventView::TranscriptChunk { .. })
            } else {
                read is None
            })
            &&& event_type == "transcript"@ ==> (if has_text(fields, "text"@) && language {
                read matches Some(EventView::Transcript { .. })
            } else {
                read is None
            })
            &&& event_type == "transcript-stop"@ ==> read == Some(EventView::TranscriptStop)
            &&& event_type == "describe"@ ==> read == Some(EventView::Describe)
            &&& event_type == "info"@ ==> (if has_list(fields, "tts"@) && has_list(fields, "asr"@)
                && has_list(fields, "wake"@) {
                read matches Some(EventView::Info { .. })
            } else {
                read is None
            })
            &&& event_type == "ping"@ ==> (if optional_text {
                read matches Some(EventView::Ping { .. })
            } else {
                read is None
            })
            &&& event_type == "pong"@ ==> (if optional_text {
                read matches Some(EventView::Pong { .. })
            } else {
                read is None
            })
            &&& event_type == "error"@ ==> (if has_text(fields, "text"@) && (has_text(
                fields,
                "code"@,
            ) || unset(fields, "code"@)) {
                read matches Some(EventView::Error { .. })
            } else {
                read is None
            })
            &&& !known_type(event_type) ==> read == Some(
                EventView::Unknown { event_type, data: JsonView::Object(fields), payload },
            )
        }),
{
    lemma_types_differ();
}

/// The member called `name` is this text; there is none where there is no text.
pub open spec fn holds_text(
    fields: Seq<(Seq<char>, JsonView)>,
    name: Seq<char>,
    value: Option<String>,
) -> bool {
    match value {
        Some(s) => json::member(fields, name) == Some(JsonView::Text(s@)),
        None => json::member(fields, name) is None,
    }
}

/// The member called `name` is this number; there is none where there is
/// no number.
pub open spec fn holds_number(
    fields: Seq<(Seq<char>, JsonView)>,
    name: Seq<char>,
    value: Option<u64>,
) -> bool {
    match value {
        Some(n) => json::member(fields, name) == Some(JsonView::Unsigned(n)),
        None => json::member(fields, name) is None,
    }
}

/// The member called `"voice"` holds what is set of this voice by name; there is
/// none where there is no voice.
pub open spec fn holds_voice(
    fields: Seq<(Seq<char>, JsonView)>,
    voice: Option<SynthesizeVoice>,
) -> bool {
    match voice {
        Some(v) => json::member(fields, "voice"@) matches Some(JsonView::Object(inner))
            && holds_text(inner, "name"@, v.name) && holds_text(inner, "language"@, v.language)
            && holds_text(inner, "speaker"@, v.speaker),
        None => json::member(fields, "voice"@) is None,
    }
}

/// The data holds the numbers of an audio format, and a timestamp if there is
/// one.
pub open spec fn holds_audio(
    data: JsonView,
    rate: u32,
    width: u16,
    channels: u16,
    timestamp: Option<u64>,
) -> bool {
    data matches JsonView::Object(fields) && json::member(fields, "rate"@) == Some(
        JsonView::Unsigned(rate as u64),
    ) && json::member(fields, "width"@) == Some(JsonView::Unsigned(width as u64)) && json::member(
        fields,
        "channels"@,
    ) == Some(JsonView::Unsigned(channels as u64)) && holds_number(fields, "timestamp"@, timestamp)
}

/// The data holds a timestamp if there is one, and nothing else.
pub open spec fn holds_timestamp(data: JsonView, timestamp: Option<u64>) -> bool {
    data matches JsonView::Object(fields) && holds_number(fields, "timestamp"@, timestamp)
}

/// The data of an event holds each field that is set under the field's own name; an event without fields has no data. The audio of a chunk
/// and the payload of an unrecognized event are the only payloads.
pub proof fn law_written_by_name(event: Event)
    ensures
        match event {
            Event::AudioStart(d) => type_of(event@) == "audio-start"@ && payload_of(event@) is None
                && holds_audio(data_of(event@), d.rate, d.width, d.channels, d.timestamp),
            Event::AudioChunk { data: d, audio } => type_of(event@) == "audio-chunk"@ && payload_of(
                event@,
            ) == Some(audio@) && holds_audio(
                data_of(event@),
                d.rate,
                d.width,
                d.channels,
                d.timestamp,
            ),
            Event::AudioStop(d) => type_of(event@) == "audio-stop"@ && payload_of(event@) is None
                && holds_timestamp(data_of(event@), d.timestamp),
            Event::VoiceStarted(d) => type_of(event@) == "voice-started"@ && payload_of(event@) is None
                && holds_timestamp(data_of(event@), d.timestamp),
            Event::VoiceStopped(d) => type_of(event@) == "voice-stopped"@ && payload_of(event@) is None
                && holds_timestamp(data_of(event@), d.timestamp),
            Event::Synthesize(d) => type_of(event@) == "synthesize"@ && payload_of(event@) is None
                && (data_of(event@) matches JsonView::Object(fields) && json::member(
                fields,
                "text"@,
            ) == Some(JsonView::Text(d.text@)) && holds_voice(fields, d.voice)),
            Event::SynthesizeStart(d) => type_of(event@) == "synthesize-start"@ && payload_of(
                event@,
            ) is None && (data_of(event@) matches JsonView::Object(fields) && holds_text(
                fields,
                "language"@,
                d.language,
            ) && holds_voice(fields, d.voice)),
            Event::SynthesizeChunk(d) => type_of(event@) == "synthesize-chunk"@ && payload_of(
                event@,
            ) is None && (data_of(event@) matches JsonView::Object(fields) && json::member(
                fields,
                "text"@,
            ) == Some(JsonView::Text(d.text@))),
            Event::SynthesizeStop => type_of(event@) == "synthesize-stop"@ && payload_of(
                event@,
            ) is None && data_of(event@) is Null,
            Event::SynthesizeStopped => type_of(event@) == "synthesize-stopped"@ && payload_of(
                event@,
            ) is None && data_of(event@) is Null,
            Event::Transcribe(d) => type_of(event@) == "transcribe"@ && payload_of(event@) is None
                && (data_of(event@) matches JsonView::Object(fields) && holds_text(
                fields,
                "name"@,
                d.name,
            ) && holds_text(fields, "language"@, d.language)),
            Event::TranscriptStart(d) => type_of(event@) == "transcript-start"@ && payload_of(
                event@,
            ) is None && (data_of(event@) matches JsonView::Object(fields) && holds_text(
                fields,
                "language"@,
                d.language,
            )),
            Event::TranscriptChunk(d) => type_of(event@) == "transcript-chunk"@ && payload_of(
                event@,
            ) is None && (data_of(event@) matches JsonView::Object(fields) && json::member(
                fields,
                "text"@,
            ) == Some(JsonView::Text(d.text@))),
            Event::Transcript(d) => type_of(event@) == "transcript"@ && payload_of(event@) is None
                && (data_of(event@) matches JsonView::Object(fields) && json::member(
                fields,
                "text"@,
            ) == Some(JsonView::Text(d.text@)) && holds_text(fields, "language"@, d.language)),
            Event::TranscriptStop => type_of(event@) == "transcript-stop"@ && payload_of(
                event@,
            ) is None && data_of(event@) is Null,
            Event::Describe => type_of(event@) == "describe"@ && payload_of(event@) is None
                && data_of(event@) is Null,
            Event::Info(d) => type_of(event@) == "info"@ && payload_of(event@) is None && (data_of(
                event@,
            ) matches JsonView::Object(fields) && list_under(fields, "tts"@, d.tts@)
                && list_under(fields, "asr"@, d.asr@) && list_under(fields, "wake"@, d.wake@)),
            Event::Ping(d) => type_of(event@) == "ping"@ && payload_of(event@) is None && (data_of(
                event@,
            ) matches JsonView::Object(fields) && holds_text(fields, "text"@, d.text)),
            Event::Pong(d) => type_of(event@) == "pong"@ && payload_of(event@) is None && (data_of(
                event@,
            ) matches JsonView::Object(fields) && holds_text(fields, "text"@, d.text)),
            Event::Error(d) => type_of(event@) == "error"@ && payload_of(event@) is None && (data_of(
                event@,
            ) matches JsonView::Object(fields) && json::member(fields, "text"@) == Some(
                JsonView::Text(d.text@),
            ) && holds_text(fields, "code"@, d.code)),
            Event::Unknown { event_type, data, payload } => type_of(event@) == event_type@
                && data_of(event@) == data@ && (match payload {
                Some(bytes) => payload_of(event@) == Some(bytes@),
                None => payload_of(event@) is None,
            }),
        },
{
    lemma_names_differ();
    let data = data_of(event@);
    match event {
        Event::AudioStart(d) => {
            assert(holds_audio(data, d.rate, d.width, d.channels, d.timestamp)) by {
                broadcast use json::group_member;

            }
        },
        Event::AudioChunk { data: d, .. } => {
            assert(holds_audio(data, d.rate, d.width, d.channels, d.timestamp)) by {
                broadcast use json::group_member;

            }
        },
        Event::Synthesize(d) => {
            assert(json::member(data->Object_0, "text"@) == Some(JsonView::Text(d.text@))
                && json::member(data->Object_0, "voice"@) == voice_value(opt_voice(d.voice))) by {
                broadcast use json::group_member;

            }
            lemma_voice_held(d.voice);
        },
        Event::SynthesizeStart(d) => {
            assert(holds_text(data->Object_0, "language"@, d.language) && json::member(
                data->Object_0,
                "voice"@,
            ) == voice_value(opt_voice(d.voice))) by {
                broadcast use json::group_member;

            }
            lemma_voice_held(d.voice);
        },
        Event::Transcribe(d) => {
            assert(holds_text(data->Object_0, "name"@, d.name) && holds_text(
                data->Object_0,
                "language"@,
                d.language,
            )) by {
                broadcast use json::group_member;

            }
        },
        Event::Info(d) => {
            assert(json::member(data->Object_0, "tts"@) == list_value(json::items_view(d.tts@))
                && json::member(data->Object_0, "asr"@) == list_value(json::items_view(d.asr@))
                && json::member(data->Object_0, "wake"@) == list_value(
                json::items_view(d.wake@),
            )) by {
                broadcast use json::group_member;

            }
        },
        _ => {
            broadcast use json::group_member;

        },
    }
}

/// What is set of a voice stands under its own name.
proof fn lemma_voice_held(voice: Option<SynthesizeVoice>)
    ensures
        voice matches Some(v) ==> (voice_value(opt_voice(voice)) matches Some(
            JsonView::Object(inner),
        ) && holds_text(inner, "name"@, v.name) && holds_text(inner, "language"@, v.language)
            && holds_text(inner, "speaker"@, v.speaker)),
        voice is None ==> voice_value(opt_voice(voice)) is None,
{
    broadcast use json::group_member;

    lemma_names_differ();
}

/// The data of an event has no member beyond the event's own fields.
pub proof fn law_no_other_member(event: EventView, name: Seq<char>)
    requires
        data_of(event) matches JsonView::Object(fields) && json::member(fields, name) is Some,
    ensures
        match event {
            EventView::AudioStart(_) => name == "rate"@ || name == "width"@ || name == "channels"@ || name == "timestamp"@,
            EventView::AudioChunk { .. } => name == "rate"@ || name == "width"@ || name == "channels"@ || name == "timestamp"@,
            EventView::AudioStop(_) => name == "timestamp"@,
            EventView::VoiceStarted(_) => name == "timestamp"@,
            EventView::VoiceStopped(_) => name == "timestamp"@,
            EventView::Synthesize { .. } => name == "text"@ || name == "voice"@,
            EventView::SynthesizeStart { .. } => name == "language"@ || name == "voice"@,
            EventView::SynthesizeChunk { .. } => name == "text"@,
            EventView::Transcribe { .. } => name == "name"@ || name == "language"@,
            EventView::TranscriptStart { .. } => name == "language"@,
            EventView::TranscriptChunk { .. } => name == "text"@,
            EventView::Transcript { .. } => name == "text"@ || name == "language"@,
            EventView::Info { .. } => name == "tts"@ || name == "asr"@ || name == "wake"@,
            EventView::Ping { .. } => name == "text"@,
            EventView::Pong { .. } => name == "text"@,
            EventView::Error { .. } => name == "text"@ || name == "code"@,
            EventView::Unknown { data, .. } => data matches JsonView::Object(fields)
                && json::member(fields, name) is Some,
            _ => false,
        },
{
    broadcast use json::group_member;

}

/// The members of a voice that is written are its name, its language and its
/// speaker.
pub proof fn law_no_other_voice_member(voice: VoiceView, name: Seq<char>)
    requires
        json::member(voice_fields(voice), name) is Some,
    ensures
        name == "name"@ || name == "language"@ || name == "speaker"@,
{
    broadcast use json::group_member;

}

/// Some values, the first of them under the first of these names and so on.
pub open spec fn named(names: Seq<Seq<char>>, items: Seq<JsonView>) -> Seq<
    (Seq<char>, JsonView),
> {
    Seq::new(items.len(), |i: int| (names[i], items[i]))
}

/// Data that lists its values by position reads as data that gives them by name:
/// the fields of an event stand in the order in which they are written.
pub proof fn law_read_by_position(
    event_type: Seq<char>,
    items: Seq<JsonView>,
    payload: Option<Seq<u8>>,
)
    ensures
        ({
            let listed = event_from(event_type, JsonView::Array(items), payload);
            let as_named = |names: Seq<Seq<char>>|
                if items.len() <= names.len() {
                    event_from(event_type, JsonView::Object(named(names, items)), payload)
                } else {
                    None
                };
            &&& event_type == "audio-start"@ || event_type == "audio-chunk"@ ==> listed == as_named(
                seq!["rate"@, "width"@, "channels"@, "timestamp"@],
            )
            &&& event_type == "audio-stop"@ || event_type == "voice-started"@ || event_type == "voice-stopped"@ ==> listed == as_named(
                seq!["timestamp"@],
            )
            &&& event_type == "synthesize"@ ==> listed == as_named(
                seq!["text"@, "voice"@],
            )
            &&& event_type == "synthesize-start"@ ==> listed == as_named(
                seq!["language"@, "voice"@],
            )
            &&& event_type == "synthesize-chunk"@ || event_type == "transcript-chunk"@ || event_type == "ping"@ || event_type == "pong"@ ==> listed == as_named(
                seq!["text"@],
            )
            &&& event_type == "transcribe"@ ==> listed == as_named(
                seq!["name"@, "language"@],
            )
            &&& event_type == "transcript-start"@ ==> listed == as_named(
                seq!["language"@],
            )
            &&& event_type == "transcript"@ ==> listed == as_named(
                seq!["text"@, "language"@],
            )
            &&& event_type == "info"@ ==> listed == as_named(
                seq!["tts"@, "asr"@, "wake"@],
            )
            &&& event_type == "error"@ ==> listed == as_named(
                seq!["text"@, "code"@],
            )
        }),
{
    lemma_types_differ();
    lemma_names_differ();
    if event_type == "audio-start"@ || event_type == "audio-chunk"@ {
        lemma_named(seq!["rate"@, "width"@, "channels"@, "timestamp"@], items);
    }
    if event_type == "audio-stop"@ || event_type == "voice-started"@ || event_type == "voice-stopped"@ {
        lemma_named(seq!["timestamp"@], items);
    }
    if event_type == "synthesize"@ {
        lemma_named(seq!["text"@, "voice"@], items);
    }
    if event_type == "synthesize-start"@ {
        lemma_named(seq!["language"@, "voice"@], items);
    }
    if event_type == "synthesize-chunk"@ || event_type == "transcript-chunk"@ || event_type == "ping"@ || event_type == "pong"@ {
        lemma_named(seq!["text"@], items);
    }
    if event_type == "transcribe"@ {
        lemma_named(seq!["name"@, "language"@], items);
    }
    if event_type == "transcript-start"@ {
        lemma_named(seq!["language"@], items);
    }
    if event_type == "transcript"@ {
        lemma_named(seq!["text"@, "language"@], items);
    }
    if event_type == "info"@ {
        lemma_named(seq!["tts"@, "asr"@, "wake"@], items);
    }
    if event_type == "error"@ {
        lemma_named(seq!["text"@, "code"@], items);
    }
}

/// A value that is given a name is found under it.
proof fn lemma_named(names: Seq<Seq<char>>, items: Seq<JsonView>)
    requires
        items.len() <= names.len() ==> forall|i: int, j: int|
            0 <= i < j < names.len() ==> (#[trigger] names[i]) != (#[trigger] names[j]),
    ensures
        items.len() <= names.len() ==> forall|k: int|
            0 <= k < names.len() ==> json::member(named(names, items), #[trigger] names[k]) == (
            if k < items.len() {
                Some(items[k])
            } else {
                None
            }),
{
    if items.len() <= names.len() {
        let fields = named(names, items);
        assert forall|k: int| 0 <= k < names.len() implies json::member(fields, #[trigger] names[k])
            == (if k < items.len() {
            Some(items[k])
        } else {
            None
        }) by {
            let n = if k < items.len() {
                k
            } else {
                items.len() as int
            };
            assert forall|j: int| 0 <= j < n implies fields[j].0 != names[k] by {
                assert(fields[j].0 == names[j]);
            }
            json::lemma_position_is(fields, names[k], n);
        }
    }
}

/// What an event cannot do without is asked for by name: where the data has none
/// of the members that the event knows, the first that it requires is missing.
pub proof fn law_missing_told(event_type: Seq<char>, fields: Seq<(Seq<char>, JsonView)>)
    requires
        forall|i: int|
            0 <= i < fields.len() ==> (#[trigger] fields[i]).0 != "text"@ && fields[i].0 != "voice"@
                && fields[i].0 != "language"@ && fields[i].0 != "code"@ && fields[i].0 != "rate"@
                && fields[i].0 != "width"@ && fields[i].0 != "channels"@ && fields[i].0
                != "timestamp"@,
    ensures
        event_type == "synthesize"@ || event_type == "synthesize-chunk"@ || event_type
            == "transcript"@ || event_type == "transcript-chunk"@ || event_type == "error"@
            ==> data_refused(event_type, JsonView::Object(fields)) == Some(
            "missing field `text`"@,
        ),
        event_type == "audio-start"@ || event_type == "audio-chunk"@ ==> data_refused(
            event_type,
            JsonView::Object(fields),
        ) == Some("missing field `rate`"@),
{
    lemma_types_differ();
    lemma_names_differ();
    reveal_strlit("missing field `");
    reveal_strlit("`");
    reveal_strlit("missing field `text`");
    reveal_strlit("missing field `rate`");
    reveal_strlit("text");
    reveal_strlit("rate");
    assert("missing field `"@ + "text"@ + "`"@ =~= "missing field `text`"@);
    assert("missing field `"@ + "rate"@ + "`"@ =~= "missing field `rate`"@);
    json::lemma_position(fields, "text"@);
    json::lemma_position(fields, "rate"@);
    if let Some(schema) = schema_of(event_type) {
        if event_type == "synthesize"@ || event_type == "synthesize-chunk"@ || event_type
            == "transcript"@ || event_type == "transcript-chunk"@ || event_type == "error"@
            || event_type == "audio-start"@ || event_type == "audio-chunk"@ {
            assert forall|i: int| 0 <= i < fields.len() implies schema::kind_of(
                schema.fields,
                (#[trigger] fields[i]).0,
                0,
            ) is None by {
                reveal_with_fuel(schema::kind_of, 5);
            }
            schema::law_missing_field(fields, schema, 1, 0);
        }
    }
}

/// No data at all reads as data without members.
pub proof fn law_no_data(event_type: Seq<char>, payload: Option<Seq<u8>>)
    ensures
        event_from(event_type, JsonView::Null, payload) == event_from(
            event_type,
            JsonView::Object(Seq::empty()),
            payload,
        ),
{
}

/// A value that is neither an object nor a list is no data for an event that has
/// fields; an event without fields does not look at its data.
pub proof fn law_plain_data(event_type: Seq<char>, data: JsonView, payload: Option<Seq<u8>>)
    requires
        !(data is Null || data is Object || data is Array),
    ensures
        event_type == "synthesize-stop"@ ==> event_from(event_type, data, payload) == Some(
            EventView::SynthesizeStop,
        ),
        event_type == "synthesize-stopped"@ ==> event_from(event_type, data, payload) == Some(
            EventView::SynthesizeStopped,
        ),
        event_type == "transcript-stop"@ ==> event_from(event_type, data, payload) == Some(
            EventView::TranscriptStop,
        ),
        event_type == "describe"@ ==> event_from(event_type, data, payload) == Some(
            EventView::Describe,
        ),
        known_type(event_type) && event_type != "synthesize-stop"@ && event_type
            != "synthesize-stopped"@ && event_type != "transcript-stop"@ && event_type
            != "describe"@ ==> event_from(event_type, data, payload) is None,
        !known_type(event_type) ==> event_from(event_type, data, payload) == Some(
            EventView::Unknown { event_type, data, payload },
        ),
{
    lemma_types_differ();
}

/// Data that is no record at all is told what the event's data is called.
pub proof fn law_title_told(event_type: Seq<char>, data: JsonView)
    requires
        !(data is Null || data is Object || data is Array),
    ensures
        ({
            let told = data_refused(event_type, data);
            let because = |title: Seq<char>| Some(json::json_type_error(data, title));
            &&& event_type == "audio-start"@ ==> told == because("struct AudioStartData"@)
            &&& event_type == "audio-chunk"@ ==> told == because("struct AudioChunkData"@)
            &&& event_type == "audio-stop"@ ==> told == because("struct AudioStopData"@)
            &&& event_type == "voice-started"@ ==> told == because("struct VoiceStartedData"@)
            &&& event_type == "voice-stopped"@ ==> told == because("struct VoiceStoppedData"@)
            &&& event_type == "synthesize"@ ==> told == because("struct SynthesizeData"@)
            &&& event_type == "synthesize-start"@ ==> told == because("struct SynthesizeStartData"@)
            &&& event_type == "synthesize-chunk"@ ==> told == because("struct SynthesizeChunkData"@)
            &&& event_type == "transcribe"@ ==> told == because("struct TranscribeData"@)
            &&& event_type == "transcript-start"@ ==> told == because("struct TranscriptStartData"@)
            &&& event_type == "transcript-chunk"@ ==> told == because("struct TranscriptChunkData"@)
            &&& event_type == "transcript"@ ==> told == because("struct TranscriptData"@)
            &&& event_type == "info"@ ==> told == because("struct InfoData"@)
            &&& event_type == "ping"@ ==> told == because("struct PingData"@)
            &&& event_type == "pong"@ ==> told == because("struct PongData"@)
            &&& event_type == "error"@ ==> told == because("struct ErrorData"@)
        }),
{
    lemma_types_differ();
}

/// The voice of a request that is read has as its name, its language and its
/// speaker the texts that stand under these names in the voice of the data.
pub proof fn law_voice_read_by_name(
    event_type: Seq<char>,
    fields: Seq<(Seq<char>, JsonView)>,
    inner: Seq<(Seq<char>, JsonView)>,
    payload: Option<Seq<u8>>,
    event: Event,
    told: Seq<char>,
)
    requires
        event_from(event_type, JsonView::Object(fields), payload) == Some(event@),
        json::member(fields, "voice"@) == Some(JsonView::Object(inner)),
        event is Synthesize || event is SynthesizeStart,
    ensures
        ({
            let voice = match event {
                Event::Synthesize(d) => d.voice,
                Event::SynthesizeStart(d) => d.voice,
                _ => None,
            };
            voice matches Some(v) && (json::member(inner, "name"@) == Some(JsonView::Text(told))
                <==> (v.name matches Some(name) && name@ == told)) && (json::member(
                inner,
                "language"@,
            ) == Some(JsonView::Text(told)) <==> (v.language matches Some(language) && language@
                == told)) && (json::member(inner, "speaker"@) == Some(JsonView::Text(told)) <==> (
            v.speaker matches Some(speaker) && speaker@ == told))
        }),
{
}

/// The voice of a request that is written gives its name, its language and its
/// speaker, as far as they are set, under these names.
pub proof fn law_voice_written_by_name(event: Event, voice: SynthesizeVoice, told: Seq<char>)
    requires
        event matches Event::Synthesize(d) ==> d.voice == Some(voice),
        event matches Event::SynthesizeStart(d) ==> d.voice == Some(voice),
        event is Synthesize || event is SynthesizeStart,
    ensures
        data_of(event@) matches JsonView::Object(fields) && (json::member(fields, "voice"@) matches Some(
            JsonView::Object(inner),
        ) && (json::member(inner, "name"@) == Some(JsonView::Text(told)) <==> (
        voice.name matches Some(name) && name@ == told)) && (json::member(inner, "language"@)
            == Some(JsonView::Text(told)) <==> (voice.language matches Some(language) && language@
            == told)) && (json::member(inner, "speaker"@) == Some(JsonView::Text(told)) <==> (
        voice.speaker matches Some(speaker) && speaker@ == told))),
{
    law_written_by_name(event);
}

/// The audio format of an event that is written stands under the names of its
/// numbers, and so does a timestamp.
pub proof fn law_audio_written_by_name(event: Event, start: AudioStartData, chunk: AudioChunkData)
    ensures
        event == Event::AudioStart(start) ==> (data_of(event@) matches JsonView::Object(fields)
            && json::member(fields, "rate"@) == Some(JsonView::Unsigned(start.rate as u64))
            && json::member(fields, "width"@) == Some(JsonView::Unsigned(start.width as u64))
            && json::member(fields, "channels"@) == Some(
            JsonView::Unsigned(start.channels as u64),
        ) && (match start.timestamp {
            Some(t) => json::member(fields, "timestamp"@) == Some(JsonView::Unsigned(t)),
            None => json::member(fields, "timestamp"@) is None,
        })),
        event matches Event::AudioChunk { data, .. } ==> data == chunk ==> (
        data_of(event@) matches JsonView::Object(fields) && json::member(fields, "rate"@) == Some(
            JsonView::Unsigned(chunk.rate as u64),
        ) && json::member(fields, "width"@) == Some(JsonView::Unsigned(chunk.width as u64))
            && json::member(fields, "channels"@) == Some(
            JsonView::Unsigned(chunk.channels as u64),
        ) && (match chunk.timestamp {
            Some(t) => json::member(fields, "timestamp"@) == Some(JsonView::Unsigned(t)),
            None => json::member(fields, "timestamp"@) is None,
        })),
{
    law_written_by_name(event);
}

} // verus!
