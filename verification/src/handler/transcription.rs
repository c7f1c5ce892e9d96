//! Answering requests for transcripts.

use vstd::prelude::*;
use vstd::string::*;
use crate::engine::runtime::{ModelRuntime, RuntimeView};
use crate::event::{
    Event, EventView, TranscribeData, TranscriptChunkData, TranscriptData, TranscriptStartData,
};
use crate::handler;
use crate::handler::{AsrModelMap, AsrResolution, AsrResolutionView};
use crate::table;
use crate::text;

verus! {

/// Sample width, in bytes, that ASR models expect (16-bit PCM).
pub const EXPECTED_SAMPLE_WIDTH: u16 = 2;

/// Channel count that ASR models expect (mono).
pub const EXPECTED_CHANNELS: u16 = 1;

/// Maximum total size, in bytes, of the audio collected for a single
/// `transcribe` request.
///
/// Bounds memory use against a client that keeps sending audio; 1 MiB is about
/// 30 seconds of 16-bit mono audio at 16 kHz.
pub const MAX_TRANSCRIBE_AUDIO_BYTES: usize = 1048576;

/// What to do about a `transcribe` request.
#[derive(Debug, Clone)]
pub enum TranscribePlan {
    /// Answer with this event.
    Refuse(Event),
    /// Collect audio at the given sample rate, then transcribe it with the
    /// named model.
    Collect { model_name: String, expected_rate: u32 },
}

/// The content of a [`TranscribePlan`].
pub enum TranscribePlanView {
    Refuse(EventView),
    Collect { model_name: Seq<char>, expected_rate: u32 },
}

impl View for TranscribePlan {
    type V = TranscribePlanView;

    open spec fn view(&self) -> TranscribePlanView {
        match *self {
            TranscribePlan::Refuse(e) => TranscribePlanView::Refuse(e@),
            TranscribePlan::Collect { model_name, expected_rate } => TranscribePlanView::Collect {
                model_name: model_name@,
                expected_rate,
            },
        }
    }
}

/// What to do about a request for a transcript.
pub open spec fn transcribe_plan(
    runtime: RuntimeView,
    map: AsrModelMap,
    name: Option<Seq<char>>,
    language: Option<Seq<char>>,
) -> TranscribePlanView {
    match handler::asr_resolution(map, name, language) {
        AsrResolutionView::NotFound(name) => TranscribePlanView::Refuse(
            handler::error_event("Unknown ASR model: "@ + name, Some("asr-model-not-found"@)),
        ),
        AsrResolutionView::NoModel => TranscribePlanView::Refuse(
            handler::error_event("No ASR model loaded"@, None),
        ),
        AsrResolutionView::Found(model_name) => match table::lookup(runtime.asr, model_name) {
            None => TranscribePlanView::Refuse(
                handler::error_event("ASR model '"@ + model_name + "' unavailable"@, None),
            ),
            Some(handle) => TranscribePlanView::Collect {
                model_name,
                expected_rate: handle.input_sample_rate,
            },
        },
    }
}

/// Decides what to do about a `transcribe` event: resolves the requested model.
pub fn handle_transcribe(runtime: &ModelRuntime, asr_map: &AsrModelMap, data: &TranscribeData) -> (r:
    TranscribePlan)
    ensures
        r@ == transcribe_plan(
            runtime@,
            *asr_map,
            text::opt_text(data.name),
            text::opt_text(data.language),
        ),
{
    match handler::resolve_asr_model(asr_map, data) {
        AsrResolution::NotFound(name) => {
            let mut message = String::from_str("Unknown ASR model: ");
            message.append(name.as_str());
            TranscribePlan::Refuse(
                handler::refusal(message.as_str(), Some("asr-model-not-found")),
            )
        },
        AsrResolution::NoModel => TranscribePlan::Refuse(
            handler::refusal("No ASR model loaded", None),
        ),
        AsrResolution::Found(model_name) => match runtime.asr_handle(model_name.as_str()) {
            None => {
                let mut message = String::from_str("ASR model '");
                message.append(model_name.as_str());
                message.append("' unavailable");
                TranscribePlan::Refuse(handler::refusal(message.as_str(), None))
            },
            Some(handle) => {
                let expected_rate = handle.input_sample_rate();
                TranscribePlan::Collect { model_name, expected_rate }
            },
        },
    }
}

/// A request that names a model goes to that model if it is listed and loaded,
/// with audio at that model's rate; else it is answered with an `error` that names
/// the model.
pub proof fn law_named_model_transcribes(
    runtime: RuntimeView,
    map: AsrModelMap,
    names: Seq<Seq<char>>,
    request: TranscribeData,
    plan: TranscribePlan,
)
    requires
        map.maps(names, runtime),
        plan@ == transcribe_plan(
            runtime,
            map,
            text::opt_text(request.name),
            text::opt_text(request.language),
        ),
        request.name is Some,
    ensures
        match plan {
            TranscribePlan::Collect { model_name, expected_rate } => names.contains(
                request.name->0@,
            ) && model_name@ == request.name->0@ && (table::lookup(
                runtime.asr,
                request.name->0@,
            ) matches Some(handle) && expected_rate == handle.input_sample_rate),
            TranscribePlan::Refuse(Event::Error(d)) => !(names.contains(request.name->0@)
                && table::lookup(runtime.asr, request.name->0@) is Some) && d.text@
                == "Unknown ASR model: "@ + request.name->0@ && (d.code matches Some(code) && code@
                == "asr-model-not-found"@),
            _ => false,
        },
{
    assert(map.configured(request.name->0@) == (names.contains(request.name->0@) && table::lookup(
        runtime.asr,
        request.name->0@,
    ) is Some));
    if let TranscribePlan::Refuse(e) = plan {
        assert(e@ is Error);
    }
}

/// A request that gives a language and no name goes to the first model, of those
/// that are listed and loaded, that understands the language.
pub proof fn law_language_transcribes(
    runtime: RuntimeView,
    map: AsrModelMap,
    names: Seq<Seq<char>>,
    request: TranscribeData,
    plan: TranscribePlan,
    m: int,
)
    requires
        map.maps(names, runtime),
        plan@ == transcribe_plan(
            runtime,
            map,
            text::opt_text(request.name),
            text::opt_text(request.language),
        ),
        request.name is None,
        request.language is Some,
        0 <= m < names.len(),
        handler::understands(
            runtime.asr,
            names[m],
            handler::base_subtag(request.language->0@),
        ),
        forall|k: int|
            0 <= k < m ==> !handler::understands(
                runtime.asr,
                #[trigger] names[k],
                handler::base_subtag(request.language->0@),
            ),
    ensures
        plan matches TranscribePlan::Collect { model_name, expected_rate } && model_name@
            == names[m] && expected_rate == table::lookup(
            runtime.asr,
            names[m],
        )->0.input_sample_rate,
{
    handler::law_asr_language_found(
        map,
        names,
        runtime,
        handler::base_subtag(request.language->0@),
    );
}

/// A request that gives neither a name nor a language that a model understands
/// goes to the model that was loaded first; without any model it is answered with
/// an `error`.
pub proof fn law_default_transcribes(
    runtime: RuntimeView,
    map: AsrModelMap,
    names: Seq<Seq<char>>,
    request: TranscribeData,
    plan: TranscribePlan,
)
    requires
        map.maps(names, runtime),
        plan@ == transcribe_plan(
            runtime,
            map,
            text::opt_text(request.name),
            text::opt_text(request.language),
        ),
        request.name is None,
        request.language matches Some(language) ==> forall|k: int|
            0 <= k < names.len() ==> !handler::understands(
                runtime.asr,
                #[trigger] names[k],
                handler::base_subtag(language@),
            ),
    ensures
        match plan {
            TranscribePlan::Collect { model_name, expected_rate } => runtime.asr.len() > 0
                && model_name@ == runtime.asr[0].0 && expected_rate
                == runtime.asr[0].1.input_sample_rate,
            TranscribePlan::Refuse(Event::Error(d)) => runtime.asr.len() == 0 && d.text@
                == "No ASR model loaded"@ && d.code is None,
            _ => false,
        },
{
    if let Some(language) = request.language {
        handler::law_asr_language_found(map, names, runtime, handler::base_subtag(language@));
    }
    if runtime.asr.len() > 0 {
        table::lemma_index_is(runtime.asr, runtime.asr[0].0, 0);
    }
    if let TranscribePlan::Refuse(e) = plan {
        assert(e@ is Error);
    }
}

/// The audio of a `transcribe` exchange as far as it has come.
#[derive(Debug, Clone)]
pub enum AudioState {
    /// No audio has been announced yet.
    AwaitingStart,
    /// The audio so far.
    Collecting(Vec<u8>),
    /// The exchange is over; answer with this event.
    Refused(Event),
    /// The audio is complete.
    Ready(Vec<u8>),
}

/// The content of an [`AudioState`].
pub enum AudioStateView {
    AwaitingStart,
    Collecting(Seq<u8>),
    Refused(EventView),
    Ready(Seq<u8>),
}

impl View for AudioState {
    type V = AudioStateView;

    open spec fn view(&self) -> AudioStateView {
        match *self {
            AudioState::AwaitingStart => AudioStateView::AwaitingStart,
            AudioState::Collecting(audio) => AudioStateView::Collecting(audio@),
            AudioState::Refused(e) => AudioStateView::Refused(e@),
            AudioState::Ready(audio) => AudioStateView::Ready(audio@),
        }
    }
}

/// An audio format is the one that the model expects. Audio is not resampled.
pub open spec fn format_fits(rate: u32, width: u16, channels: u16, expected_rate: u32) -> bool {
    rate == expected_rate && width == EXPECTED_SAMPLE_WIDTH && channels == EXPECTED_CHANNELS
}

/// The message for audio whose format is not the one that the model expects.
pub open spec fn format_message(rate: u32, width: u16, channels: u16, expected_rate: u32) -> Seq<
    char,
> {
    "Unsupported audio format: rate="@ + text::decimal(rate as nat) + ", width="@ + text::decimal(
        width as nat,
    ) + ", channels="@ + text::decimal(channels as nat) + " (expected rate="@ + text::decimal(
        expected_rate as nat,
    ) + ", width="@ + text::decimal(EXPECTED_SAMPLE_WIDTH as nat) + ", channels="@ + text::decimal(
        EXPECTED_CHANNELS as nat,
    ) + ")"@
}

/// The `error` event for audio whose format is not the one that the model
/// expects.
pub open spec fn format_error(rate: u32, width: u16, channels: u16, expected_rate: u32) -> EventView {
    handler::error_event(
        format_message(rate, width, channels, expected_rate),
        Some("unsupported-audio-format"@),
    )
}

/// The `error` event for more audio than is accepted.
pub open spec fn size_error() -> EventView {
    handler::error_event(
        "Audio exceeds maximum size of "@ + text::decimal(MAX_TRANSCRIBE_AUDIO_BYTES as nat)
            + " bytes for a single transcribe request"@,
        Some("audio-too-large"@),
    )
}

/// The state once `event` has come. The audio begins with `audio-start` and
/// ends with `audio-stop`; it, and each chunk of it, is in the expected format,
/// and together the chunks are not too large.
pub open spec fn audio_next(expected_rate: u32, state: AudioStateView, event: EventView) -> AudioStateView {
    match state {
        AudioStateView::AwaitingStart => match event {
            EventView::AudioStart(start) => if format_fits(
                start.rate,
                start.width,
                start.channels,
                expected_rate,
            ) {
                AudioStateView::Collecting(Seq::empty())
            } else {
                AudioStateView::Refused(
                    format_error(start.rate, start.width, start.channels, expected_rate),
                )
            },
            _ => AudioStateView::Refused(
                handler::error_event("Expected audio-start after transcribe"@, None),
            ),
        },
        AudioStateView::Collecting(audio) => match event {
            EventView::AudioChunk { data, audio: more } => if !format_fits(
                data.rate,
                data.width,
                data.channels,
                expected_rate,
            ) {
                AudioStateView::Refused(
                    format_error(data.rate, data.width, data.channels, expected_rate),
                )
            } else if audio.len() + more.len() > MAX_TRANSCRIBE_AUDIO_BYTES {
                AudioStateView::Refused(size_error())
            } else {
                AudioStateView::Collecting(audio + more)
            },
            EventView::AudioStop(_) => AudioStateView::Ready(audio),
            _ => AudioStateView::Refused(
                handler::error_event(
                    "Expected audio-chunk or audio-stop during transcribe"@,
                    None,
                ),
            ),
        },
        _ => state,
    }
}

/// The state once `events` have come.
pub open spec fn audio_after(expected_rate: u32, events: Seq<EventView>) -> AudioStateView
    decreases events.len(),
{
    if events.len() == 0 {
        AudioStateView::AwaitingStart
    } else {
        audio_next(
            expected_rate,
            audio_after(expected_rate, events.drop_last()),
            events.last(),
        )
    }
}

/// Collects the `audio-start`/`audio-chunk`*/`audio-stop` sequence of one
/// `transcribe` exchange.
#[derive(Debug, Clone)]
pub struct AudioCollector {
    /// Sample rate that the model expects.
    pub expected_rate: u32,
    /// What has come.
    pub state: AudioState,
}

/// Builds the error message for audio whose format is not the one that the
/// model expects.
pub fn unsupported_audio_format_message(
    rate: u32,
    width: u16,
    channels: u16,
    expected_rate: u32,
) -> (r: String)
    ensures
        r@ == format_message(rate, width, channels, expected_rate),
        r@ == "Unsupported audio format: rate="@ + text::decimal(rate as nat) + ", width="@
            + text::decimal(width as nat) + ", channels="@ + text::decimal(channels as nat)
            + " (expected rate="@ + text::decimal(expected_rate as nat) + ", width="@
            + text::decimal(2) + ", channels="@ + text::decimal(1) + ")"@,
{
    let mut r = String::from_str("Unsupported audio format: rate=");
    r.append(text::to_decimal(rate as u64).as_str());
    r.append(", width=");
    r.append(text::to_decimal(width as u64).as_str());
    r.append(", channels=");
    r.append(text::to_decimal(channels as u64).as_str());
    r.append(" (expected rate=");
    r.append(text::to_decimal(expected_rate as u64).as_str());
    r.append(", width=");
    r.append(text::to_decimal(EXPECTED_SAMPLE_WIDTH as u64).as_str());
    r.append(", channels=");
    r.append(text::to_decimal(EXPECTED_CHANNELS as u64).as_str());
    r.append(")");
    r
}

/// Refuses audio whose format is not the one that the model expects.
fn refuse_format(rate: u32, width: u16, channels: u16, expected_rate: u32) -> (r: AudioState)
    ensures
        r@ == AudioStateView::Refused(format_error(rate, width, channels, expected_rate)),
{
    let message = unsupported_audio_format_message(rate, width, channels, expected_rate);
    AudioState::Refused(handler::refusal(message.as_str(), Some("unsupported-audio-format")))
}

/// Refuses more audio than is accepted.
fn refuse_size() -> (r: AudioState)
    ensures
        r@ == AudioStateView::Refused(size_error()),
{
    let mut message = String::from_str("Audio exceeds maximum size of ");
    message.append(text::to_decimal(MAX_TRANSCRIBE_AUDIO_BYTES as u64).as_str());
    message.append(" bytes for a single transcribe request");
    AudioState::Refused(handler::refusal(message.as_str(), Some("audio-too-large")))
}

impl AudioCollector {
    /// Begins an exchange.
    pub fn new(expected_rate: u32) -> (r: Self)
        ensures
            r.expected_rate == expected_rate,
            r.state@ == AudioStateView::AwaitingStart,
    {
        AudioCollector { expected_rate, state: AudioState::AwaitingStart }
    }

    /// Takes the next event of the exchange.
    pub fn step(self, event: Event) -> (r: Self)
        ensures
            r.expected_rate == self.expected_rate,
            r.state@ == audio_next(self.expected_rate, self.state@, event@),
    {
        let expected_rate = self.expected_rate;
        let state = match self.state {
            AudioState::AwaitingStart => match event {
                Event::AudioStart(start) => if start.rate == expected_rate && start.width
                    == EXPECTED_SAMPLE_WIDTH && start.channels == EXPECTED_CHANNELS {
                    AudioState::Collecting(Vec::new())
                } else {
                    refuse_format(start.rate, start.width, start.channels, expected_rate)
                },
                _ => AudioState::Refused(
                    handler::refusal("Expected audio-start after transcribe", None),
                ),
            },
            AudioState::Collecting(audio) => match event {
                Event::AudioChunk { data, audio: more } => {
                    if data.rate != expected_rate || data.width != EXPECTED_SAMPLE_WIDTH
                        || data.channels != EXPECTED_CHANNELS {
                        refuse_format(data.rate, data.width, data.channels, expected_rate)
                    } else if more.len() > MAX_TRANSCRIBE_AUDIO_BYTES || audio.len()
                        > MAX_TRANSCRIBE_AUDIO_BYTES - more.len() {
                        refuse_size()
                    } else {
                        let mut audio = audio;
                        let mut more = more;
                        audio.append(&mut more);
                        AudioState::Collecting(audio)
                    }
                },
                Event::AudioStop(_) => AudioState::Ready(audio),
                _ => AudioState::Refused(
                    handler::refusal(
                        "Expected audio-chunk or audio-stop during transcribe",
                        None,
                    ),
                ),
            },
            AudioState::Refused(e) => AudioState::Refused(e),
            AudioState::Ready(audio) => AudioState::Ready(audio),
        };
        AudioCollector { expected_rate, state }
    }
}

/// Audio is accepted at the rate that the model expects, as 16-bit mono, and up
/// to 1 MiB of it; whatever else comes is answered with an `error` that says what
/// is wrong.
pub proof fn law_audio_accepted(expected_rate: u32, state: AudioStateView, event: EventView)
    ensures
        ({
            let next = audio_next(expected_rate, state, event);
            &&& state is AwaitingStart ==> (match event {
                EventView::AudioStart(d) => if d.rate == expected_rate && d.width == 2
                    && d.channels == 1 {
                    next == AudioStateView::Collecting(Seq::empty())
                } else {
                    next matches AudioStateView::Refused(EventView::Error { text, code }) && code
                        == Some("unsupported-audio-format"@) && text
                        == "Unsupported audio format: rate="@ + text::decimal(d.rate as nat)
                        + ", width="@ + text::decimal(d.width as nat) + ", channels="@
                        + text::decimal(d.channels as nat) + " (expected rate="@ + text::decimal(
                        expected_rate as nat,
                    ) + ", width="@ + text::decimal(2) + ", channels="@ + text::decimal(1) + ")"@
                },
                _ => next == AudioStateView::Refused(
                    EventView::Error { text: "Expected audio-start after transcribe"@, code: None },
                ),
            })
            &&& state matches AudioStateView::Collecting(audio) ==> (match event {
                EventView::AudioChunk { data: d, audio: more } => if d.rate == expected_rate
                    && d.width == 2 && d.channels == 1 {
                    if audio.len() + more.len() <= 1048576 {
                        next == AudioStateView::Collecting(audio + more)
                    } else {
                        next matches AudioStateView::Refused(EventView::Error { text, code })
                            && code == Some("audio-too-large"@) && text
                            == "Audio exceeds maximum size of "@ + text::decimal(1048576)
                            + " bytes for a single transcribe request"@
                    }
                } else {
                    next matches AudioStateView::Refused(EventView::Error { text, code }) && code
                        == Some("unsupported-audio-format"@) && text
                        == "Unsupported audio format: rate="@ + text::decimal(d.rate as nat)
                        + ", width="@ + text::decimal(d.width as nat) + ", channels="@
                        + text::decimal(d.channels as nat) + " (expected rate="@ + text::decimal(
                        expected_rate as nat,
                    ) + ", width="@ + text::decimal(2) + ", channels="@ + text::decimal(1) + ")"@
                },
                EventView::AudioStop(_) => next == AudioStateView::Ready(audio),
                _ => next == AudioStateView::Refused(
                    EventView::Error {
                        text: "Expected audio-chunk or audio-stop during transcribe"@,
                        code: None,
                    },
                ),
            })
            &&& state is Ready || state is Refused ==> next == state
        }),
{
}

/// The audio that an exchange ends up with is what its chunks hold, one after
/// the other, and never more than the limit.
pub proof fn law_collected_audio(expected_rate: u32, events: Seq<EventView>)
    ensures
        match audio_after(expected_rate, events) {
            AudioStateView::Collecting(audio) => audio == chunk_audio(events) && audio.len()
                <= MAX_TRANSCRIBE_AUDIO_BYTES,
            AudioStateView::Ready(audio) => audio.len() <= MAX_TRANSCRIBE_AUDIO_BYTES && exists|
                n: int,
            |
                0 <= n <= events.len() && audio == #[trigger] chunk_audio(events.take(n)),
            AudioStateView::AwaitingStart => events.len() == 0,
            AudioStateView::Refused(_) => true,
        },
    decreases events.len(),
{
    if events.len() > 0 {
        let before = events.drop_last();
        law_collected_audio(expected_rate, before);
        match audio_after(expected_rate, before) {
            AudioStateView::AwaitingStart => {
                assert(chunk_audio(before) == Seq::<u8>::empty());
            },
            AudioStateView::Collecting(audio) => {
                if events.last() is AudioStop {
                    assert(events.take(events.len() - 1) == before);
                    assert(audio == chunk_audio(events.take(events.len() - 1)));
                }
            },
            AudioStateView::Ready(audio) => {
                let n = choose|n: int|
                    0 <= n <= before.len() && audio == #[trigger] chunk_audio(before.take(n));
                assert(before.take(n) == events.take(n));
            },
            _ => {},
        }
    }
}

/// The audio of the chunks among some events.
pub open spec fn chunk_audio(events: Seq<EventView>) -> Seq<u8>
    decreases events.len(),
{
    if events.len() == 0 {
        Seq::empty()
    } else {
        match events.last() {
            EventView::AudioChunk { audio, .. } => chunk_audio(events.drop_last()) + audio,
            _ => chunk_audio(events.drop_last()),
        }
    }
}

/// Whether collected audio is filtered by voice activity detection (VAD) before
/// it is transcribed.
#[derive(Debug, Clone, Copy, PartialEq, Eq, Structural)]
pub enum VadDecision {
    /// No VAD model is loaded; pass audio through unfiltered.
    Skip,
    /// A VAD model is loaded, but it does not support the ASR model's sample
    /// rate; pass audio through unfiltered.
    IncompatibleRate,
    /// Filter the audio.
    Apply,
}

/// Whether audio is filtered: a VAD model takes 8 kHz or 16 kHz only.
pub open spec fn vad_decision_of(loaded: bool, sample_rate: u32) -> VadDecision {
    if !loaded {
        VadDecision::Skip
    } else if sample_rate == 8000 || sample_rate == 16000 {
        VadDecision::Apply
    } else {
        VadDecision::IncompatibleRate
    }
}

/// Decides whether to filter audio by voice activity detection.
pub fn vad_decision(runtime: &ModelRuntime, sample_rate: u32) -> (r: VadDecision)
    ensures
        r == vad_decision_of(runtime@.vad, sample_rate),
        r is Skip <==> !runtime@.vad,
        r is Apply <==> runtime@.vad && (sample_rate == 8000 || sample_rate == 16000),
{
    if !runtime.has_vad() {
        VadDecision::Skip
    } else if sample_rate == 8000 || sample_rate == 16000 {
        VadDecision::Apply
    } else {
        VadDecision::IncompatibleRate
    }
}

/// What a model's transcription came to.
#[derive(Debug, Clone, PartialEq, Eq)]
pub enum TranscriptItem {
    /// The audio could not be filtered.
    FilterFailed(String),
    /// The request did not reach the model.
    Unavailable(String),
    /// The model's thread ended without an answer.
    NoResponse,
    /// A transcript, or a part of one.
    Text { text: String, language: Option<String>, is_final: bool },
    /// Transcription failed.
    Failed(String),
    /// There is no more.
    End,
}

/// The content of a [`TranscriptItem`].
pub enum TranscriptItemView {
    FilterFailed(Seq<char>),
    Unavailable(Seq<char>),
    NoResponse,
    Text { text: Seq<char>, language: Option<Seq<char>>, is_final: bool },
    Failed(Seq<char>),
    End,
}

impl View for TranscriptItem {
    type V = TranscriptItemView;

    open spec fn view(&self) -> TranscriptItemView {
        match *self {
            TranscriptItem::FilterFailed(e) => TranscriptItemView::FilterFailed(e@),
            TranscriptItem::Unavailable(e) => TranscriptItemView::Unavailable(e@),
            TranscriptItem::NoResponse => TranscriptItemView::NoResponse,
            TranscriptItem::Text { text, language, is_final } => TranscriptItemView::Text {
                text: text@,
                language: text::opt_text(language),
                is_final,
            },
            TranscriptItem::Failed(e) => TranscriptItemView::Failed(e@),
            TranscriptItem::End => TranscriptItemView::End,
        }
    }
}

/// Whether an item is the last of its answer.
pub open spec fn is_last(item: TranscriptItemView) -> bool {
    match item {
        TranscriptItemView::Text { is_final, .. } => is_final,
        _ => true,
    }
}

/// Tells whether an item is the last of its answer.
pub fn ends_transcript(item: &TranscriptItem) -> (r: bool)
    ensures
        r == is_last(item@),
        item matches TranscriptItem::Text { is_final, .. } ==> r == is_final,
        !(item is Text) ==> r,
{
    match item {
        TranscriptItem::Text { is_final, .. } => *is_final,
        _ => true,
    }
}

/// The message for an item, if it reports an error.
pub open spec fn item_message(item: TranscriptItemView) -> Option<Seq<char>> {
    match item {
        TranscriptItemView::FilterFailed(e) => Some("VAD filtering failed: "@ + e),
        TranscriptItemView::Unavailable(e) => Some("ASR engine unavailable: "@ + e),
        TranscriptItemView::NoResponse => Some("ASR engine did not respond"@),
        TranscriptItemView::Failed(e) => Some("ASR transcription failed: "@ + e),
        _ => None,
    }
}

/// The `transcript` event for the text of an item; an answer that ends without
/// one has an empty transcript.
pub open spec fn final_event(item: TranscriptItemView) -> EventView {
    match item {
        TranscriptItemView::Text { text, language, .. } => EventView::Transcript { text, language },
        _ => EventView::Transcript { text: Seq::empty(), language: None },
    }
}

/// The language that an item names.
pub open spec fn item_language(item: TranscriptItemView) -> Option<Seq<char>> {
    match item {
        TranscriptItemView::Text { language, .. } => language,
        _ => None,
    }
}

/// The events for an item, where `started` says whether `transcript-start` has
/// been sent.
///
/// `transcript-start` waits for the first text, so that a failure before it is
/// a plain `error`. A failure after it closes the transcript with
/// `transcript-stop` first.
pub open spec fn item_events(started: bool, item: TranscriptItemView) -> Seq<EventView> {
    let opening = if started {
        Seq::empty()
    } else {
        seq![EventView::TranscriptStart { language: item_language(item) }]
    };
    match item_message(item) {
        Some(message) => if started {
            seq![EventView::TranscriptStop, handler::error_event(message, None)]
        } else {
            seq![handler::error_event(message, None)]
        },
        None => if is_last(item) {
            opening + seq![final_event(item), EventView::TranscriptStop]
        } else {
            opening + seq![EventView::TranscriptChunk { text: item->Text_text }]
        },
    }
}

/// The answer to a request for a transcript, as far as the items go.
pub open spec fn transcript_events(items: Seq<TranscriptItemView>) -> Seq<EventView>
    decreases items.len(),
{
    if items.len() == 0 {
        Seq::empty()
    } else {
        transcript_events(items.drop_last()) + item_events(items.len() > 1, items.last())
    }
}

/// Gives the `error` event for an item that reports an error.
fn error_of_item(item: &TranscriptItem) -> (r: Option<Event>)
    ensures
        match r {
            Some(e) => item_message(item@) is Some && e@ == handler::error_event(
                item_message(item@)->0,
                None,
            ),
            None => item_message(item@) is None,
        },
{
    let mut message = String::new();
    match item {
        TranscriptItem::FilterFailed(e) => {
            message.append("VAD filtering failed: ");
            message.append(e.as_str());
        },
        TranscriptItem::Unavailable(e) => {
            message.append("ASR engine unavailable: ");
            message.append(e.as_str());
        },
        TranscriptItem::NoResponse => {
            message.append("ASR engine did not respond");
        },
        TranscriptItem::Failed(e) => {
            message.append("ASR transcription failed: ");
            message.append(e.as_str());
        },
        _ => {
            return None;
        },
    }
    proof {
        assert(message@ == item_message(item@)->0);
    }
    Some(handler::refusal(message.as_str(), None))
}

/// The state of an incremental answer to a request for a transcript.
#[derive(Debug, Clone)]
pub struct TranscriptReply {
    /// Whether `transcript-start` has been sent.
    pub started: bool,
}

impl TranscriptReply {
    /// Begins an answer.
    pub fn new() -> (r: Self)
        ensures
            !r.started,
    {
        TranscriptReply { started: false }
    }

    /// Gives the events for the next item. The answer is complete with an item
    /// that [`ends_transcript`]; what a model gives after that is not read.
    pub fn step(&mut self, item: TranscriptItem) -> (r: Vec<Event>)
        ensures
            final(self).started,
            handler::events_view(r@) == item_events(old(self).started, item@),
    {
        let started = self.started;
        self.started = true;
        let ghost view = item@;
        let mut events: Vec<Event> = Vec::new();
        if let Some(e) = error_of_item(&item) {
            if started {
                events.push(Event::TranscriptStop);
            }
            events.push(e);
            proof {
                assert(handler::events_view(events@) == item_events(started, view));
            }
            return events;
        }
        match item {
            TranscriptItem::Text { text, language, is_final } => {
                if !started {
                    let start = TranscriptStartData { language: text::copy_opt(&language) };
                    events.push(Event::TranscriptStart(start));
                }
                if is_final {
                    events.push(Event::Transcript(TranscriptData { text, language }));
                    events.push(Event::TranscriptStop);
                } else {
                    events.push(Event::TranscriptChunk(TranscriptChunkData { text }));
                }
            },
            _ => {
                if !started {
                    events.push(Event::TranscriptStart(TranscriptStartData::new()));
                }
                events.push(Event::Transcript(TranscriptData::new("")));
                events.push(Event::TranscriptStop);
                proof {
                    reveal_strlit("");
                    assert(""@ == Seq::<char>::empty());
                }
            },
        }
        proof {
            assert(handler::events_view(events@) == item_events(started, view));
        }
        events
    }
}

/// The answer to a request for a transcript that is delivered all at once.
pub open spec fn batch_event(item: TranscriptItemView) -> EventView {
    match item_message(item) {
        Some(message) => handler::error_event(message, None),
        None => final_event(item),
    }
}

/// Answers a request for a transcript that is delivered all at once.
pub fn handle_transcribe_batch(item: TranscriptItem) -> (r: Event)
    ensures
        r@ == batch_event(item@),
        item matches TranscriptItem::Text { text, language, .. } ==> (
        r matches Event::Transcript(d) && d.text == text && d.language == language),
        item is End ==> (r matches Event::Transcript(d) && d.text@.len() == 0
            && d.language is None),
{
    if let Some(e) = error_of_item(&item) {
        return e;
    }
    match item {
        TranscriptItem::Text { text, language, .. } => Event::Transcript(
            TranscriptData { text, language },
        ),
        _ => {
            proof {
                reveal_strlit("");
                assert(""@ == Seq::<char>::empty());
            }
            Event::Transcript(TranscriptData::new(""))
        },
    }
}

/// Text is passed on as it is: a part as `transcript-chunk`, the whole as
/// `transcript` with its language and then `transcript-stop`. Before the first
/// text stands `transcript-start` with its language, and nothing else.
pub proof fn law_text_passed_on(
    started: bool,
    text: Seq<char>,
    language: Option<Seq<char>>,
    is_final: bool,
)
    ensures
        ({
            let item = TranscriptItemView::Text { text, language, is_final };
            let events = item_events(started, item);
            let opening = EventView::TranscriptStart { language };
            let whole = EventView::Transcript { text, language };
            let part = EventView::TranscriptChunk { text };
            &&& started && !is_final ==> events == seq![part]
            &&& !started && !is_final ==> events == seq![opening, part]
            &&& started && is_final ==> events == seq![whole, EventView::TranscriptStop]
            &&& !started && is_final ==> events == seq![opening, whole, EventView::TranscriptStop]
            &&& batch_event(item) == whole
        }),
{
    let item = TranscriptItemView::Text { text, language, is_final };
    let whole = EventView::Transcript { text, language };
    assert(Seq::<EventView>::empty() + seq![whole, EventView::TranscriptStop] =~= seq![
        whole,
        EventView::TranscriptStop,
    ]);
}

/// How an answer without a last text ends: with an empty transcript, or with an
/// `error` that tells what happened, after `transcript-stop` if something was
/// started.
pub proof fn law_end_told(started: bool, item: TranscriptItemView)
    requires
        !(item is Text),
    ensures
        ({
            let events = item_events(started, item);
            let empty = EventView::Transcript { text: Seq::empty(), language: None };
            let error = |text: Seq<char>| EventView::Error { text, code: None };
            &&& item is End ==> batch_event(item) == empty && events == (if started {
                seq![empty, EventView::TranscriptStop]
            } else {
                seq![
                    EventView::TranscriptStart { language: None },
                    empty,
                    EventView::TranscriptStop,
                ]
            })
            &&& item matches TranscriptItemView::FilterFailed(e) ==> batch_event(item) == error(
                "VAD filtering failed: "@ + e,
            )
            &&& item matches TranscriptItemView::Unavailable(e) ==> batch_event(item) == error(
                "ASR engine unavailable: "@ + e,
            )
            &&& item matches TranscriptItemView::Failed(e) ==> batch_event(item) == error(
                "ASR transcription failed: "@ + e,
            )
            &&& item is NoResponse ==> batch_event(item) == error("ASR engine did not respond"@)
            &&& !(item is End) ==> events == (if started {
                seq![EventView::TranscriptStop, batch_event(item)]
            } else {
                seq![batch_event(item)]
            })
        }),
{
    let empty = EventView::Transcript { text: Seq::empty(), language: None };
    assert(Seq::<EventView>::empty() + seq![empty, EventView::TranscriptStop] =~= seq![
        empty,
        EventView::TranscriptStop,
    ]);
}

/// The answer to a request for a transcript is bracketed: `transcript-start`,
/// the parts in order, `transcript` and `transcript-stop`; or, if transcription
/// failed, `transcript-stop` and an `error`; a failure before any text is an
/// `error` alone.
pub proof fn law_transcript_brackets(
    parts: Seq<(Seq<char>, Option<Seq<char>>)>,
    last: TranscriptItemView,
)
    requires
        is_last(last),
    ensures
        ({
            let items = parts.map_values(
                |p: (Seq<char>, Option<Seq<char>>)|
                    TranscriptItemView::Text { text: p.0, language: p.1, is_final: false },
            ).push(last);
            let opening = seq![
                EventView::TranscriptStart { language: item_language(items[0]) },
            ];
            let chunks = parts.map_values(
                |p: (Seq<char>, Option<Seq<char>>)| EventView::TranscriptChunk { text: p.0 },
            );
            transcript_events(items) == (match item_message(last) {
                None => opening + chunks + seq![final_event(last), EventView::TranscriptStop],
                Some(message) => if parts.len() == 0 {
                    seq![handler::error_event(message, None)]
                } else {
                    opening + chunks + seq![
                        EventView::TranscriptStop,
                        handler::error_event(message, None),
                    ]
                },
            })
        }),
{
    let items = parts.map_values(
        |p: (Seq<char>, Option<Seq<char>>)|
            TranscriptItemView::Text { text: p.0, language: p.1, is_final: false },
    );
    let chunks = parts.map_values(
        |p: (Seq<char>, Option<Seq<char>>)| EventView::TranscriptChunk { text: p.0 },
    );
    let all = items.push(last);
    assert(all.drop_last() == items);
    if parts.len() == 0 {
        assert(transcript_events(items) == Seq::<EventView>::empty());
        assert(transcript_events(all) == item_events(false, last));
        assert(chunks == Seq::<EventView>::empty());
        let opening = seq![EventView::TranscriptStart { language: item_language(all[0]) }];
        assert(opening + chunks == opening);
    } else {
        lemma_transcript_parts(parts);
        assert(all[0] == items[0]);
        assert(item_events(true, last) == (match item_message(last) {
            None => seq![final_event(last), EventView::TranscriptStop],
            Some(message) => seq![
                EventView::TranscriptStop,
                handler::error_event(message, None),
            ],
        }));
    }
}

/// The events for parts of a transcript alone.
proof fn lemma_transcript_parts(parts: Seq<(Seq<char>, Option<Seq<char>>)>)
    requires
        parts.len() > 0,
    ensures
        transcript_events(
            parts.map_values(
                |p: (Seq<char>, Option<Seq<char>>)|
                    TranscriptItemView::Text { text: p.0, language: p.1, is_final: false },
            ),
        ) == seq![EventView::TranscriptStart { language: parts[0].1 }] + parts.map_values(
            |p: (Seq<char>, Option<Seq<char>>)| EventView::TranscriptChunk { text: p.0 },
        ),
    decreases parts.len(),
{
    let items = parts.map_values(
        |p: (Seq<char>, Option<Seq<char>>)|
            TranscriptItemView::Text { text: p.0, language: p.1, is_final: false },
    );
    let chunks = parts.map_values(
        |p: (Seq<char>, Option<Seq<char>>)| EventView::TranscriptChunk { text: p.0 },
    );
    let before = parts.drop_last();
    assert(items.drop_last() == before.map_values(
        |p: (Seq<char>, Option<Seq<char>>)|
            TranscriptItemView::Text { text: p.0, language: p.1, is_final: false },
    ));
    if before.len() > 0 {
        lemma_transcript_parts(before);
        assert(chunks == before.map_values(
            |p: (Seq<char>, Option<Seq<char>>)| EventView::TranscriptChunk { text: p.0 },
        ).push(EventView::TranscriptChunk { text: parts.last().0 }));
        assert(item_events(true, items.last()) == seq![
            EventView::TranscriptChunk { text: parts.last().0 },
        ]);
        assert(before[0] == parts[0]);
    } else {
        assert(transcript_events(items.drop_last()) == Seq::<EventView>::empty());
        assert(item_events(false, items.last()) == seq![
            EventView::TranscriptStart { language: parts[0].1 },
            EventView::TranscriptChunk { text: parts[0].0 },
        ]);
        assert(chunks == seq![EventView::TranscriptChunk { text: parts[0].0 }]);
    }
    assert(transcript_events(items) == seq![
        EventView::TranscriptStart { language: parts[0].1 },
    ] + chunks);
}

/// A request for which a model is found that is not loaded is answered with an
/// `error` that names the model.
pub proof fn law_unloaded_model_refused(
    runtime: RuntimeView,
    map: AsrModelMap,
    request: TranscribeData,
    plan: TranscribePlan,
    model_name: Seq<char>,
)
    requires
        handler::asr_resolution(map, text::opt_text(request.name), text::opt_text(request.language))
            == AsrResolutionView::Found(model_name),
        table::lookup(runtime.asr, model_name) is None,
        plan@ == transcribe_plan(
            runtime,
            map,
            text::opt_text(request.name),
            text::opt_text(request.language),
        ),
    ensures
        plan matches TranscribePlan::Refuse(Event::Error(d)) && d.text@ == "ASR model '"@
            + model_name + "' unavailable"@ && d.code is None,
{
}

} // verus!
