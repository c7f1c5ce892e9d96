//! Answering requests for speech.

use vstd::prelude::*;
use vstd::string::*;
use crate::engine::runtime::{AudioInfo, ModelRuntime, RuntimeView};
use crate::event;
use crate::event::{
    AudioChunkData, AudioFormat, AudioStartData, AudioStopData, Event, EventView, SynthesizeData,
    SynthesizeStartData, SynthesizeVoice, VoiceView,
};
use crate::handler;
use crate::handler::{VoiceMap, VoiceResolution, VoiceResolutionView};
use crate::table;
use crate::text;

verus! {

/// The English name of a language that Qwen3-TTS speaks; any other language
/// stays as it is.
pub open spec fn language_name(base: Seq<char>) -> Seq<char> {
    if base == "zh"@ {
        "chinese"@
    } else if base == "en"@ {
        "english"@
    } else if base == "ja"@ {
        "japanese"@
    } else if base == "ko"@ {
        "korean"@
    } else if base == "de"@ {
        "german"@
    } else if base == "fr"@ {
        "french"@
    } else if base == "ru"@ {
        "russian"@
    } else if base == "pt"@ {
        "portuguese"@
    } else if base == "es"@ {
        "spanish"@
    } else if base == "it"@ {
        "italian"@
    } else {
        base
    }
}

/// The language to ask a model for: Qwen3-TTS goes by full English names, the
/// others by language codes, and no language means that the model picks one.
pub open spec fn spoken_language(
    model_type_name: Seq<char>,
    language: Option<Seq<char>>,
) -> Seq<char> {
    match language {
        None => "auto"@,
        Some(tag) => if model_type_name == "qwen3_tts"@ {
            language_name(handler::base_subtag(tag))
        } else {
            handler::base_subtag(tag)
        },
    }
}

/// Gives the English name of a language that Qwen3-TTS speaks.
fn name_of_language(base: String) -> (r: String)
    ensures
        r@ == language_name(base@),
{
    let b = base.as_str();
    if text::same(b, "zh") {
        String::from_str("chinese")
    } else if text::same(b, "en") {
        String::from_str("english")
    } else if text::same(b, "ja") {
        String::from_str("japanese")
    } else if text::same(b, "ko") {
        String::from_str("korean")
    } else if text::same(b, "de") {
        String::from_str("german")
    } else if text::same(b, "fr") {
        String::from_str("french")
    } else if text::same(b, "ru") {
        String::from_str("russian")
    } else if text::same(b, "pt") {
        String::from_str("portuguese")
    } else if text::same(b, "es") {
        String::from_str("spanish")
    } else if text::same(b, "it") {
        String::from_str("italian")
    } else {
        base
    }
}

/// The language codes differ from one another.
proof fn lemma_codes_differ()
    ensures
        "zh"@ != "en"@,
        "zh"@ != "ja"@,
        "zh"@ != "ko"@,
        "zh"@ != "de"@,
        "zh"@ != "fr"@,
        "zh"@ != "ru"@,
        "zh"@ != "pt"@,
        "zh"@ != "es"@,
        "zh"@ != "it"@,
        "en"@ != "ja"@,
        "en"@ != "ko"@,
        "en"@ != "de"@,
        "en"@ != "fr"@,
        "en"@ != "ru"@,
        "en"@ != "pt"@,
        "en"@ != "es"@,
        "en"@ != "it"@,
        "ja"@ != "ko"@,
        "ja"@ != "de"@,
        "ja"@ != "fr"@,
        "ja"@ != "ru"@,
        "ja"@ != "pt"@,
        "ja"@ != "es"@,
        "ja"@ != "it"@,
        "ko"@ != "de"@,
        "ko"@ != "fr"@,
        "ko"@ != "ru"@,
        "ko"@ != "pt"@,
        "ko"@ != "es"@,
        "ko"@ != "it"@,
        "de"@ != "fr"@,
        "de"@ != "ru"@,
        "de"@ != "pt"@,
        "de"@ != "es"@,
        "de"@ != "it"@,
        "fr"@ != "ru"@,
        "fr"@ != "pt"@,
        "fr"@ != "es"@,
        "fr"@ != "it"@,
        "ru"@ != "pt"@,
        "ru"@ != "es"@,
        "ru"@ != "it"@,
        "pt"@ != "es"@,
        "pt"@ != "it"@,
        "es"@ != "it"@,
{
    reveal_strlit("zh");
    reveal_strlit("en");
    reveal_strlit("ja");
    reveal_strlit("ko");
    reveal_strlit("de");
    reveal_strlit("fr");
    reveal_strlit("ru");
    reveal_strlit("pt");
    reveal_strlit("es");
    reveal_strlit("it");
    assert("zh"@[0] != "en"@[0]);
    assert("zh"@[0] != "ja"@[0]);
    assert("zh"@[0] != "ko"@[0]);
    assert("zh"@[0] != "de"@[0]);
    assert("zh"@[0] != "fr"@[0]);
    assert("zh"@[0] != "ru"@[0]);
    assert("zh"@[0] != "pt"@[0]);
    assert("zh"@[0] != "es"@[0]);
    assert("zh"@[0] != "it"@[0]);
    assert("en"@[0] != "ja"@[0]);
    assert("en"@[0] != "ko"@[0]);
    assert("en"@[0] != "de"@[0]);
    assert("en"@[0] != "fr"@[0]);
    assert("en"@[0] != "ru"@[0]);
    assert("en"@[0] != "pt"@[0]);
    assert("en"@[1] != "es"@[1]);
    assert("en"@[0] != "it"@[0]);
    assert("ja"@[0] != "ko"@[0]);
    assert("ja"@[0] != "de"@[0]);
    assert("ja"@[0] != "fr"@[0]);
    assert("ja"@[0] != "ru"@[0]);
    assert("ja"@[0] != "pt"@[0]);
    assert("ja"@[0] != "es"@[0]);
    assert("ja"@[0] != "it"@[0]);
    assert("ko"@[0] != "de"@[0]);
    assert("ko"@[0] != "fr"@[0]);
    assert("ko"@[0] != "ru"@[0]);
    assert("ko"@[0] != "pt"@[0]);
    assert("ko"@[0] != "es"@[0]);
    assert("ko"@[0] != "it"@[0]);
    assert("de"@[0] != "fr"@[0]);
    assert("de"@[0] != "ru"@[0]);
    assert("de"@[0] != "pt"@[0]);
    assert("de"@[0] != "es"@[0]);
    assert("de"@[0] != "it"@[0]);
    assert("fr"@[0] != "ru"@[0]);
    assert("fr"@[0] != "pt"@[0]);
    assert("fr"@[0] != "es"@[0]);
    assert("fr"@[0] != "it"@[0]);
    assert("ru"@[0] != "pt"@[0]);
    assert("ru"@[0] != "es"@[0]);
    assert("ru"@[0] != "it"@[0]);
    assert("pt"@[0] != "es"@[0]);
    assert("pt"@[0] != "it"@[0]);
    assert("es"@[0] != "it"@[0]);
}

/// Puts a requested language the way a model expects it.
pub fn model_language(model_type_name: &str, language: Option<&str>) -> (r: String)
    ensures
        r@ == spoken_language(
            model_type_name@,
            match language {
                Some(tag) => Some(tag@),
                None => None,
            },
        ),
        language is None ==> r@ == "auto"@,
        model_type_name@ != "qwen3_tts"@ ==> (language matches Some(tag) ==> r@
            == handler::base_subtag(tag@)),
        model_type_name@ == "qwen3_tts"@ ==> (language matches Some(tag) ==> {
            let base = handler::base_subtag(tag@);
            &&& base == "zh"@ ==> r@ == "chinese"@
            &&& base == "en"@ ==> r@ == "english"@
            &&& base == "ja"@ ==> r@ == "japanese"@
            &&& base == "ko"@ ==> r@ == "korean"@
            &&& base == "de"@ ==> r@ == "german"@
            &&& base == "fr"@ ==> r@ == "french"@
            &&& base == "ru"@ ==> r@ == "russian"@
            &&& base == "pt"@ ==> r@ == "portuguese"@
            &&& base == "es"@ ==> r@ == "spanish"@
            &&& base == "it"@ ==> r@ == "italian"@
            &&& base != "zh"@ && base != "en"@ && base != "ja"@ && base != "ko"@ && base != "de"@
                && base != "fr"@ && base != "ru"@ && base != "pt"@ && base != "es"@ && base
                != "it"@ ==> r@ == base
        }),
{
    proof {
        lemma_codes_differ();
    }
    match language {
        None => String::from_str("auto"),
        Some(tag) => {
            let base = handler::base_language_subtag(tag);
            if text::same(model_type_name, "qwen3_tts") {
                name_of_language(base)
            } else {
                base
            }
        },
    }
}

/// The protocol's description of a model's audio format.
pub open spec fn format_of(info: AudioInfo) -> AudioFormat {
    AudioFormat {
        rate: info.sample_rate,
        width: (info.bits_per_sample / 8) as u16,
        channels: info.channels,
    }
}

/// Converts a model's [`AudioInfo`] into the protocol's [`AudioFormat`].
pub fn audio_format(audio_info: AudioInfo) -> (r: AudioFormat)
    ensures
        r == format_of(audio_info),
        r.rate == audio_info.sample_rate,
        r.width == audio_info.bits_per_sample / 8,
        r.channels == audio_info.channels,
{
    AudioFormat {
        rate: audio_info.sample_rate,
        width: audio_info.bits_per_sample / 8,
        channels: audio_info.channels,
    }
}

/// The `audio-start` event for a model's audio.
pub open spec fn start_event(info: AudioInfo) -> EventView {
    EventView::AudioStart(
        AudioStartData {
            rate: format_of(info).rate,
            width: format_of(info).width,
            channels: format_of(info).channels,
            timestamp: None,
        },
    )
}

/// An `audio-chunk` event with a model's audio.
pub open spec fn chunk_event(info: AudioInfo, audio: Seq<u8>) -> EventView {
    EventView::AudioChunk {
        data: AudioChunkData {
            rate: format_of(info).rate,
            width: format_of(info).width,
            channels: format_of(info).channels,
            timestamp: None,
        },
        audio,
    }
}

/// The `audio-stop` event.
pub open spec fn stop_event() -> EventView {
    EventView::AudioStop(AudioStopData { timestamp: None })
}

/// Builds the `audio-start` event announcing the format of the audio that will
/// follow.
pub fn audio_start_event(audio_info: AudioInfo) -> (r: Event)
    ensures
        r@ == start_event(audio_info),
        r matches Event::AudioStart(d) && d.rate == audio_info.sample_rate && d.width
            == audio_info.bits_per_sample / 8 && d.channels == audio_info.channels
            && d.timestamp is None,
{
    Event::AudioStart(AudioStartData::new(audio_format(audio_info)))
}

/// Builds an `audio-chunk` event.
pub fn audio_chunk_event(audio_info: AudioInfo, audio: Vec<u8>) -> (r: Event)
    ensures
        r@ == chunk_event(audio_info, audio@),
        r matches Event::AudioChunk { data: d, audio: a } && a == audio && d.rate
            == audio_info.sample_rate && d.width == audio_info.bits_per_sample / 8 && d.channels
            == audio_info.channels && d.timestamp is None,
{
    Event::AudioChunk { data: AudioChunkData::new(audio_format(audio_info)), audio }
}

/// Builds the `audio-stop` event.
fn audio_stop_event() -> (r: Event)
    ensures
        r@ == stop_event(),
{
    Event::AudioStop(AudioStopData::new())
}

/// What follows the answer to a request: an exchange whose text was streamed
/// ends with `synthesize-stopped`, after an error too.
pub open spec fn conclusion(streamed_text: bool) -> Seq<EventView> {
    if streamed_text {
        seq![EventView::SynthesizeStopped]
    } else {
        Seq::empty()
    }
}

/// Adds what follows the answer to a request.
fn conclude(events: &mut Vec<Event>, streamed_text: bool)
    ensures
        handler::events_view(final(events)@) == handler::events_view(old(events)@) + conclusion(
            streamed_text,
        ),
{
    let ghost before = handler::events_view(events@);
    if streamed_text {
        events.push(Event::SynthesizeStopped);
    }
    proof {
        assert(handler::events_view(events@) == before + conclusion(streamed_text));
    }
}

/// Parameters for a resolved `synthesize` request.
#[derive(Debug, Clone, PartialEq, Eq)]
pub struct SynthesizeParams {
    /// Text to synthesize.
    pub text: String,
    /// Target language (e.g. "english", "auto").
    pub language: String,
    /// Voice name from the resolved model's voices, or `None` for the model
    /// default.
    pub voice_name: Option<String>,
    /// Audio format the resolved model produces.
    pub audio_info: AudioInfo,
}

/// What to do about a `synthesize` request.
#[derive(Debug, Clone)]
pub enum SynthesizePlan {
    /// Answer with these events.
    Refuse(Vec<Event>),
    /// Generate speech with the named model, and deliver it incrementally or
    /// all at once.
    Generate { model_name: String, params: SynthesizeParams, streaming: bool },
}

/// The content of a [`SynthesizePlan`].
pub enum SynthesizePlanView {
    Refuse(Seq<EventView>),
    Generate {
        model_name: Seq<char>,
        text: Seq<char>,
        language: Seq<char>,
        voice_name: Option<Seq<char>>,
        audio_info: AudioInfo,
        streaming: bool,
    },
}

impl View for SynthesizePlan {
    type V = SynthesizePlanView;

    open spec fn view(&self) -> SynthesizePlanView {
        match *self {
            SynthesizePlan::Refuse(events) => SynthesizePlanView::Refuse(
                handler::events_view(events@),
            ),
            SynthesizePlan::Generate { model_name, params, streaming } => {
                SynthesizePlanView::Generate {
                    model_name: model_name@,
                    text: params.text@,
                    language: params.language@,
                    voice_name: text::opt_text(params.voice_name),
                    audio_info: params.audio_info,
                    streaming,
                }
            },
        }
    }
}

/// What to do about a request for speech.
pub open spec fn synthesize_plan(
    runtime: RuntimeView,
    map: VoiceMap,
    text: Seq<char>,
    voice: Option<VoiceView>,
    streamed_text: bool,
) -> SynthesizePlanView {
    match handler::voice_resolution(map, voice) {
        VoiceResolutionView::NotFound(name) => SynthesizePlanView::Refuse(
            seq![handler::error_event("Unknown voice: "@ + name, Some("voice-not-found"@))]
                + conclusion(streamed_text),
        ),
        VoiceResolutionView::NoModel => SynthesizePlanView::Refuse(
            seq![handler::error_event("No TTS model loaded"@, None)] + conclusion(streamed_text),
        ),
        VoiceResolutionView::Found { model_name, voice_name } => {
            match table::lookup(runtime.tts, model_name) {
                None => SynthesizePlanView::Refuse(
                    seq![
                        handler::error_event(
                            "TTS model '"@ + model_name + "' unavailable"@,
                            None,
                        ),
                    ] + conclusion(streamed_text),
                ),
                Some(handle) => SynthesizePlanView::Generate {
                    model_name,
                    text,
                    language: spoken_language(
                        handle.model_type_name,
                        handler::requested_language(voice),
                    ),
                    voice_name,
                    audio_info: handle.audio_info,
                    streaming: runtime.streaming,
                },
            }
        },
    }
}

/// Answers a request with an `error` event alone.
fn refuse(text: &str, code: Option<&str>, streamed_text: bool) -> (r: Vec<Event>)
    ensures
        handler::events_view(r@) == seq![
            handler::error_event(
                text@,
                match code {
                    Some(code) => Some(code@),
                    None => None,
                },
            ),
        ] + conclusion(streamed_text),
{
    let mut events: Vec<Event> = Vec::new();
    events.push(handler::refusal(text, code));
    proof {
        assert(handler::events_view(events@) == seq![events@[0]@]);
    }
    conclude(&mut events, streamed_text);
    events
}

/// Decides what to do about a `synthesize` event: resolves the requested voice
/// to a model, and whether the speech is delivered incrementally.
pub fn handle_synthesize(
    runtime: &ModelRuntime,
    voice_map: &VoiceMap,
    data: SynthesizeData,
    streamed_text: bool,
) -> (r: SynthesizePlan)
    ensures
        r@ == synthesize_plan(
            runtime@,
            *voice_map,
            data.text@,
            event::opt_voice(data.voice),
            streamed_text,
        ),
{
    match handler::resolve_voice(voice_map, &data) {
        VoiceResolution::NotFound(name) => {
            let mut message = String::from_str("Unknown voice: ");
            message.append(name.as_str());
            SynthesizePlan::Refuse(
                refuse(message.as_str(), Some("voice-not-found"), streamed_text),
            )
        },
        VoiceResolution::NoModel => SynthesizePlan::Refuse(
            refuse("No TTS model loaded", None, streamed_text),
        ),
        VoiceResolution::Found { model_name, voice_name } => {
            match runtime.tts_handle(model_name.as_str()) {
                None => {
                    let mut message = String::from_str("TTS model '");
                    message.append(model_name.as_str());
                    message.append("' unavailable");
                    SynthesizePlan::Refuse(refuse(message.as_str(), None, streamed_text))
                },
                Some(handle) => {
                    let language = match &data.voice {
                        Some(voice) => match &voice.language {
                            Some(language) => Some(language.as_str()),
                            None => None,
                        },
                        None => None,
                    };
                    let language = model_language(handle.model_type_name(), language);
                    let audio_info = handle.audio_info();
                    SynthesizePlan::Generate {
                        model_name,
                        params: SynthesizeParams {
                            text: data.text,
                            language,
                            voice_name,
                            audio_info,
                        },
                        streaming: runtime.streaming_enabled(),
                    }
                },
            }
        },
    }
}

/// A request that names a voice is spoken by the first model, of those that are
/// listed and loaded, that has a voice of that name, and by that voice.
pub proof fn law_named_voice_spoken(
    runtime: RuntimeView,
    map: VoiceMap,
    names: Seq<Seq<char>>,
    request: SynthesizeData,
    streamed_text: bool,
    plan: SynthesizePlan,
    m: int,
)
    requires
        map.maps(names, runtime),
        plan@ == synthesize_plan(
            runtime,
            map,
            request.text@,
            event::opt_voice(request.voice),
            streamed_text,
        ),
        request.voice is Some,
        request.voice->0.name is Some,
        0 <= m < names.len(),
        handler::offers_voice(runtime.tts, names[m], request.voice->0.name->0@),
        forall|k: int|
            0 <= k < m ==> !handler::offers_voice(
                runtime.tts,
                #[trigger] names[k],
                request.voice->0.name->0@,
            ),
    ensures
        plan matches SynthesizePlan::Generate { model_name, params, streaming } && model_name@
            == names[m] && params.text@ == request.text@ && (params.voice_name matches Some(voice)
            && voice@ == request.voice->0.name->0@) && streaming == runtime.streaming,
{
    let voice = request.voice->0.name->0@;
    handler::law_every_voice_found(map, names, runtime, voice);
}

/// A request that gives a language and no name is spoken by the first model, of
/// those that are listed and loaded, that has a voice for the language, and by
/// the first such voice of it.
pub proof fn law_language_spoken(
    runtime: RuntimeView,
    map: VoiceMap,
    names: Seq<Seq<char>>,
    request: SynthesizeData,
    streamed_text: bool,
    plan: SynthesizePlan,
    m: int,
    j: int,
)
    requires
        map.maps(names, runtime),
        plan@ == synthesize_plan(
            runtime,
            map,
            request.text@,
            event::opt_voice(request.voice),
            streamed_text,
        ),
        request.voice is Some,
        request.voice->0.name is None,
        request.voice->0.language is Some,
        0 <= m < names.len(),
        table::lookup(runtime.tts, names[m]) is Some,
        handler::first_speaker(
            table::lookup(runtime.tts, names[m])->0.voices,
            j,
            handler::base_subtag(request.voice->0.language->0@),
        ),
        forall|k: int|
            0 <= k < m ==> !handler::offers_language(
                runtime.tts,
                #[trigger] names[k],
                handler::base_subtag(request.voice->0.language->0@),
            ),
    ensures
        plan matches SynthesizePlan::Generate { model_name, params, streaming } && model_name@
            == names[m] && params.text@ == request.text@ && (params.voice_name matches Some(voice)
            && voice@ == table::lookup(runtime.tts, names[m])->0.voices[j].name) && streaming
            == runtime.streaming,
{
    let base = handler::base_subtag(request.voice->0.language->0@);
    let voices = table::lookup(runtime.tts, names[m])->0.voices;
    handler::law_language_found(map, names, runtime, base);
    assert(handler::speaks(voices[j], base));
    assert(handler::offers_language(runtime.tts, names[m], base));
    let (model, voice) = map.language_voice(base)->0;
    let f = choose|f: int|
        0 <= f < names.len() && (#[trigger] names[f]) == model && handler::first_offer(
            runtime.tts,
            names[f],
            voice,
            base,
        ) && forall|k: int|
            0 <= k < f ==> !handler::offers_language(runtime.tts, #[trigger] names[k], base);
    let offered = table::lookup(runtime.tts, names[f])->0.voices;
    let i = choose|i: int|
        #[trigger] handler::first_speaker(offered, i, base) && offered[i].name == voice;
    assert(handler::speaks(offered[i], base));
    assert(handler::offers_language(runtime.tts, names[f], base));
    assert(f == m);
    assert(i == j);
}

/// A request for a voice that no model has, of those that are listed and loaded,
/// is answered with an `error` that names the voice.
pub proof fn law_unknown_voice_refused(
    runtime: RuntimeView,
    map: VoiceMap,
    names: Seq<Seq<char>>,
    request: SynthesizeData,
    streamed_text: bool,
    plan: SynthesizePlan,
)
    requires
        map.maps(names, runtime),
        plan@ == synthesize_plan(
            runtime,
            map,
            request.text@,
            event::opt_voice(request.voice),
            streamed_text,
        ),
        request.voice is Some,
        request.voice->0.name is Some,
        forall|k: int|
            0 <= k < names.len() ==> !handler::offers_voice(
                runtime.tts,
                #[trigger] names[k],
                request.voice->0.name->0@,
            ),
    ensures
        plan matches SynthesizePlan::Refuse(events) && events@.len() == (if streamed_text {
            2int
        } else {
            1int
        }) && (events@[0] matches Event::Error(d) && d.text@ == "Unknown voice: "@
            + request.voice->0.name->0@ && (d.code matches Some(code) && code@
            == "voice-not-found"@)) && (streamed_text ==> events@[1] is SynthesizeStopped),
{
    let voice = request.voice->0.name->0@;
    handler::law_every_voice_found(map, names, runtime, voice);
    let events = plan->Refuse_0;
    let view = handler::events_view(events@);
    assert(view.len() == events@.len());
    assert(view[0] == events@[0]@);
    if streamed_text {
        assert(view[1] == events@[1]@);
    }
}

/// A request that gives neither a name nor a language that a voice speaks goes to
/// the model that was loaded first, for its own voice; without any model it is
/// answered with an `error`.
pub proof fn law_default_spoken(
    runtime: RuntimeView,
    map: VoiceMap,
    names: Seq<Seq<char>>,
    request: SynthesizeData,
    streamed_text: bool,
    plan: SynthesizePlan,
)
    requires
        map.maps(names, runtime),
        plan@ == synthesize_plan(
            runtime,
            map,
            request.text@,
            event::opt_voice(request.voice),
            streamed_text,
        ),
        request.voice matches Some(v) ==> v.name is None && (v.language matches Some(language)
            ==> forall|k: int|
            0 <= k < names.len() ==> !handler::offers_language(
                runtime.tts,
                #[trigger] names[k],
                handler::base_subtag(language@),
            )),
    ensures
        match plan {
            SynthesizePlan::Generate { model_name, params, streaming } => runtime.tts.len() > 0
                && model_name@ == runtime.tts[0].0 && params.text@ == request.text@
                && params.voice_name is None && params.audio_info == runtime.tts[0].1.audio_info
                && streaming == runtime.streaming,
            SynthesizePlan::Refuse(events) => runtime.tts.len() == 0 && events@.len() == (
            if streamed_text {
                2int
            } else {
                1int
            }) && (events@[0] matches Event::Error(d) && d.text@ == "No TTS model loaded"@
                && d.code is None) && (streamed_text ==> events@[1] is SynthesizeStopped),
        },
{
    if let Some(v) = request.voice {
        if let Some(language) = v.language {
            handler::law_language_found(map, names, runtime, handler::base_subtag(language@));
        }
    }
    if runtime.tts.len() > 0 {
        table::lemma_index_is(runtime.tts, runtime.tts[0].0, 0);
    } else {
        let events = plan->Refuse_0;
        let view = handler::events_view(events@);
        assert(view.len() == events@.len());
        assert(view[0] == events@[0]@);
        if streamed_text {
            assert(view[1] == events@[1]@);
        }
    }
}

/// Speech is generated in the audio format of the model that generates it, and
/// in the language that was asked for, the way that model names it.
pub proof fn law_generated_as_asked(
    runtime: RuntimeView,
    map: VoiceMap,
    request: SynthesizeData,
    streamed_text: bool,
    plan: SynthesizePlan,
)
    requires
        plan@ == synthesize_plan(
            runtime,
            map,
            request.text@,
            event::opt_voice(request.voice),
            streamed_text,
        ),
        plan is Generate,
    ensures
        table::lookup(runtime.tts, plan->model_name@) matches Some(handle)
            && plan->params.audio_info == handle.audio_info && (match request.voice {
            None => plan->params.language@ == "auto"@,
            Some(v) => match v.language {
                None => plan->params.language@ == "auto"@,
                Some(language) => plan->params.language@ == (if handle.model_type_name
                    == "qwen3_tts"@ {
                    language_name(handler::base_subtag(language@))
                } else {
                    handler::base_subtag(language@)
                }),
            },
        }),
{
}

/// What the text that follows a `synthesize-start` event comes to.
#[derive(Debug, Clone)]
pub enum TextStep {
    /// Wait for the next event.
    More,
    /// Answer with this event; the exchange is over.
    Refuse(Event),
    /// The text is complete: handle this request.
    Ready(SynthesizeData),
}

/// The content of a [`TextStep`].
pub enum TextStepView {
    More,
    Refuse(EventView),
    Ready { text: Seq<char>, voice: Option<VoiceView> },
}

impl View for TextStep {
    type V = TextStepView;

    open spec fn view(&self) -> TextStepView {
        match *self {
            TextStep::More => TextStepView::More,
            TextStep::Refuse(e) => TextStepView::Refuse(e@),
            TextStep::Ready(d) => TextStepView::Ready {
                text: d.text@,
                voice: event::opt_voice(d.voice),
            },
        }
    }
}

/// The voice specification that a `synthesize-start` event comes to. The
/// voice's own language is the more specific choice.
pub open spec fn folded_voice(language: Option<Seq<char>>, voice: Option<VoiceView>) -> Option<
    VoiceView,
> {
    match voice {
        Some(v) => Some(
            VoiceView {
                language: if v.language is None {
                    language
                } else {
                    v.language
                },
                ..v
            },
        ),
        None => match language {
            Some(language) => Some(
                VoiceView { name: None, language: Some(language), speaker: None },
            ),
            None => None,
        },
    }
}

/// The text collected once `event` has come.
pub open spec fn collected_text(text: Seq<char>, event: EventView) -> Seq<char> {
    match event {
        EventView::SynthesizeChunk { text: more } => text + more,
        _ => text,
    }
}

/// What to do once `event` has come: a one-shot `synthesize` event, which some
/// clients send along for older servers, is passed over.
pub open spec fn text_step(
    language: Option<Seq<char>>,
    voice: Option<VoiceView>,
    text: Seq<char>,
    event: EventView,
) -> TextStepView {
    match event {
        EventView::SynthesizeChunk { .. } => TextStepView::More,
        EventView::Synthesize { .. } => TextStepView::More,
        EventView::SynthesizeStop => TextStepView::Ready {
            text,
            voice: folded_voice(language, voice),
        },
        _ => TextStepView::Refuse(
            handler::error_event(
                "Expected synthesize-chunk or synthesize-stop during streamed synthesize"@,
                None,
            ),
        ),
    }
}

/// The text of a `synthesize-start` exchange as far as it has come.
#[derive(Debug, Clone)]
pub struct TextCollector {
    /// The event that began the exchange.
    pub start: SynthesizeStartData,
    /// The text so far.
    pub text: String,
}

impl TextCollector {
    /// Begins an exchange.
    pub fn new(start: SynthesizeStartData) -> (r: Self)
        ensures
            r.start == start,
            r.text@ == Seq::<char>::empty(),
    {
        TextCollector { start, text: String::new() }
    }

    /// The voice specification that the exchange's first event comes to.
    fn voice(&self) -> (r: Option<SynthesizeVoice>)
        ensures
            event::opt_voice(r) == folded_voice(
                text::opt_text(self.start.language),
                event::opt_voice(self.start.voice),
            ),
    {
        match &self.start.voice {
            Some(voice) => {
                let language = match &voice.language {
                    Some(language) => Some(language.clone()),
                    None => text::copy_opt(&self.start.language),
                };
                Some(
                    SynthesizeVoice {
                        name: text::copy_opt(&voice.name),
                        language,
                        speaker: text::copy_opt(&voice.speaker),
                    },
                )
            },
            None => match &self.start.language {
                Some(language) => {
                    let mut voice = SynthesizeVoice::new();
                    voice.language = Some(language.clone());
                    Some(voice)
                },
                None => None,
            },
        }
    }

    /// Takes the next event of the exchange.
    pub fn step(&mut self, event: &Event) -> (r: TextStep)
        ensures
            final(self).start == old(self).start,
            final(self).text@ == collected_text(old(self).text@, event@),
            r@ == text_step(
                text::opt_text(old(self).start.language),
                event::opt_voice(old(self).start.voice),
                old(self).text@,
                event@,
            ),
            event matches Event::SynthesizeChunk(chunk) ==> final(self).text@ == old(self).text@
                + chunk.text@ && r is More,
            !(event is SynthesizeChunk) ==> final(self).text@ == old(self).text@,
            event is Synthesize ==> r is More,
            event is SynthesizeStop ==> (r matches TextStep::Ready(d) && d.text@ == old(self).text@
                && (match old(self).start.voice {
                None => match old(self).start.language {
                    None => d.voice is None,
                    Some(language) => d.voice matches Some(v) && v.name is None && v.speaker is None
                        && text::opt_text(v.language) == Some(language@),
                },
                Some(asked) => d.voice matches Some(v) && text::opt_text(v.name) == text::opt_text(
                    asked.name,
                ) && text::opt_text(v.speaker) == text::opt_text(asked.speaker) && text::opt_text(
                    v.language,
                ) == text::opt_text(
                    if asked.language is Some {
                        asked.language
                    } else {
                        old(self).start.language
                    },
                ),
            })),
            !(event is SynthesizeChunk) && !(event is Synthesize) && !(event is SynthesizeStop)
                ==> (r matches TextStep::Refuse(Event::Error(d)) && d.text@
                == "Expected synthesize-chunk or synthesize-stop during streamed synthesize"@
                && d.code is None),
    {
        match event {
            Event::SynthesizeChunk(chunk) => {
                self.text.append(chunk.text.as_str());
                TextStep::More
            },
            Event::Synthesize(_) => TextStep::More,
            Event::SynthesizeStop => {
                let data = SynthesizeData::new(self.text.as_str());
                match self.voice() {
                    Some(voice) => TextStep::Ready(data.with_voice(voice)),
                    None => TextStep::Ready(data),
                }
            },
            _ => TextStep::Refuse(
                handler::refusal(
                    "Expected synthesize-chunk or synthesize-stop during streamed synthesize",
                    None,
                ),
            ),
        }
    }
}

/// The text collected once `events` have come.
pub open spec fn text_after(events: Seq<EventView>) -> Seq<char>
    decreases events.len(),
{
    if events.len() == 0 {
        Seq::empty()
    } else {
        collected_text(text_after(events.drop_last()), events.last())
    }
}

/// The text of an exchange is what its chunks hold, one after the other; where
/// the client cut it makes no difference.
pub proof fn law_streamed_text(chunks: Seq<Seq<char>>)
    ensures
        text_after(chunks.map_values(|t: Seq<char>| EventView::SynthesizeChunk { text: t }))
            == chunks.flatten(),
    decreases chunks.len(),
{
    let events = chunks.map_values(|t: Seq<char>| EventView::SynthesizeChunk { text: t });
    if chunks.len() == 0 {
        assert(chunks.flatten() == Seq::<char>::empty());
    } else {
        let before = chunks.drop_last();
        law_streamed_text(before);
        assert(events.drop_last() == before.map_values(
            |t: Seq<char>| EventView::SynthesizeChunk { text: t },
        ));
        before.lemma_flatten_push(chunks.last());
        assert(before.push(chunks.last()) == chunks);
    }
}

/// What a model's generation of speech came to.
#[derive(Debug, Clone, PartialEq, Eq)]
pub enum SpeechItem {
    /// The request did not reach the model.
    Unavailable(String),
    /// The model's thread ended without an answer.
    NoResponse,
    /// Audio, encoded for the client.
    Chunk(Vec<u8>),
    /// Audio that could not be encoded.
    EncodeFailed(String),
    /// Generation failed.
    Failed(String),
    /// Generation is complete.
    End,
}

/// The content of a [`SpeechItem`].
pub enum SpeechItemView {
    Unavailable(Seq<char>),
    NoResponse,
    Chunk(Seq<u8>),
    EncodeFailed(Seq<char>),
    Failed(Seq<char>),
    End,
}

impl View for SpeechItem {
    type V = SpeechItemView;

    open spec fn view(&self) -> SpeechItemView {
        match *self {
            SpeechItem::Unavailable(e) => SpeechItemView::Unavailable(e@),
            SpeechItem::NoResponse => SpeechItemView::NoResponse,
            SpeechItem::Chunk(audio) => SpeechItemView::Chunk(audio@),
            SpeechItem::EncodeFailed(e) => SpeechItemView::EncodeFailed(e@),
            SpeechItem::Failed(e) => SpeechItemView::Failed(e@),
            SpeechItem::End => SpeechItemView::End,
        }
    }
}

/// Whether an item is the last of its answer.
pub open spec fn is_last(item: SpeechItemView) -> bool {
    !(item is Chunk)
}

/// Tells whether an item is the last of its answer.
pub fn ends_speech(item: &SpeechItem) -> (r: bool)
    ensures
        r == is_last(item@),
        r <==> !(item is Chunk),
{
    match item {
        SpeechItem::Chunk(_) => false,
        _ => true,
    }
}

/// The `error` event for an item, if it reports one.
pub open spec fn item_error(item: SpeechItemView) -> Option<EventView> {
    match item {
        SpeechItemView::Unavailable(e) => Some(
            handler::error_event("TTS engine unavailable: "@ + e, None),
        ),
        SpeechItemView::NoResponse => Some(
            handler::error_event("TTS engine did not respond"@, None),
        ),
        SpeechItemView::EncodeFailed(e) => Some(
            handler::error_event("Audio encoding failed: "@ + e, None),
        ),
        SpeechItemView::Failed(e) => Some(handler::error_event("TTS generation failed: "@ + e, None)),
        _ => None,
    }
}

/// The events for an item, where `started` says whether `audio-start` has been
/// sent.
///
/// `audio-start` waits for the first audio, so that a failure before it is a
/// plain `error`. A failure after it closes the audio with `audio-stop` first.
pub open spec fn item_events(info: AudioInfo, started: bool, item: SpeechItemView) -> Seq<
    EventView,
> {
    let opening = if started {
        Seq::empty()
    } else {
        seq![start_event(info)]
    };
    match item {
        SpeechItemView::Chunk(audio) => opening + seq![chunk_event(info, audio)],
        SpeechItemView::End => opening + seq![stop_event()],
        SpeechItemView::EncodeFailed(_) => opening + seq![stop_event(), item_error(item)->0],
        _ => if started {
            seq![stop_event(), item_error(item)->0]
        } else {
            seq![item_error(item)->0]
        },
    }
}

/// The answer to a request for speech, as far as the items go.
pub open spec fn speech_events(info: AudioInfo, items: Seq<SpeechItemView>) -> Seq<EventView>
    decreases items.len(),
{
    if items.len() == 0 {
        Seq::empty()
    } else {
        speech_events(info, items.drop_last()) + item_events(
            info,
            items.len() > 1,
            items.last(),
        )
    }
}

/// The state of an incremental answer to a request for speech.
#[derive(Debug, Clone)]
pub struct SpeechReply {
    /// Format of the audio.
    pub audio_info: AudioInfo,
    /// Whether `audio-start` has been sent.
    pub started: bool,
    /// Whether the text was streamed.
    pub streamed_text: bool,
}

impl SpeechReply {
    /// Begins an answer.
    pub fn new(audio_info: AudioInfo, streamed_text: bool) -> (r: Self)
        ensures
            r == (SpeechReply { audio_info, started: false, streamed_text }),
    {
        SpeechReply { audio_info, started: false, streamed_text }
    }

    /// Gives the events for the next item.
    pub fn step(&mut self, item: SpeechItem) -> (r: Vec<Event>)
        ensures
            *final(self) == (SpeechReply { started: true, ..*old(self) }),
            handler::events_view(r@) == item_events(
                old(self).audio_info,
                old(self).started,
                item@,
            ) + (if is_last(item@) {
                conclusion(old(self).streamed_text)
            } else {
                Seq::empty()
            }),
    {
        let started = self.started;
        self.started = true;
        item_reply(self.audio_info, started, item, self.streamed_text)
    }
}

/// Gives the `error` event for an item that reports an error.
fn error_of_item(item: &SpeechItem) -> (r: Event)
    requires
        item_error(item@) is Some,
    ensures
        r@ == item_error(item@)->0,
{
    let mut message = String::new();
    match item {
        SpeechItem::Unavailable(e) => {
            message.append("TTS engine unavailable: ");
            message.append(e.as_str());
        },
        SpeechItem::EncodeFailed(e) => {
            message.append("Audio encoding failed: ");
            message.append(e.as_str());
        },
        SpeechItem::Failed(e) => {
            message.append("TTS generation failed: ");
            message.append(e.as_str());
        },
        _ => {
            message.append("TTS engine did not respond");
        },
    }
    let r = handler::refusal(message.as_str(), None);
    proof {
        assert(r@->Error_text == item_error(item@)->0->Error_text);
    }
    r
}

/// Gives the events for an item.
fn item_reply(audio_info: AudioInfo, started: bool, item: SpeechItem, streamed_text: bool) -> (r:
    Vec<Event>)
    ensures
        handler::events_view(r@) == item_events(audio_info, started, item@) + (if is_last(
            item@,
        ) {
            conclusion(streamed_text)
        } else {
            Seq::empty()
        }),
{
    let ghost view = item@;
    let mut events: Vec<Event> = Vec::new();
    match item {
        SpeechItem::Chunk(audio) => {
            if !started {
                events.push(audio_start_event(audio_info));
            }
            events.push(audio_chunk_event(audio_info, audio));
            proof {
                assert(handler::events_view(events@) == item_events(audio_info, started, view));
                assert(handler::events_view(events@) == item_events(audio_info, started, view)
                    + Seq::<EventView>::empty());
            }
            return events;
        },
        SpeechItem::End => {
            if !started {
                events.push(audio_start_event(audio_info));
            }
            events.push(audio_stop_event());
        },
        SpeechItem::EncodeFailed(_) => {
            if !started {
                events.push(audio_start_event(audio_info));
            }
            events.push(audio_stop_event());
            events.push(error_of_item(&item));
        },
        _ => {
            if started {
                events.push(audio_stop_event());
            }
            events.push(error_of_item(&item));
        },
    }
    proof {
        assert(handler::events_view(events@) == item_events(audio_info, started, view));
    }
    conclude(&mut events, streamed_text);
    events
}

/// The answer to a request for speech that is delivered all at once.
pub open spec fn blob_events(info: AudioInfo, item: SpeechItemView) -> Seq<EventView> {
    match item {
        SpeechItemView::Chunk(audio) => seq![
            start_event(info),
            chunk_event(info, audio),
            stop_event(),
        ],
        _ => item_events(info, false, item),
    }
}

/// Answers a request for speech that is delivered all at once.
pub fn handle_synthesize_blob(audio_info: AudioInfo, item: SpeechItem, streamed_text: bool) -> (r:
    Vec<Event>)
    ensures
        handler::events_view(r@) == blob_events(audio_info, item@) + conclusion(streamed_text),
{
    let ghost view = item@;
    match item {
        SpeechItem::Chunk(audio) => {
            let mut events: Vec<Event> = Vec::new();
            events.push(audio_start_event(audio_info));
            events.push(audio_chunk_event(audio_info, audio));
            events.push(audio_stop_event());
            proof {
                assert(handler::events_view(events@) == blob_events(audio_info, view));
            }
            conclude(&mut events, streamed_text);
            events
        },
        _ => item_reply(audio_info, false, item, streamed_text),
    }
}

/// Audio is passed on as it is, in the model's format; before the first of it
/// stands `audio-start`, and nothing else.
pub proof fn law_audio_passed_on(info: AudioInfo, started: bool, audio: Seq<u8>)
    ensures
        ({
            let events = item_events(info, started, SpeechItemView::Chunk(audio));
            let opening = EventView::AudioStart(
                AudioStartData {
                    rate: info.sample_rate,
                    width: (info.bits_per_sample / 8) as u16,
                    channels: info.channels,
                    timestamp: None,
                },
            );
            let chunk = EventView::AudioChunk {
                data: AudioChunkData {
                    rate: info.sample_rate,
                    width: (info.bits_per_sample / 8) as u16,
                    channels: info.channels,
                    timestamp: None,
                },
                audio,
            };
            &&& started ==> events == seq![chunk]
            &&& !started ==> events == seq![opening, chunk]
            &&& blob_events(info, SpeechItemView::Chunk(audio)) == seq![
                opening,
                chunk,
                EventView::AudioStop(AudioStopData { timestamp: None }),
            ]
        }),
{
}

/// How an answer ends: with `audio-stop`, and with an `error` that tells what
/// happened if something did; `audio-stop` is left out only where nothing was
/// started.
pub proof fn law_end_told(info: AudioInfo, started: bool, item: SpeechItemView)
    requires
        !(item is Chunk),
    ensures
        ({
            let events = item_events(info, started, item);
            let opening = EventView::AudioStart(
                AudioStartData {
                    rate: info.sample_rate,
                    width: (info.bits_per_sample / 8) as u16,
                    channels: info.channels,
                    timestamp: None,
                },
            );
            let stop = EventView::AudioStop(AudioStopData { timestamp: None });
            &&& item is End ==> events == (if started {
                seq![stop]
            } else {
                seq![opening, stop]
            })
            &&& item matches SpeechItemView::EncodeFailed(e) ==> ({
                let error = EventView::Error { text: "Audio encoding failed: "@ + e, code: None };
                events == (if started {
                    seq![stop, error]
                } else {
                    seq![opening, stop, error]
                })
            })
            &&& item matches SpeechItemView::Unavailable(e) ==> ({
                let error = EventView::Error { text: "TTS engine unavailable: "@ + e, code: None };
                events == (if started {
                    seq![stop, error]
                } else {
                    seq![error]
                })
            })
            &&& item matches SpeechItemView::Failed(e) ==> ({
                let error = EventView::Error { text: "TTS generation failed: "@ + e, code: None };
                events == (if started {
                    seq![stop, error]
                } else {
                    seq![error]
                })
            })
            &&& item is NoResponse ==> ({
                let error = EventView::Error { text: "TTS engine did not respond"@, code: None };
                events == (if started {
                    seq![stop, error]
                } else {
                    seq![error]
                })
            })
            &&& blob_events(info, item) == item_events(info, false, item)
        }),
{
    let opening = if started {
        Seq::empty()
    } else {
        seq![start_event(info)]
    };
    assert(opening + seq![stop_event()] =~= (if started {
        seq![stop_event()]
    } else {
        seq![start_event(info), stop_event()]
    }));
    if item is EncodeFailed {
        let error = item_error(item)->0;
        assert(opening + seq![stop_event(), error] =~= (if started {
            seq![stop_event(), error]
        } else {
            seq![start_event(info), stop_event(), error]
        }));
    }
}

/// An answer to text that was streamed ends with `synthesize-stopped`, once, and
/// no other answer has it.
pub proof fn law_streamed_text_concluded(info: AudioInfo, started: bool, item: SpeechItemView)
    ensures
        conclusion(true) == seq![EventView::SynthesizeStopped],
        conclusion(false) == Seq::<EventView>::empty(),
        !item_events(info, started, item).contains(EventView::SynthesizeStopped),
        !blob_events(info, item).contains(EventView::SynthesizeStopped),
{
    if item is Chunk {
        law_audio_passed_on(info, started, item->Chunk_0);
    } else {
        law_end_told(info, started, item);
        law_end_told(info, false, item);
    }
}

/// The answer to a request for speech is bracketed: `audio-start`, the audio
/// in order, `audio-stop`, and an `error` after that if generation failed; a
/// failure before any audio is an `error` alone.
pub proof fn law_speech_brackets(
    info: AudioInfo,
    chunks: Seq<Seq<u8>>,
    last: SpeechItemView,
)
    requires
        is_last(last),
    ensures
        ({
            let items = chunks.map_values(|a: Seq<u8>| SpeechItemView::Chunk(a)).push(last);
            let tail = if item_error(last) is Some {
                seq![item_error(last)->0]
            } else {
                Seq::empty()
            };
            speech_events(info, items) == (if chunks.len() == 0 && !(last is End)
                && !(last is EncodeFailed) {
                tail
            } else {
                seq![start_event(info)] + chunks.map_values(
                    |a: Seq<u8>| chunk_event(info, a),
                ) + seq![stop_event()] + tail
            })
        }),
{
    let items = chunks.map_values(|a: Seq<u8>| SpeechItemView::Chunk(a));
    assert(items.push(last).drop_last() == items);
    let tail = if item_error(last) is Some {
        seq![item_error(last)->0]
    } else {
        Seq::empty()
    };
    let audio = chunks.map_values(|a: Seq<u8>| chunk_event(info, a));
    if chunks.len() == 0 {
        assert(speech_events(info, items) == Seq::<EventView>::empty());
        if !(last is End) && !(last is EncodeFailed) {
            assert(speech_events(info, items.push(last)) == tail);
        } else {
            assert(speech_events(info, items.push(last)) == seq![start_event(info)] + audio + seq![
                stop_event(),
            ] + tail);
        }
    } else {
        lemma_speech_chunks(info, chunks);
        assert(item_events(info, true, last) == seq![stop_event()] + tail);
        assert(speech_events(info, items.push(last)) == seq![start_event(info)] + audio + seq![
            stop_event(),
        ] + tail);
    }
}

/// The events for audio alone.
proof fn lemma_speech_chunks(info: AudioInfo, chunks: Seq<Seq<u8>>)
    requires
        chunks.len() > 0,
    ensures
        speech_events(info, chunks.map_values(|a: Seq<u8>| SpeechItemView::Chunk(a))) == seq![
            start_event(info),
        ] + chunks.map_values(|a: Seq<u8>| chunk_event(info, a)),
    decreases chunks.len(),
{
    let items = chunks.map_values(|a: Seq<u8>| SpeechItemView::Chunk(a));
    let audio = chunks.map_values(|a: Seq<u8>| chunk_event(info, a));
    let before = chunks.drop_last();
    assert(items.drop_last() == before.map_values(|a: Seq<u8>| SpeechItemView::Chunk(a)));
    if before.len() > 0 {
        lemma_speech_chunks(info, before);
        assert(audio == before.map_values(|a: Seq<u8>| chunk_event(info, a)).push(
            chunk_event(info, chunks.last()),
        ));
        assert(item_events(info, true, items.last()) == seq![chunk_event(info, chunks.last())]);
    } else {
        assert(speech_events(info, items.drop_last()) == Seq::<EventView>::empty());
        assert(item_events(info, false, items.last()) == seq![
            start_event(info),
            chunk_event(info, chunks[0]),
        ]);
        assert(audio == seq![chunk_event(info, chunks[0])]);
    }
    assert(speech_events(info, items) == seq![start_event(info)] + audio);
}

/// A request for which a model is found that is not loaded is answered with an
/// `error` that names the model.
pub proof fn law_unloaded_model_refused(
    runtime: RuntimeView,
    map: VoiceMap,
    request: SynthesizeData,
    streamed_text: bool,
    plan: SynthesizePlan,
    resolution: VoiceResolution,
)
    requires
        resolution@ == handler::voice_resolution(map, event::opt_voice(request.voice)),
        resolution is Found,
        table::lookup(runtime.tts, resolution->model_name@) is None,
        plan@ == synthesize_plan(
            runtime,
            map,
            request.text@,
            event::opt_voice(request.voice),
            streamed_text,
        ),
    ensures
        plan matches SynthesizePlan::Refuse(events) && events@.len() == (if streamed_text {
            2int
        } else {
            1int
        }) && (events@[0] matches Event::Error(d) && d.text@ == "TTS model '"@
            + resolution->model_name@ + "' unavailable"@ && d.code is None) && (streamed_text
            ==> events@[1] is SynthesizeStopped),
{
    let events = plan->Refuse_0;
    let view = handler::events_view(events@);
    assert(view.len() == events@.len());
    assert(view[0] == events@[0]@);
    if streamed_text {
        assert(view[1] == events@[1]@);
    }
}

} // verus!
