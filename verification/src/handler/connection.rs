//! A connection, event by event.

use vstd::prelude::*;
use crate::engine::runtime::{AudioInfo, ModelRuntime, RuntimeView};
use crate::event;
use crate::event::{
    AudioChunkData, AudioStartData, AudioStopData, Event, EventView, SynthesizeData, VoiceView,
};
use crate::handler;
use crate::handler::info;
use crate::handler::speech;
use crate::handler::speech::{
    SynthesizeParams, SynthesizePlan, SynthesizePlanView, TextCollector, TextStep, TextStepView,
};
use crate::handler::transcription;
use crate::handler::transcription::{
    AudioCollector, AudioState, AudioStateView, TranscribePlan, TranscribePlanView, VadDecision,
};
use crate::handler::{AsrModelMap, Request, RequestView, VoiceMap};
use crate::json;
use crate::table;
use crate::text;

verus! {

/// The state of a connection.
#[derive(Debug, Clone)]
pub enum Connection {
    /// Waiting for a request.
    Idle,
    /// Collecting the text of a request for speech.
    Text(TextCollector),
    /// Collecting the audio of a request for a transcript, for the named
    /// model.
    Audio { collector: AudioCollector, model_name: String, language: Option<String> },
}

/// The content of a [`Connection`].
pub enum ConnectionView {
    Idle,
    Text { language: Option<Seq<char>>, voice: Option<VoiceView>, text: Seq<char> },
    Audio {
        expected_rate: u32,
        state: AudioStateView,
        model_name: Seq<char>,
        language: Option<Seq<char>>,
    },
}

impl View for Connection {
    type V = ConnectionView;

    open spec fn view(&self) -> ConnectionView {
        match *self {
            Connection::Idle => ConnectionView::Idle,
            Connection::Text(collector) => ConnectionView::Text {
                language: text::opt_text(collector.start.language),
                voice: event::opt_voice(collector.start.voice),
                text: collector.text@,
            },
            Connection::Audio { collector, model_name, language } => ConnectionView::Audio {
                expected_rate: collector.expected_rate,
                state: collector.state@,
                model_name: model_name@,
                language: text::opt_text(language),
            },
        }
    }
}

/// What to do about an event.
#[derive(Debug, Clone)]
pub enum Action {
    /// Wait for the next event.
    Wait,
    /// Answer with these events.
    Reply(Vec<Event>),
    /// Generate speech with the named model, and deliver it incrementally or
    /// all at once.
    Speak { model_name: String, params: SynthesizeParams, streaming: bool, streamed_text: bool },
    /// Transcribe audio with the named model, filtered by voice activity
    /// detection or not, and deliver the transcript incrementally or all at
    /// once.
    Transcribe {
        model_name: String,
        audio: Vec<u8>,
        language: Option<String>,
        vad: VadDecision,
        streaming: bool,
    },
}

/// The content of an [`Action`].
pub enum ActionView {
    Wait,
    Reply(Seq<EventView>),
    Speak {
        model_name: Seq<char>,
        text: Seq<char>,
        language: Seq<char>,
        voice_name: Option<Seq<char>>,
        audio_info: AudioInfo,
        streaming: bool,
        streamed_text: bool,
    },
    Transcribe {
        model_name: Seq<char>,
        audio: Seq<u8>,
        language: Option<Seq<char>>,
        vad: VadDecision,
        streaming: bool,
    },
}

impl View for Action {
    type V = ActionView;

    open spec fn view(&self) -> ActionView {
        match *self {
            Action::Wait => ActionView::Wait,
            Action::Reply(events) => ActionView::Reply(handler::events_view(events@)),
            Action::Speak { model_name, params, streaming, streamed_text } => ActionView::Speak {
                model_name: model_name@,
                text: params.text@,
                language: params.language@,
                voice_name: text::opt_text(params.voice_name),
                audio_info: params.audio_info,
                streaming,
                streamed_text,
            },
            Action::Transcribe { model_name, audio, language, vad, streaming } => {
                ActionView::Transcribe {
                    model_name: model_name@,
                    audio: audio@,
                    language: text::opt_text(language),
                    vad,
                    streaming,
                }
            },
        }
    }
}

/// What to do about a complete request for speech.
pub open spec fn speech_action(
    runtime: RuntimeView,
    voice_map: VoiceMap,
    text: Seq<char>,
    voice: Option<VoiceView>,
    streamed_text: bool,
) -> ActionView {
    match speech::synthesize_plan(runtime, voice_map, text, voice, streamed_text) {
        SynthesizePlanView::Refuse(events) => ActionView::Reply(events),
        SynthesizePlanView::Generate {
            model_name,
            text,
            language,
            voice_name,
            audio_info,
            streaming,
        } => ActionView::Speak {
            model_name,
            text,
            language,
            voice_name,
            audio_info,
            streaming,
            streamed_text,
        },
    }
}

/// The answer to a `describe` event.
pub open spec fn info_event(
    runtime: RuntimeView,
    voice_map: VoiceMap,
    asr_map: AsrModelMap,
) -> EventView {
    EventView::Info {
        tts: info::tts_list(voice_map, table::ordered(runtime.tts), runtime.streaming),
        asr: info::asr_list(asr_map, table::ordered(runtime.asr), runtime.streaming, runtime.vad),
        wake: Seq::empty(),
    }
}

/// The state of an idle connection once `event` has come, and what to do.
pub open spec fn idle_step(
    runtime: RuntimeView,
    voice_map: VoiceMap,
    asr_map: AsrModelMap,
    event: EventView,
) -> (ConnectionView, ActionView) {
    match handler::request_of(event) {
        RequestView::Synthesize { text, voice } => (
            ConnectionView::Idle,
            speech_action(runtime, voice_map, text, voice, false),
        ),
        RequestView::StreamedText { language, voice } => (
            ConnectionView::Text { language, voice, text: Seq::empty() },
            ActionView::Wait,
        ),
        RequestView::Transcribe { name, language } => match transcription::transcribe_plan(
            runtime,
            asr_map,
            name,
            language,
        ) {
            TranscribePlanView::Refuse(event) => (
                ConnectionView::Idle,
                ActionView::Reply(seq![event]),
            ),
            TranscribePlanView::Collect { model_name, expected_rate } => (
                ConnectionView::Audio {
                    expected_rate,
                    state: AudioStateView::AwaitingStart,
                    model_name,
                    language,
                },
                ActionView::Wait,
            ),
        },
        RequestView::Describe => (
            ConnectionView::Idle,
            ActionView::Reply(seq![info_event(runtime, voice_map, asr_map)]),
        ),
        RequestView::Reply(event) => (ConnectionView::Idle, ActionView::Reply(seq![event])),
        RequestView::Ignore => (ConnectionView::Idle, ActionView::Wait),
    }
}

/// The state of a connection once `event` has come, and what to do.
pub open spec fn connection_step(
    runtime: RuntimeView,
    voice_map: VoiceMap,
    asr_map: AsrModelMap,
    connection: ConnectionView,
    event: EventView,
) -> (ConnectionView, ActionView) {
    match connection {
        ConnectionView::Idle => idle_step(runtime, voice_map, asr_map, event),
        ConnectionView::Text { language, voice, text } => match speech::text_step(
            language,
            voice,
            text,
            event,
        ) {
            TextStepView::More => (
                ConnectionView::Text {
                    language,
                    voice,
                    text: speech::collected_text(text, event),
                },
                ActionView::Wait,
            ),
            TextStepView::Refuse(event) => (
                ConnectionView::Idle,
                ActionView::Reply(seq![event]),
            ),
            TextStepView::Ready { text, voice } => (
                ConnectionView::Idle,
                speech_action(runtime, voice_map, text, voice, true),
            ),
        },
        ConnectionView::Audio { expected_rate, state, model_name, language } => {
            match transcription::audio_next(expected_rate, state, event) {
                AudioStateView::Refused(event) => (
                    ConnectionView::Idle,
                    ActionView::Reply(seq![event]),
                ),
                AudioStateView::Ready(audio) => (
                    ConnectionView::Idle,
                    ActionView::Transcribe {
                        model_name,
                        audio,
                        language,
                        vad: transcription::vad_decision_of(runtime.vad, expected_rate),
                        streaming: runtime.streaming,
                    },
                ),
                state => (
                    ConnectionView::Audio { expected_rate, state, model_name, language },
                    ActionView::Wait,
                ),
            }
        },
    }
}

/// Answers with a single event.
fn reply(event: Event) -> (r: Action)
    ensures
        r@ == ActionView::Reply(seq![event@]),
{
    let mut events: Vec<Event> = Vec::new();
    events.push(event);
    proof {
        assert(handler::events_view(events@) == seq![event@]);
    }
    Action::Reply(events)
}

/// Decides what to do about a complete request for speech.
fn speak(
    runtime: &ModelRuntime,
    voice_map: &VoiceMap,
    data: SynthesizeData,
    streamed_text: bool,
) -> (r: Action)
    ensures
        r@ == speech_action(
            runtime@,
            *voice_map,
            data.text@,
            event::opt_voice(data.voice),
            streamed_text,
        ),
{
    match speech::handle_synthesize(runtime, voice_map, data, streamed_text) {
        SynthesizePlan::Refuse(events) => Action::Reply(events),
        SynthesizePlan::Generate { model_name, params, streaming } => Action::Speak {
            model_name,
            params,
            streaming,
            streamed_text,
        },
    }
}

impl Connection {
    /// Begins a connection.
    pub fn new() -> (r: Self)
        ensures
            r@ == ConnectionView::Idle,
    {
        Connection::Idle
    }

    /// Takes an event that comes while no exchange is going on.
    fn idle(
        runtime: &ModelRuntime,
        voice_map: &VoiceMap,
        asr_map: &AsrModelMap,
        event: Event,
    ) -> (r: (Self, Action))
        ensures
            (r.0@, r.1@) == idle_step(runtime@, *voice_map, *asr_map, event@),
    {
        match handler::dispatch(event) {
            Request::Synthesize(data) => (
                Connection::Idle,
                speak(runtime, voice_map, data, false),
            ),
            Request::StreamedText(start) => (
                Connection::Text(TextCollector::new(start)),
                Action::Wait,
            ),
            Request::Transcribe(data) => match transcription::handle_transcribe(
                runtime,
                asr_map,
                &data,
            ) {
                TranscribePlan::Refuse(event) => (Connection::Idle, reply(event)),
                TranscribePlan::Collect { model_name, expected_rate } => (
                    Connection::Audio {
                        collector: AudioCollector::new(expected_rate),
                        model_name,
                        language: data.language,
                    },
                    Action::Wait,
                ),
            },
            Request::Describe => {
                let data = info::build_info(runtime, voice_map, asr_map);
                proof {
                    assert(json::items_view(data.wake@) == Seq::<json::JsonView>::empty());
                }
                (Connection::Idle, reply(Event::Info(data)))
            },
            Request::Reply(event) => (Connection::Idle, reply(event)),
            Request::Ignore => (Connection::Idle, Action::Wait),
        }
    }

    /// Takes the next event of the connection, and decides what to do about
    /// it. A request is answered before the next event is read.
    pub fn step(
        self,
        runtime: &ModelRuntime,
        voice_map: &VoiceMap,
        asr_map: &AsrModelMap,
        event: Event,
    ) -> (r: (Self, Action))
        ensures
            (r.0@, r.1@) == connection_step(runtime@, *voice_map, *asr_map, self@, event@),
    {
        match self {
            Connection::Idle => Self::idle(runtime, voice_map, asr_map, event),
            Connection::Text(collector) => {
                let mut collector = collector;
                match collector.step(&event) {
                    TextStep::More => (Connection::Text(collector), Action::Wait),
                    TextStep::Refuse(event) => (Connection::Idle, reply(event)),
                    TextStep::Ready(data) => (
                        Connection::Idle,
                        speak(runtime, voice_map, data, true),
                    ),
                }
            },
            Connection::Audio { collector, model_name, language } => {
                let collector = collector.step(event);
                let expected_rate = collector.expected_rate;
                match collector.state {
                    AudioState::Refused(event) => (Connection::Idle, reply(event)),
                    AudioState::Ready(audio) => (
                        Connection::Idle,
                        Action::Transcribe {
                            model_name,
                            audio,
                            language,
                            vad: transcription::vad_decision(runtime, expected_rate),
                            streaming: runtime.streaming_enabled(),
                        },
                    ),
                    state => (
                        Connection::Audio {
                            collector: AudioCollector { expected_rate, state },
                            model_name,
                            language,
                        },
                        Action::Wait,
                    ),
                }
            },
        }
    }
}

/// The state of a connection once `events` have come, as long as nothing else
/// changes.
pub open spec fn connection_after(
    runtime: RuntimeView,
    voice_map: VoiceMap,
    asr_map: AsrModelMap,
    events: Seq<EventView>,
) -> ConnectionView
    decreases events.len(),
{
    if events.len() == 0 {
        ConnectionView::Idle
    } else {
        connection_step(
            runtime,
            voice_map,
            asr_map,
            connection_after(runtime, voice_map, asr_map, events.drop_last()),
            events.last(),
        ).0
    }
}

/// Whatever is answered, the connection takes the next request after it; and
/// it goes on without an answer only to collect what belongs to a request, or
/// because the event asks for nothing.
pub proof fn law_answered_in_turn(
    runtime: RuntimeView,
    voice_map: VoiceMap,
    asr_map: AsrModelMap,
    connection: ConnectionView,
    event: EventView,
)
    ensures
        ({
            let (after, action) = connection_step(runtime, voice_map, asr_map, connection, event);
            &&& action !is Wait ==> after is Idle
            &&& action is Wait ==> after !is Idle || (connection is Idle && handler::request_of(
                event,
            ) is Ignore)
        }),
{
}

/// Text that is streamed is spoken as a one-shot request for the joined text
/// would be, but for the `synthesize-stopped` event at the end.
pub proof fn law_streamed_like_one_shot(
    runtime: RuntimeView,
    voice_map: VoiceMap,
    asr_map: AsrModelMap,
    language: Option<Seq<char>>,
    voice: Option<VoiceView>,
    chunks: Seq<Seq<char>>,
)
    ensures
        connection_step(
            runtime,
            voice_map,
            asr_map,
            connection_after(
                runtime,
                voice_map,
                asr_map,
                seq![EventView::SynthesizeStart { language, voice }] + chunks.map_values(
                    |t: Seq<char>| EventView::SynthesizeChunk { text: t },
                ),
            ),
            EventView::SynthesizeStop,
        ) == (
            ConnectionView::Idle,
            speech_action(
                runtime,
                voice_map,
                chunks.flatten(),
                speech::folded_voice(language, voice),
                true,
            ),
        ),
{
    lemma_text_collected(runtime, voice_map, asr_map, language, voice, chunks);
}

/// The text collected from chunks is what they hold, one after the other.
proof fn lemma_text_collected(
    runtime: RuntimeView,
    voice_map: VoiceMap,
    asr_map: AsrModelMap,
    language: Option<Seq<char>>,
    voice: Option<VoiceView>,
    chunks: Seq<Seq<char>>,
)
    ensures
        connection_after(
            runtime,
            voice_map,
            asr_map,
            seq![EventView::SynthesizeStart { language, voice }] + chunks.map_values(
                |t: Seq<char>| EventView::SynthesizeChunk { text: t },
            ),
        ) == (ConnectionView::Text { language, voice, text: chunks.flatten() }),
    decreases chunks.len(),
{
    let start = EventView::SynthesizeStart { language, voice };
    let events = seq![start] + chunks.map_values(
        |t: Seq<char>| EventView::SynthesizeChunk { text: t },
    );
    if chunks.len() == 0 {
        assert(events.drop_last() == Seq::<EventView>::empty());
        assert(connection_after(runtime, voice_map, asr_map, events.drop_last())
            == ConnectionView::Idle);
        assert(chunks.flatten() == Seq::<char>::empty());
    } else {
        let before = chunks.drop_last();
        lemma_text_collected(runtime, voice_map, asr_map, language, voice, before);
        assert(events.drop_last() == seq![start] + before.map_values(
            |t: Seq<char>| EventView::SynthesizeChunk { text: t },
        ));
        before.lemma_flatten_push(chunks.last());
        assert(before.push(chunks.last()) == chunks);
    }
}

/// Audio in the format that the model expects, and not more than is accepted,
/// reaches the model as it was sent: the chunks one after the other.
pub proof fn law_audio_comes_through(
    runtime: RuntimeView,
    voice_map: VoiceMap,
    asr_map: AsrModelMap,
    name: Option<Seq<char>>,
    language: Option<Seq<char>>,
    start: AudioStartData,
    chunks: Seq<(AudioChunkData, Seq<u8>)>,
    stop: AudioStopData,
)
    requires
        transcription::transcribe_plan(runtime, asr_map, name, language) is Collect,
        ({
            let rate = transcription::transcribe_plan(runtime, asr_map, name, language)->expected_rate;
            &&& transcription::format_fits(start.rate, start.width, start.channels, rate)
            &&& forall|i: int|
                0 <= i < chunks.len() ==> transcription::format_fits(
                    (#[trigger] chunks[i]).0.rate,
                    chunks[i].0.width,
                    chunks[i].0.channels,
                    rate,
                )
        }),
        chunks.map_values(|c: (AudioChunkData, Seq<u8>)| c.1).flatten().len()
            <= transcription::MAX_TRANSCRIBE_AUDIO_BYTES,
    ensures
        ({
            let plan = transcription::transcribe_plan(runtime, asr_map, name, language);
            connection_step(
                runtime,
                voice_map,
                asr_map,
                connection_after(
                    runtime,
                    voice_map,
                    asr_map,
                    seq![
                        EventView::Transcribe { name, language },
                        EventView::AudioStart(start),
                    ] + chunks.map_values(
                        |c: (AudioChunkData, Seq<u8>)|
                            EventView::AudioChunk { data: c.0, audio: c.1 },
                    ),
                ),
                EventView::AudioStop(stop),
            ) == (
                ConnectionView::Idle,
                ActionView::Transcribe {
                    model_name: plan->model_name,
                    audio: chunks.map_values(|c: (AudioChunkData, Seq<u8>)| c.1).flatten(),
                    language,
                    vad: transcription::vad_decision_of(runtime.vad, plan->expected_rate),
                    streaming: runtime.streaming,
                },
            )
        }),
{
    lemma_audio_collected(runtime, voice_map, asr_map, name, language, start, chunks);
}

/// The audio collected from chunks is what they hold, one after the other.
proof fn lemma_audio_collected(
    runtime: RuntimeView,
    voice_map: VoiceMap,
    asr_map: AsrModelMap,
    name: Option<Seq<char>>,
    language: Option<Seq<char>>,
    start: AudioStartData,
    chunks: Seq<(AudioChunkData, Seq<u8>)>,
)
    requires
        transcription::transcribe_plan(runtime, asr_map, name, language) is Collect,
        ({
            let rate = transcription::transcribe_plan(runtime, asr_map, name, language)->expected_rate;
            &&& transcription::format_fits(start.rate, start.width, start.channels, rate)
            &&& forall|i: int|
                0 <= i < chunks.len() ==> transcription::format_fits(
                    (#[trigger] chunks[i]).0.rate,
                    chunks[i].0.width,
                    chunks[i].0.channels,
                    rate,
                )
        }),
        chunks.map_values(|c: (AudioChunkData, Seq<u8>)| c.1).flatten().len()
            <= transcription::MAX_TRANSCRIBE_AUDIO_BYTES,
    ensures
        ({
            let plan = transcription::transcribe_plan(runtime, asr_map, name, language);
            connection_after(
                runtime,
                voice_map,
                asr_map,
                seq![
                    EventView::Transcribe { name, language },
                    EventView::AudioStart(start),
                ] + chunks.map_values(
                    |c: (AudioChunkData, Seq<u8>)|
                        EventView::AudioChunk { data: c.0, audio: c.1 },
                ),
            ) == (ConnectionView::Audio {
                expected_rate: plan->expected_rate,
                state: AudioStateView::Collecting(
                    chunks.map_values(|c: (AudioChunkData, Seq<u8>)| c.1).flatten(),
                ),
                model_name: plan->model_name,
                language,
            })
        }),
    decreases chunks.len(),
{
    let plan = transcription::transcribe_plan(runtime, asr_map, name, language);
    let request = EventView::Transcribe { name, language };
    let opening = seq![request, EventView::AudioStart(start)];
    let audio = chunks.map_values(|c: (AudioChunkData, Seq<u8>)| c.1);
    let events = opening + chunks.map_values(
        |c: (AudioChunkData, Seq<u8>)| EventView::AudioChunk { data: c.0, audio: c.1 },
    );
    if chunks.len() == 0 {
        assert(events == opening);
        assert(opening.drop_last() == seq![request]);
        assert(seq![request].drop_last() == Seq::<EventView>::empty());
        assert(connection_after(runtime, voice_map, asr_map, Seq::empty())
            == ConnectionView::Idle);
        assert(connection_after(runtime, voice_map, asr_map, seq![request])
            == (ConnectionView::Audio {
            expected_rate: plan->expected_rate,
            state: AudioStateView::AwaitingStart,
            model_name: plan->model_name,
            language,
        }));
        assert(audio.flatten() == Seq::<u8>::empty());
    } else {
        let before = chunks.drop_last();
        let before_audio = before.map_values(|c: (AudioChunkData, Seq<u8>)| c.1);
        assert(before_audio.push(chunks.last().1) == audio);
        before_audio.lemma_flatten_push(chunks.last().1);
        assert forall|i: int| 0 <= i < before.len() implies transcription::format_fits(
            (#[trigger] before[i]).0.rate,
            before[i].0.width,
            before[i].0.channels,
            plan->expected_rate,
        ) by {
            assert(before[i] == chunks[i]);
        }
        lemma_audio_collected(runtime, voice_map, asr_map, name, language, start, before);
        assert(events.drop_last() == opening + before.map_values(
            |c: (AudioChunkData, Seq<u8>)| EventView::AudioChunk { data: c.0, audio: c.1 },
        ));
        let last = chunks[chunks.len() - 1];
        assert(transcription::format_fits(
            last.0.rate,
            last.0.width,
            last.0.channels,
            plan->expected_rate,
        ));
    }
}

/// A plan for a request for speech is carried out as it stands: the refusal is
/// sent, or the model is asked for what the plan says.
pub proof fn law_plan_carried_out(
    runtime: RuntimeView,
    voice_map: VoiceMap,
    request: SynthesizeData,
    streamed_text: bool,
    plan: SynthesizePlan,
    action: Action,
)
    requires
        plan@ == speech::synthesize_plan(
            runtime,
            voice_map,
            request.text@,
            event::opt_voice(request.voice),
            streamed_text,
        ),
        action@ == speech_action(
            runtime,
            voice_map,
            request.text@,
            event::opt_voice(request.voice),
            streamed_text,
        ),
    ensures
        match plan {
            SynthesizePlan::Refuse(events) => action matches Action::Reply(sent)
                && handler::events_view(sent@) == handler::events_view(events@),
            SynthesizePlan::Generate { model_name, params, streaming } => action matches
                Action::Speak { model_name: model, params: asked, streaming: s, streamed_text: t }
                && model@ == model_name@ && asked.text@ == params.text@ && asked.language@
                == params.language@ && text::opt_text(asked.voice_name) == text::opt_text(
                params.voice_name,
            ) && asked.audio_info == params.audio_info && s == streaming && t == streamed_text,
        },
{
}

/// What a connection on which nothing is going on does about an event: a request
/// for speech is spoken at once, text and audio that are to follow are waited for,
/// `describe` is answered with what there is, `ping` with its own text, and an
/// event of an unknown type with an `error` that names it.
pub proof fn law_idle_requests(
    runtime: RuntimeView,
    voice_map: VoiceMap,
    asr_map: AsrModelMap,
    event: EventView,
)
    ensures
        ({
            let (after, action) = connection_step(
                runtime,
                voice_map,
                asr_map,
                ConnectionView::Idle,
                event,
            );
            match event {
                EventView::Synthesize { text, voice } => after is Idle && action == speech_action(
                    runtime,
                    voice_map,
                    text,
                    voice,
                    false,
                ),
                EventView::SynthesizeStart { language, voice } => action is Wait && after == (
                ConnectionView::Text { language, voice, text: Seq::empty() }),
                EventView::Transcribe { name, language } => match transcription::transcribe_plan(
                    runtime,
                    asr_map,
                    name,
                    language,
                ) {
                    TranscribePlanView::Refuse(refusal) => after is Idle && action
                        == ActionView::Reply(seq![refusal]),
                    TranscribePlanView::Collect { model_name, expected_rate } => action is Wait
                        && after == (ConnectionView::Audio {
                        expected_rate,
                        state: AudioStateView::AwaitingStart,
                        model_name,
                        language,
                    }),
                },
                EventView::Describe => after is Idle && (action matches ActionView::Reply(sent)
                    && sent.len() == 1 && (sent[0] matches EventView::Info { tts, asr, wake }
                    && tts == info::tts_list(
                    voice_map,
                    table::ordered(runtime.tts),
                    runtime.streaming,
                ) && asr == info::asr_list(
                    asr_map,
                    table::ordered(runtime.asr),
                    runtime.streaming,
                    runtime.vad,
                ) && wake.len() == 0)),
                EventView::Ping { text } => after is Idle && action == ActionView::Reply(
                    seq![EventView::Pong { text }],
                ),
                EventView::Unknown { event_type, .. } => after is Idle && action
                    == ActionView::Reply(
                    seq![
                        EventView::Error {
                            text: "Unknown event type: "@ + event_type,
                            code: Some("unknown-event"@),
                        },
                    ],
                ),
                _ => after is Idle && action is Wait,
            }
        }),
{
}

/// While text is collected, a piece of it is put after what has come, a one-shot
/// request is passed over, and what does not belong there ends the exchange with
/// an `error`.
pub proof fn law_text_collected(
    runtime: RuntimeView,
    voice_map: VoiceMap,
    asr_map: AsrModelMap,
    language: Option<Seq<char>>,
    voice: Option<VoiceView>,
    text: Seq<char>,
    event: EventView,
)
    ensures
        ({
            let connection = ConnectionView::Text { language, voice, text };
            let (after, action) = connection_step(runtime, voice_map, asr_map, connection, event);
            match event {
                EventView::SynthesizeChunk { text: more } => action is Wait && after == (
                ConnectionView::Text { language, voice, text: text + more }),
                EventView::Synthesize { .. } => action is Wait && after == connection,
                EventView::SynthesizeStop => after is Idle && action == speech_action(
                    runtime,
                    voice_map,
                    text,
                    match voice {
                        Some(v) => Some(
                            VoiceView {
                                name: v.name,
                                language: if v.language is Some {
                                    v.language
                                } else {
                                    language
                                },
                                speaker: v.speaker,
                            },
                        ),
                        None => if language is Some {
                            Some(VoiceView { name: None, language, speaker: None })
                        } else {
                            None
                        },
                    },
                    true,
                ),
                _ => after is Idle && action == ActionView::Reply(
                    seq![
                        EventView::Error {
                            text: "Expected synthesize-chunk or synthesize-stop during streamed synthesize"@,
                            code: None,
                        },
                    ],
                ),
            }
        }),
{
}

/// Audio that is complete goes to the model that the request was for, in the
/// language that it gave; it is filtered if the server has what it takes for the
/// model's rate.
pub proof fn law_audio_handed_on(
    runtime: RuntimeView,
    voice_map: VoiceMap,
    asr_map: AsrModelMap,
    expected_rate: u32,
    audio: Seq<u8>,
    model_name: Seq<char>,
    language: Option<Seq<char>>,
    stop: AudioStopData,
)
    ensures
        ({
            let connection = ConnectionView::Audio {
                expected_rate,
                state: AudioStateView::Collecting(audio),
                model_name,
                language,
            };
            let (after, action) = connection_step(
                runtime,
                voice_map,
                asr_map,
                connection,
                EventView::AudioStop(stop),
            );
            &&& after is Idle
            &&& action == (ActionView::Transcribe {
                model_name,
                audio,
                language,
                vad: if !runtime.vad {
                    VadDecision::Skip
                } else if expected_rate == 8000 || expected_rate == 16000 {
                    VadDecision::Apply
                } else {
                    VadDecision::IncompatibleRate
                },
                streaming: runtime.streaming,
            })
        }),
{
}

/// While audio is collected, the request keeps its model and its language; what
/// is refused ends the exchange with the `error` that says why.
pub proof fn law_audio_kept(
    runtime: RuntimeView,
    voice_map: VoiceMap,
    asr_map: AsrModelMap,
    expected_rate: u32,
    state: AudioStateView,
    model_name: Seq<char>,
    language: Option<Seq<char>>,
    event: EventView,
)
    ensures
        ({
            let connection = ConnectionView::Audio { expected_rate, state, model_name, language };
            let (after, action) = connection_step(runtime, voice_map, asr_map, connection, event);
            match transcription::audio_next(expected_rate, state, event) {
                AudioStateView::Refused(error) => after is Idle && action == ActionView::Reply(
                    seq![error],
                ),
                AudioStateView::Ready(audio) => after is Idle && (
                action matches ActionView::Transcribe { model_name: m, audio: a, language: l, .. }
                    && m == model_name && a == audio && l == language),
                next => action is Wait && after == (ConnectionView::Audio {
                    expected_rate,
                    state: next,
                    model_name,
                    language,
                }),
            }
        }),
{
}

} // verus!
