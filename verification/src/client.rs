//! The client's side of the protocol.
//!
//! A client sends one request at a time and reads the events of the answer:
//! `describe`/`info`, `synthesize`/`audio-start`/`audio-chunk`*/`audio-stop`,
//! and `ping`/`pong`. The functions here say what each event that was read
//! means for the request it answers.

use vstd::prelude::*;
use vstd::string::*;
use crate::engine::runtime::AudioInfo;
use crate::error;
use crate::error::{ErrorView, ProtocolError};
use crate::event;
use crate::event::{AudioFormat, Event, EventView, InfoData, PongData};
use crate::handler::speech;
use crate::handler::speech::SpeechItemView;
use crate::json;
use crate::text;

verus! {

/// Milliseconds to wait for a trailing `error` event after `audio-stop`.
///
/// The server sends `audio-stop` immediately followed by `error` when
/// generation fails partway through; on a successful synthesis nothing more
/// arrives, so this bounds how long a successful call waits to confirm that.
pub const TRAILING_ERROR_TIMEOUT_MILLIS: u64 = 50;

/// Errors that can occur while using a client.
#[derive(Debug)]
pub enum ClientError {
    /// Failed to establish the underlying connection, with the system's
    /// reason.
    Connect(String),
    /// The given URI did not have a recognized `tcp://` or `unix://` scheme.
    InvalidUri(String),
    /// A wire-level framing or serialization error occurred.
    Protocol(ProtocolError),
    /// The server responded with an `error` event.
    ServerError {
        /// Human-readable error message from the server.
        text: String,
        /// Optional machine-readable error code from the server.
        code: Option<String>,
    },
    /// The server sent an event of a different type than expected at this
    /// point in the protocol flow.
    UnexpectedEvent {
        /// A description of the expected event type(s).
        expected: &'static str,
        /// The wire-format type string of the event that was received.
        actual: String,
    },
    /// The connection closed before the expected response arrived.
    UnexpectedEof,
    /// The `unix://` URI scheme was used on a platform that does not support
    /// Unix domain sockets.
    UnixNotSupported,
}

/// The content of a [`ClientError`].
pub enum ClientErrorView {
    Connect(Seq<char>),
    InvalidUri(Seq<char>),
    Protocol(ErrorView),
    ServerError { text: Seq<char>, code: Option<Seq<char>> },
    UnexpectedEvent { expected: Seq<char>, actual: Seq<char> },
    UnexpectedEof,
    UnixNotSupported,
}

impl View for ClientError {
    type V = ClientErrorView;

    open spec fn view(&self) -> ClientErrorView {
        match *self {
            ClientError::Connect(e) => ClientErrorView::Connect(e@),
            ClientError::InvalidUri(uri) => ClientErrorView::InvalidUri(uri@),
            ClientError::Protocol(e) => ClientErrorView::Protocol(e@),
            ClientError::ServerError { text, code } => ClientErrorView::ServerError {
                text: text@,
                code: text::opt_text(code),
            },
            ClientError::UnexpectedEvent { expected, actual } => ClientErrorView::UnexpectedEvent {
                expected: expected@,
                actual: actual@,
            },
            ClientError::UnexpectedEof => ClientErrorView::UnexpectedEof,
            ClientError::UnixNotSupported => ClientErrorView::UnixNotSupported,
        }
    }
}

/// The message for an error.
pub open spec fn message_text(error: ClientErrorView) -> Seq<char> {
    match error {
        ClientErrorView::Connect(e) => "failed to connect: "@ + e,
        ClientErrorView::InvalidUri(uri) => {
            "invalid Wyoming URI (expected tcp:// or unix://): "@ + uri
        },
        ClientErrorView::Protocol(e) => error::message_text(e),
        ClientErrorView::ServerError { text, .. } => "server error: "@ + text,
        ClientErrorView::UnexpectedEvent { expected, actual } => "expected "@ + expected
            + " event, got "@ + actual,
        ClientErrorView::UnexpectedEof => "connection closed unexpectedly"@,
        ClientErrorView::UnixNotSupported => "unix:// sockets are not supported on this platform"@,
    }
}

impl ClientError {
    /// The message for this error.
    pub fn message(&self) -> (r: String)
        ensures
            r@ == message_text(self@),
            match self {
                ClientError::Connect(e) => r@ == "failed to connect: "@ + e@,
                ClientError::InvalidUri(uri) => r@
                    == "invalid Wyoming URI (expected tcp:// or unix://): "@ + uri@,
                ClientError::Protocol(e) => r@ == error::message_text(e@),
                ClientError::ServerError { text, .. } => r@ == "server error: "@ + text@,
                ClientError::UnexpectedEvent { expected, actual } => r@ == "expected "@ + expected@
                    + " event, got "@ + actual@,
                ClientError::UnexpectedEof => r@ == "connection closed unexpectedly"@,
                ClientError::UnixNotSupported => r@
                    == "unix:// sockets are not supported on this platform"@,
            },
    {
        let mut r = String::new();
        match self {
            ClientError::Connect(e) => {
                r.append("failed to connect: ");
                r.append(e.as_str());
            },
            ClientError::InvalidUri(uri) => {
                r.append("invalid Wyoming URI (expected tcp:// or unix://): ");
                r.append(uri.as_str());
            },
            ClientError::Protocol(e) => {
                r.append(e.message().as_str());
            },
            ClientError::ServerError { text, .. } => {
                r.append("server error: ");
                r.append(text.as_str());
            },
            ClientError::UnexpectedEvent { expected, actual } => {
                r.append("expected ");
                r.append(expected);
                r.append(" event, got ");
                r.append(actual.as_str());
            },
            ClientError::UnexpectedEof => {
                r.append("connection closed unexpectedly");
            },
            ClientError::UnixNotSupported => {
                r.append("unix:// sockets are not supported on this platform");
            },
        }
        proof {
            assert(r@ == message_text(self@));
        }
        r
    }
}

/// Where a client connects to.
#[derive(Debug, Clone, PartialEq, Eq)]
pub enum Target {
    /// A TCP address, `host:port`.
    Tcp(String),
    /// The path of a Unix domain socket.
    Unix(String),
}

/// The content of a [`Target`].
pub enum TargetView {
    Tcp(Seq<char>),
    Unix(Seq<char>),
}

impl View for Target {
    type V = TargetView;

    open spec fn view(&self) -> TargetView {
        match *self {
            Target::Tcp(addr) => TargetView::Tcp(addr@),
            Target::Unix(path) => TargetView::Unix(path@),
        }
    }
}

/// Where a URI leads to.
pub open spec fn target_of(uri: Seq<char>, unix_supported: bool) -> Result<
    TargetView,
    ClientErrorView,
> {
    match text::after_prefix(uri, "tcp://"@) {
        Some(addr) => Ok(TargetView::Tcp(addr)),
        None => match text::after_prefix(uri, "unix://"@) {
            Some(path) => if unix_supported {
                Ok(TargetView::Unix(path))
            } else {
                Err(ClientErrorView::UnixNotSupported)
            },
            None => Err(ClientErrorView::InvalidUri(uri)),
        },
    }
}

/// Decides where to connect to for a server at `uri`: `tcp://host:port` or
/// `unix:///path/to/socket`.
pub fn connect(uri: &str, unix_supported: bool) -> (r: Result<Target, ClientError>)
    ensures
        match r {
            Ok(target) => target_of(uri@, unix_supported) == Ok::<TargetView, ClientErrorView>(
                target@,
            ),
            Err(e) => target_of(uri@, unix_supported) == Err::<TargetView, ClientErrorView>(e@),
        },
        match r {
            Ok(Target::Tcp(addr)) => uri@ == "tcp://"@ + addr@,
            Ok(Target::Unix(path)) => unix_supported && uri@ == "unix://"@ + path@,
            Err(ClientError::UnixNotSupported) => !unix_supported && text::after_prefix(
                uri@,
                "unix://"@,
            ) is Some,
            Err(ClientError::InvalidUri(given)) => given@ == uri@ && text::after_prefix(
                uri@,
                "tcp://"@,
            ) is None && text::after_prefix(uri@, "unix://"@) is None,
            _ => false,
        },
{
    proof {
        text::law_after_prefix(uri@, "tcp://"@);
        text::law_after_prefix(uri@, "unix://"@);
        reveal_strlit("tcp://");
        reveal_strlit("unix://");
    }
    if let Some(addr) = text::strip_prefix(uri, "tcp://") {
        return Ok(Target::Tcp(addr));
    }
    if let Some(path) = text::strip_prefix(uri, "unix://") {
        if unix_supported {
            return Ok(Target::Unix(path));
        }
        return Err(ClientError::UnixNotSupported);
    }
    Err(ClientError::InvalidUri(String::from_str(uri)))
}

/// What was read: an event, the end of the connection, or an error.
pub open spec fn read_view(read: Result<Option<Event>, ProtocolError>) -> Result<
    Option<EventView>,
    ErrorView,
> {
    match read {
        Ok(Some(event)) => Ok(Some(event@)),
        Ok(None) => Ok(None),
        Err(e) => Err(e@),
    }
}

/// The event that was read. The connection must not end before it.
pub open spec fn expected_event(read: Result<Option<EventView>, ErrorView>) -> Result<
    EventView,
    ClientErrorView,
> {
    match read {
        Ok(Some(event)) => Ok(event),
        Ok(None) => Err(ClientErrorView::UnexpectedEof),
        Err(e) => Err(ClientErrorView::Protocol(e)),
    }
}

/// The error for an event that answers a request otherwise than expected.
pub open spec fn refused(event: EventView, expected: Seq<char>) -> ClientErrorView {
    match event {
        EventView::Error { text, code } => ClientErrorView::ServerError { text, code },
        _ => ClientErrorView::UnexpectedEvent { expected, actual: event::type_of(event) },
    }
}

/// Takes the event that was read, mapping the end of the connection to
/// [`ClientError::UnexpectedEof`].
fn read_expected(read: Result<Option<Event>, ProtocolError>) -> (r: Result<Event, ClientError>)
    ensures
        match r {
            Ok(event) => expected_event(read_view(read)) == Ok::<EventView, ClientErrorView>(
                event@,
            ),
            Err(e) => expected_event(read_view(read)) == Err::<EventView, ClientErrorView>(e@),
        },
        read matches Ok(Some(event)) ==> r == Ok::<Event, ClientError>(event),
        read matches Ok(None) ==> r matches Err(ClientError::UnexpectedEof),
        read matches Err(why) ==> (r matches Err(ClientError::Protocol(e)) && e == why),
{
    match read {
        Ok(Some(event)) => Ok(event),
        Ok(None) => Err(ClientError::UnexpectedEof),
        Err(e) => Err(ClientError::Protocol(e)),
    }
}

/// Gives the error for an event that answers a request otherwise than
/// expected.
fn refusal(event: Event, expected: &'static str) -> (r: ClientError)
    ensures
        r@ == refused(event@, expected@),
        event matches Event::Error(d) ==> (r matches ClientError::ServerError { text, code }
            && text == d.text && code == d.code),
        !(event is Error) ==> (r matches ClientError::UnexpectedEvent { expected: e, actual } && e
            == expected && actual@ == event::type_of(event@)),
{
    if let Event::Error(data) = event {
        return ClientError::ServerError { text: data.text, code: data.code };
    }
    let actual = String::from_str(event.event_type());
    ClientError::UnexpectedEvent { expected, actual }
}

/// Reads the answer to a `describe` request.
pub fn describe_response(read: Result<Option<Event>, ProtocolError>) -> (r: Result<
    InfoData,
    ClientError,
>)
    ensures
        match r {
            Ok(data) => expected_event(read_view(read)) == Ok::<EventView, ClientErrorView>(
                EventView::Info {
                    tts: json::items_view(data.tts@),
                    asr: json::items_view(data.asr@),
                    wake: json::items_view(data.wake@),
                },
            ),
            Err(e) => match expected_event(read_view(read)) {
                Ok(event) => !(event is Info) && e@ == refused(event, "info"@),
                Err(error) => e@ == error,
            },
        },
        read matches Ok(Some(Event::Info(d))) ==> r == Ok::<InfoData, ClientError>(d),
        read matches Ok(None) ==> r matches Err(ClientError::UnexpectedEof),
        read matches Err(why) ==> (r matches Err(ClientError::Protocol(e)) && e == why),
        read matches Ok(Some(Event::Error(d))) ==> (r matches Err(
            ClientError::ServerError { text, code },
        ) && text == d.text && code == d.code),
        read matches Ok(Some(event)) ==> (!(event is Info || event is Error) ==> (r matches Err(
            ClientError::UnexpectedEvent { expected, actual },
        ) && expected@ == "info"@ && actual@ == event::type_of(event@))),
{
    match read_expected(read) {
        Ok(Event::Info(data)) => Ok(data),
        Ok(event) => Err(refusal(event, "info")),
        Err(e) => Err(e),
    }
}

/// Reads the answer to a `ping` request.
pub fn ping_response(read: Result<Option<Event>, ProtocolError>) -> (r: Result<
    PongData,
    ClientError,
>)
    ensures
        match r {
            Ok(data) => expected_event(read_view(read)) == Ok::<EventView, ClientErrorView>(
                EventView::Pong { text: text::opt_text(data.text) },
            ),
            Err(e) => match expected_event(read_view(read)) {
                Ok(event) => !(event is Pong) && e@ == refused(event, "pong"@),
                Err(error) => e@ == error,
            },
        },
        read matches Ok(Some(Event::Pong(d))) ==> r == Ok::<PongData, ClientError>(d),
        read matches Ok(None) ==> r matches Err(ClientError::UnexpectedEof),
        read matches Err(why) ==> (r matches Err(ClientError::Protocol(e)) && e == why),
        read matches Ok(Some(Event::Error(d))) ==> (r matches Err(
            ClientError::ServerError { text, code },
        ) && text == d.text && code == d.code),
        read matches Ok(Some(event)) ==> (!(event is Pong || event is Error) ==> (r matches Err(
            ClientError::UnexpectedEvent { expected, actual },
        ) && expected@ == "pong"@ && actual@ == event::type_of(event@))),
{
    match read_expected(read) {
        Ok(Event::Pong(data)) => Ok(data),
        Ok(event) => Err(refusal(event, "pong")),
        Err(e) => Err(e),
    }
}

/// What the first event of the answer to a `synthesize` request means: the
/// format of the audio that follows.
pub open spec fn start_of(event: EventView) -> Result<AudioFormat, ClientErrorView> {
    match event {
        EventView::AudioStart(data) => Ok(
            AudioFormat { rate: data.rate, width: data.width, channels: data.channels },
        ),
        _ => Err(refused(event, "audio-start"@)),
    }
}

/// What a later event of the answer to a `synthesize` request means: more
/// audio, or the end of it.
pub open spec fn audio_of(event: EventView) -> Result<Option<Seq<u8>>, ClientErrorView> {
    match event {
        EventView::AudioChunk { audio, .. } => Ok(Some(audio)),
        EventView::AudioStop(_) => Ok(None),
        _ => Err(refused(event, "audio-chunk or audio-stop"@)),
    }
}

/// What an event right after the audio means.
pub open spec fn trailing_of(event: EventView) -> Result<(), ClientErrorView> {
    match event {
        EventView::Error { text, code } => Err(ClientErrorView::ServerError { text, code }),
        _ => Ok(()),
    }
}

/// Reads the leading `audio-start` of the answer to a `synthesize` request.
pub fn start_synthesis(read: Result<Option<Event>, ProtocolError>) -> (r: Result<
    AudioFormat,
    ClientError,
>)
    ensures
        match expected_event(read_view(read)) {
            Ok(event) => match r {
                Ok(format) => start_of(event) == Ok::<AudioFormat, ClientErrorView>(format),
                Err(e) => start_of(event) == Err::<AudioFormat, ClientErrorView>(e@),
            },
            Err(error) => r matches Err(e) && e@ == error,
        },
        read matches Ok(Some(Event::AudioStart(d))) ==> (r matches Ok(format) && format.rate
            == d.rate && format.width == d.width && format.channels == d.channels),
        read matches Ok(None) ==> r matches Err(ClientError::UnexpectedEof),
        read matches Err(why) ==> (r matches Err(ClientError::Protocol(e)) && e == why),
        read matches Ok(Some(Event::Error(d))) ==> (r matches Err(
            ClientError::ServerError { text, code },
        ) && text == d.text && code == d.code),
        read matches Ok(Some(event)) ==> (!(event is AudioStart || event is Error) ==> (
        r matches Err(ClientError::UnexpectedEvent { expected, actual }) && expected@
            == "audio-start"@ && actual@ == event::type_of(event@))),
{
    match read_expected(read) {
        Ok(Event::AudioStart(data)) => Ok(
            AudioFormat { rate: data.rate, width: data.width, channels: data.channels },
        ),
        Ok(event) => Err(refusal(event, "audio-start")),
        Err(e) => Err(e),
    }
}

/// Reads a later event of the answer to a `synthesize` request: audio, or
/// `None` for the end of it.
fn next_audio(read: Result<Option<Event>, ProtocolError>) -> (r: Result<
    Option<Vec<u8>>,
    ClientError,
>)
    ensures
        match expected_event(read_view(read)) {
            Ok(event) => match r {
                Ok(audio) => audio_of(event) == Ok::<Option<Seq<u8>>, ClientErrorView>(
                    event::opt_bytes(audio),
                ),
                Err(e) => audio_of(event) == Err::<Option<Seq<u8>>, ClientErrorView>(e@),
            },
            Err(error) => r matches Err(e) && e@ == error,
        },
        read matches Ok(Some(Event::AudioChunk { audio, .. })) ==> (r matches Ok(Some(bytes))
            && bytes == audio),
        read matches Ok(Some(Event::AudioStop(_))) ==> r matches Ok(None),
        read matches Ok(None) ==> r matches Err(ClientError::UnexpectedEof),
        read matches Err(why) ==> (r matches Err(ClientError::Protocol(e)) && e == why),
        read matches Ok(Some(Event::Error(d))) ==> (r matches Err(
            ClientError::ServerError { text, code },
        ) && text == d.text && code == d.code),
        read matches Ok(Some(event)) ==> (!(event is AudioChunk || event is AudioStop
            || event is Error) ==> (r matches Err(ClientError::UnexpectedEvent { expected, actual })
            && expected@ == "audio-chunk or audio-stop"@ && actual@ == event::type_of(event@))),
{
    match read_expected(read) {
        Ok(Event::AudioChunk { audio, .. }) => Ok(Some(audio)),
        Ok(Event::AudioStop(_)) => Ok(None),
        Ok(event) => Err(refusal(event, "audio-chunk or audio-stop")),
        Err(e) => Err(e),
    }
}

/// Checks what was read right after the audio, if anything came in time: a
/// server error that follows `audio-stop` means that generation failed partway
/// through.
pub fn check_trailing_error(read: Option<Result<Option<Event>, ProtocolError>>) -> (r: Result<
    (),
    ClientError,
>)
    ensures
        match read {
            None => r is Ok,
            Some(read) => match expected_event(read_view(read)) {
                Ok(event) => match r {
                    Ok(_) => trailing_of(event) is Ok,
                    Err(e) => trailing_of(event) == Err::<(), ClientErrorView>(e@),
                },
                Err(error) => r matches Err(e) && e@ == error,
            },
        },
        read matches Some(Ok(Some(event))) ==> (!(event is Error) ==> r is Ok),
        read matches Some(Ok(None)) ==> r matches Err(ClientError::UnexpectedEof),
        read matches Some(Err(why)) ==> (r matches Err(ClientError::Protocol(e)) && e == why),
        read matches Some(Ok(Some(Event::Error(d)))) ==> (r matches Err(
            ClientError::ServerError { text, code },
        ) && text == d.text && code == d.code),
{
    match read {
        None => Ok(()),
        Some(read) => match read_expected(read) {
            Ok(Event::Error(data)) => Err(
                ClientError::ServerError { text: data.text, code: data.code },
            ),
            Ok(_) => Ok(()),
            Err(e) => Err(e),
        },
    }
}

/// The complete result of a non-streaming `synthesize` request.
#[derive(Debug, Clone, PartialEq, Eq)]
pub struct SynthesizeResponse {
    /// The audio format the server used, from its `audio-start` event.
    pub format: AudioFormat,
    /// The complete raw PCM audio, concatenated across all `audio-chunk`
    /// events.
    pub audio: Vec<u8>,
}

impl SynthesizeResponse {
    /// Begins an answer whose `audio-start` announced `format`.
    pub fn new(format: AudioFormat) -> (r: Self)
        ensures
            r.format == format,
            r.audio@ == Seq::<u8>::empty(),
    {
        SynthesizeResponse { format, audio: Vec::new() }
    }

    /// Takes the next event of the answer, and tells whether the audio is
    /// complete.
    pub fn step(&mut self, read: Result<Option<Event>, ProtocolError>) -> (r: Result<
        bool,
        ClientError,
    >)
        ensures
            final(self).format == old(self).format,
            match expected_event(read_view(read)) {
                Ok(event) => match audio_of(event) {
                    Ok(Some(audio)) => r == Ok::<bool, ClientError>(false) && final(self).audio@
                        == old(self).audio@ + audio,
                    Ok(None) => r == Ok::<bool, ClientError>(true) && final(self).audio@ == old(
                        self,
                    ).audio@,
                    Err(error) => r matches Err(e) && e@ == error,
                },
                Err(error) => r matches Err(e) && e@ == error,
            },
            r is Err ==> final(self).audio@ == old(self).audio@,
            read matches Ok(Some(Event::AudioChunk { audio, .. })) ==> final(self).audio@ == old(
                self,
            ).audio@ + audio@ && r matches Ok(false),
            read matches Ok(Some(Event::AudioStop(_))) ==> final(self).audio@ == old(self).audio@
                && r matches Ok(true),
            read matches Ok(None) ==> r matches Err(ClientError::UnexpectedEof),
            read matches Err(why) ==> (r matches Err(ClientError::Protocol(e)) && e == why),
            read matches Ok(Some(Event::Error(d))) ==> (r matches Err(
                ClientError::ServerError { text, code },
            ) && text == d.text && code == d.code),
            read matches Ok(Some(event)) ==> (!(event is AudioChunk || event is AudioStop
                || event is Error) ==> (r matches Err(
                ClientError::UnexpectedEvent { expected, actual },
            ) && expected@ == "audio-chunk or audio-stop"@ && actual@ == event::type_of(event@))),
    {
        match next_audio(read) {
            Ok(Some(audio)) => {
                let mut audio = audio;
                self.audio.append(&mut audio);
                Ok(false)
            },
            Ok(None) => Ok(true),
            Err(e) => Err(e),
        }
    }
}

/// What to do with the next event of a streamed answer.
#[derive(Debug, Clone, PartialEq, Eq)]
pub enum StreamStep {
    /// Hand these bytes to the consumer.
    Deliver(Vec<u8>),
    /// The consumer wants no more: the audio is read and discarded, so that
    /// the connection is left ready for a subsequent request.
    Discard,
    /// The audio is complete.
    Done,
}

/// The content of a [`StreamStep`].
pub enum StreamStepView {
    Deliver(Seq<u8>),
    Discard,
    Done,
}

impl View for StreamStep {
    type V = StreamStepView;

    open spec fn view(&self) -> StreamStepView {
        match *self {
            StreamStep::Deliver(bytes) => StreamStepView::Deliver(bytes@),
            StreamStep::Discard => StreamStepView::Discard,
            StreamStep::Done => StreamStepView::Done,
        }
    }
}

/// The state of a streamed answer to a `synthesize` request.
#[derive(Debug, Clone, Copy, PartialEq, Eq, Structural)]
pub struct SynthesisStream {
    /// The audio format the server used.
    pub format: AudioFormat,
    /// Whether the consumer wants no more audio.
    pub stopped_early: bool,
}

/// What to do with an event of a streamed answer.
pub open spec fn stream_step(stream: SynthesisStream, event: EventView) -> Result<
    StreamStepView,
    ClientErrorView,
> {
    match audio_of(event) {
        Ok(Some(_)) if stream.stopped_early => Ok(StreamStepView::Discard),
        Ok(Some(audio)) => Ok(StreamStepView::Deliver(audio)),
        Ok(None) => Ok(StreamStepView::Done),
        Err(e) => Err(e),
    }
}

impl SynthesisStream {
    /// Begins an answer whose `audio-start` announced `format`.
    pub fn new(format: AudioFormat) -> (r: Self)
        ensures
            r == (SynthesisStream { format, stopped_early: false }),
    {
        SynthesisStream { format, stopped_early: false }
    }

    /// Notes that the consumer wants no more audio.
    pub fn stop(&mut self)
        ensures
            *final(self) == (SynthesisStream { stopped_early: true, ..*old(self) }),
    {
        self.stopped_early = true;
    }

    /// Decides what to do with the next event of the answer.
    pub fn step(&self, read: Result<Option<Event>, ProtocolError>) -> (r: Result<
        StreamStep,
        ClientError,
    >)
        ensures
            match expected_event(read_view(read)) {
                Ok(event) => match r {
                    Ok(step) => stream_step(*self, event) == Ok::<StreamStepView, ClientErrorView>(
                        step@,
                    ),
                    Err(e) => stream_step(*self, event) == Err::<StreamStepView, ClientErrorView>(
                        e@,
                    ),
                },
                Err(error) => r matches Err(e) && e@ == error,
            },
            read matches Ok(Some(Event::AudioChunk { audio, .. })) ==> (if self.stopped_early {
                r matches Ok(StreamStep::Discard)
            } else {
                r matches Ok(StreamStep::Deliver(bytes)) && bytes@ == audio@
            }),
            read matches Ok(Some(Event::AudioStop(_))) ==> r matches Ok(StreamStep::Done),
            read matches Ok(None) ==> r matches Err(ClientError::UnexpectedEof),
            read matches Err(why) ==> (r matches Err(ClientError::Protocol(e)) && e == why),
            read matches Ok(Some(Event::Error(d))) ==> (r matches Err(
                ClientError::ServerError { text, code },
            ) && text == d.text && code == d.code),
    {
        match next_audio(read) {
            Ok(Some(audio)) => if self.stopped_early {
                Ok(StreamStep::Discard)
            } else {
                Ok(StreamStep::Deliver(audio))
            },
            Ok(None) => Ok(StreamStep::Done),
            Err(e) => Err(e),
        }
    }
}

/// What a client makes of the events after `audio-start`, of which no more
/// come: nothing yet, if the audio has not ended.
pub open spec fn audio_outcome(format: AudioFormat, audio: Seq<u8>, events: Seq<EventView>) -> Option<
    Result<(AudioFormat, Seq<u8>), ClientErrorView>,
>
    decreases events.len(),
{
    if events.len() == 0 {
        None
    } else {
        let rest = events.drop_first();
        match audio_of(events[0]) {
            Ok(Some(more)) => audio_outcome(format, audio + more, rest),
            Ok(None) => if rest.len() == 0 {
                Some(Ok((format, audio)))
            } else {
                match trailing_of(rest[0]) {
                    Ok(_) => Some(Ok((format, audio))),
                    Err(e) => Some(Err(e)),
                }
            },
            Err(e) => Some(Err(e)),
        }
    }
}

/// What a client makes of the events that answer a `synthesize` request, of
/// which no more come.
pub open spec fn synthesis_outcome(events: Seq<EventView>) -> Option<
    Result<(AudioFormat, Seq<u8>), ClientErrorView>,
> {
    if events.len() == 0 {
        None
    } else {
        match start_of(events[0]) {
            Ok(format) => audio_outcome(format, Seq::empty(), events.drop_first()),
            Err(e) => Some(Err(e)),
        }
    }
}

/// What came of a streamed answer.
pub struct Streamed {
    /// The format of the audio, or what went wrong.
    pub result: Result<AudioFormat, ClientErrorView>,
    /// The chunks that were handed to the consumer.
    pub delivered: Seq<Seq<u8>>,
    /// How many events of the answer were read.
    pub read: int,
}

/// What comes of the events after `audio-start`, of which no more come in time:
/// nothing yet, if the audio has not ended. `stops` tells whether the consumer
/// wants no more once it has been handed some chunks.
pub open spec fn stream_outcome(
    stream: SynthesisStream,
    delivered: Seq<Seq<u8>>,
    read: int,
    events: Seq<EventView>,
    stops: spec_fn(Seq<Seq<u8>>) -> bool,
) -> Option<Streamed>
    decreases events.len(),
{
    if events.len() == 0 {
        None
    } else {
        let rest = events.drop_first();
        match stream_step(stream, events[0]) {
            Ok(StreamStepView::Deliver(audio)) => {
                let now = delivered.push(audio);
                let next = SynthesisStream { stopped_early: stops(now), ..stream };
                stream_outcome(next, now, read + 1, rest, stops)
            },
            Ok(StreamStepView::Discard) => stream_outcome(stream, delivered, read + 1, rest, stops),
            Ok(StreamStepView::Done) => if rest.len() == 0 {
                Some(Streamed { result: Ok(stream.format), delivered, read: read + 1 })
            } else {
                let result = match trailing_of(rest[0]) {
                    Ok(_) => Ok(stream.format),
                    Err(e) => Err(e),
                };
                Some(Streamed { result, delivered, read: read + 2 })
            },
            Err(e) => Some(Streamed { result: Err(e), delivered, read: read + 1 }),
        }
    }
}

/// What comes of the events that answer a `synthesize` request, of which no
/// more come in time, where the audio is handed on chunk by chunk.
pub open spec fn streaming_outcome(
    events: Seq<EventView>,
    stops: spec_fn(Seq<Seq<u8>>) -> bool,
) -> Option<Streamed> {
    if events.len() == 0 {
        None
    } else {
        match start_of(events[0]) {
            Ok(format) => stream_outcome(
                SynthesisStream { format, stopped_early: false },
                Seq::empty(),
                1,
                events.drop_first(),
                stops,
            ),
            Err(e) => Some(Streamed { result: Err(e), delivered: Seq::empty(), read: 1 }),
        }
    }
}

/// A consumer of streamed audio gets exactly the first `j` chunks, in order, if
/// it stops at the `j`th, and all of them if it never stops. Either way the
/// format is returned, and the answer is read to its end, so that whatever the
/// server sends next answers the next request.
pub proof fn law_streamed(
    events: Seq<EventView>,
    format: AudioFormat,
    chunks: Seq<Seq<u8>>,
    stops: spec_fn(Seq<Seq<u8>>) -> bool,
    j: int,
)
    requires
        events.len() == chunks.len() + 2,
        start_of(events[0]) == Ok::<AudioFormat, ClientErrorView>(format),
        forall|i: int|
            0 <= i < chunks.len() ==> audio_of(#[trigger] events[i + 1]) == Ok::<
                Option<Seq<u8>>,
                ClientErrorView,
            >(Some(chunks[i])),
        audio_of(events.last()) == Ok::<Option<Seq<u8>>, ClientErrorView>(None),
        0 <= j <= chunks.len(),
        forall|i: int| 0 < i < j ==> !stops(#[trigger] chunks.take(i)),
        j < chunks.len() ==> j > 0 && stops(chunks.take(j)),
    ensures
        streaming_outcome(events, stops) == Some(
            Streamed {
                result: Ok::<AudioFormat, ClientErrorView>(format),
                delivered: chunks.take(j),
                read: events.len() as int,
            },
        ),
{
    assert(events.drop_first() == events.skip(1));
    assert(chunks.take(0) == Seq::<Seq<u8>>::empty());
    lemma_streamed(events, format, chunks, stops, j, 0);
}

/// The rest of a streamed answer, once `n` chunks have been read.
proof fn lemma_streamed(
    events: Seq<EventView>,
    format: AudioFormat,
    chunks: Seq<Seq<u8>>,
    stops: spec_fn(Seq<Seq<u8>>) -> bool,
    j: int,
    n: int,
)
    requires
        events.len() == chunks.len() + 2,
        forall|i: int|
            0 <= i < chunks.len() ==> audio_of(#[trigger] events[i + 1]) == Ok::<
                Option<Seq<u8>>,
                ClientErrorView,
            >(Some(chunks[i])),
        audio_of(events.last()) == Ok::<Option<Seq<u8>>, ClientErrorView>(None),
        0 <= j <= chunks.len(),
        forall|i: int| 0 < i < j ==> !stops(#[trigger] chunks.take(i)),
        j < chunks.len() ==> j > 0 && stops(chunks.take(j)),
        0 <= n <= chunks.len(),
    ensures
        stream_outcome(
            SynthesisStream {
                format,
                stopped_early: 0 < n && (j < n || stops(chunks.take(j)) && j == n),
            },
            chunks.take(if n < j {
                n
            } else {
                j
            }),
            n + 1,
            events.skip(n + 1),
            stops,
        ) == Some(
            Streamed {
                result: Ok::<AudioFormat, ClientErrorView>(format),
                delivered: chunks.take(j),
                read: events.len() as int,
            },
        ),
    decreases chunks.len() - n,
{
    let rest = events.skip(n + 1);
    assert(rest[0] == events[n + 1]);
    assert(rest.drop_first() == events.skip(n + 2));
    if n < chunks.len() {
        lemma_streamed(events, format, chunks, stops, j, n + 1);
        if n < j {
            assert(chunks.take(n).push(chunks[n]) == chunks.take(n + 1));
        }
    }
}

/// The client makes of the server's answer what the server meant: the audio
/// of all the chunks in the format of the model, or the error that generation
/// ended with, whether it came before any audio or partway through.
pub proof fn law_client_understands_server(
    info: AudioInfo,
    chunks: Seq<Seq<u8>>,
    last: SpeechItemView,
)
    requires
        speech::is_last(last),
    ensures
        synthesis_outcome(
            speech::speech_events(
                info,
                chunks.map_values(|a: Seq<u8>| SpeechItemView::Chunk(a)).push(last),
            ),
        ) == (match speech::item_error(last) {
            Some(error) => Some(
                Err::<(AudioFormat, Seq<u8>), ClientErrorView>(
                    ClientErrorView::ServerError { text: error->Error_text, code: None },
                ),
            ),
            None => Some(
                Ok::<(AudioFormat, Seq<u8>), ClientErrorView>(
                    (speech::format_of(info), chunks.flatten()),
                ),
            ),
        }),
{
    let items = chunks.map_values(|a: Seq<u8>| SpeechItemView::Chunk(a)).push(last);
    let events = speech::speech_events(info, items);
    let audio = chunks.map_values(|a: Seq<u8>| speech::chunk_event(info, a));
    let tail = if speech::item_error(last) is Some {
        seq![speech::item_error(last)->0]
    } else {
        Seq::empty()
    };
    speech::law_speech_brackets(info, chunks, last);
    if chunks.len() == 0 && !(last is End) && !(last is EncodeFailed) {
        assert(events[0] == speech::item_error(last)->0);
    } else {
        let rest = audio + seq![speech::stop_event()] + tail;
        assert(events.drop_first() == rest);
        assert(events[0] == speech::start_event(info));
        assert(start_of(events[0]) == Ok::<AudioFormat, ClientErrorView>(speech::format_of(info)));
        lemma_audio_outcome(info, Seq::empty(), chunks, tail);
        assert(Seq::<u8>::empty() + chunks.flatten() == chunks.flatten());
        assert(audio + (seq![speech::stop_event()] + tail) == rest);
    }
}

/// What a client makes of audio, its end and what follows it.
proof fn lemma_audio_outcome(
    info: AudioInfo,
    audio: Seq<u8>,
    chunks: Seq<Seq<u8>>,
    tail: Seq<EventView>,
)
    requires
        tail.len() == 0 || tail[0] is Error,
    ensures
        audio_outcome(
            speech::format_of(info),
            audio,
            chunks.map_values(|a: Seq<u8>| speech::chunk_event(info, a)) + (seq![
                speech::stop_event(),
            ] + tail),
        ) == (if tail.len() == 0 {
            Some(
                Ok::<(AudioFormat, Seq<u8>), ClientErrorView>(
                    (speech::format_of(info), audio + chunks.flatten()),
                ),
            )
        } else {
            Some(
                Err::<(AudioFormat, Seq<u8>), ClientErrorView>(
                    ClientErrorView::ServerError {
                        text: tail[0]->Error_text,
                        code: tail[0]->Error_code,
                    },
                ),
            )
        }),
    decreases chunks.len(),
{
    let end = seq![speech::stop_event()] + tail;
    let events = chunks.map_values(|a: Seq<u8>| speech::chunk_event(info, a)) + end;
    if chunks.len() == 0 {
        assert(events == end);
        assert(end.drop_first() == tail);
        assert(chunks.flatten() == Seq::<u8>::empty());
        assert(audio + chunks.flatten() == audio);
    } else {
        let rest = chunks.drop_first();
        lemma_audio_outcome(info, audio + chunks[0], rest, tail);
        assert(events.drop_first() == rest.map_values(
            |a: Seq<u8>| speech::chunk_event(info, a),
        ) + end);
        assert(events[0] == speech::chunk_event(info, chunks[0]));
        assert(chunks.flatten() == chunks[0] + rest.flatten());
        assert(audio + chunks[0] + rest.flatten() == audio + (chunks[0] + rest.flatten()));
    }
}

/// An error may follow a complete answer within a twentieth of a second.
pub proof fn law_trailing_wait()
    ensures
        TRAILING_ERROR_TIMEOUT_MILLIS * 20 == 1000,
{
}

} // verus!
