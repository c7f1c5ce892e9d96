//! The client's side of a connection.

use crane_wyoming::client::{
    check_trailing_error, connect, describe_response, ping_response, start_synthesis, ClientError,
    SynthesizeResponse, Target,
};
use crane_wyoming::error::ProtocolError;
use crane_wyoming::event::{
    AudioChunkData, AudioFormat, AudioStartData, AudioStopData, ErrorData, Event, InfoData,
    PongData,
};
use crane_wyoming::wire::read_event;

#[test]
fn connect_rejects_unknown_scheme() {
    let err = connect("http://example.com", true).err().unwrap();
    assert!(matches!(err, ClientError::InvalidUri(_)));
}

#[test]
fn connect_rejects_empty_uri() {
    let err = connect("", true).err().unwrap();
    assert!(matches!(err, ClientError::InvalidUri(_)));
}

#[test]
fn connect_rejects_missing_scheme() {
    let err = connect("localhost:10200", true).err().unwrap();
    assert!(matches!(err, ClientError::InvalidUri(_)));
}

#[test]
fn connect_accepts_both_schemes() {
    assert_eq!(
        connect("tcp://localhost:10200", true).unwrap(),
        Target::Tcp("localhost:10200".to_string())
    );
    assert_eq!(
        connect("unix:///run/tts.sock", true).unwrap(),
        Target::Unix("/run/tts.sock".to_string())
    );
    let err = connect("unix:///run/tts.sock", false).err().unwrap();
    assert!(matches!(err, ClientError::UnixNotSupported));
}

fn format() -> AudioFormat {
    AudioFormat { rate: 24000, width: 2, channels: 1 }
}

fn chunk(audio: Vec<u8>) -> Event {
    Event::AudioChunk { data: AudioChunkData::new(format()), audio }
}

fn malformed() -> ProtocolError {
    read_event(b"no json\n").err().unwrap()
}

#[test]
fn responses_of_the_expected_type_are_taken() {
    assert_eq!(
        describe_response(Ok(Some(Event::Info(InfoData::new())))).unwrap(),
        InfoData::new()
    );
    assert_eq!(
        ping_response(Ok(Some(Event::Pong(PongData::with_text("x"))))).unwrap(),
        PongData::with_text("x")
    );
    assert_eq!(
        start_synthesis(Ok(Some(Event::AudioStart(AudioStartData::new(format()))))).unwrap(),
        format()
    );
}

#[test]
fn every_other_response_is_an_error() {
    let err = ping_response(Ok(None)).err().unwrap();
    assert!(matches!(err, ClientError::UnexpectedEof));
    assert_eq!(err.message(), "connection closed unexpectedly");

    let err = ping_response(Ok(Some(Event::Describe))).err().unwrap();
    assert_eq!(err.message(), "expected pong event, got describe");

    let refused = Event::Error(ErrorData::new("no").with_code("c"));
    match describe_response(Ok(Some(refused))).err().unwrap() {
        ClientError::ServerError { text, code } => {
            assert_eq!(text, "no");
            assert_eq!(code.as_deref(), Some("c"));
        },
        other => panic!("expected ServerError, got {other:?}"),
    }

    let expected = malformed().message();
    let err = start_synthesis(Err(malformed())).err().unwrap();
    assert!(matches!(err, ClientError::Protocol(_)));
    assert_eq!(err.message(), expected);
}

#[test]
fn messages_of_errors() {
    assert_eq!(ClientError::Connect("refused".to_string()).message(), "failed to connect: refused");
    assert_eq!(
        connect("http://x", true).err().unwrap().message(),
        "invalid Wyoming URI (expected tcp:// or unix://): http://x"
    );
    assert_eq!(
        ClientError::ServerError { text: "no".to_string(), code: None }.message(),
        "server error: no"
    );
    assert_eq!(
        ClientError::UnixNotSupported.message(),
        "unix:// sockets are not supported on this platform"
    );
}

#[test]
fn audio_is_put_together() {
    let mut response = SynthesizeResponse::new(format());
    assert!(!response.step(Ok(Some(chunk(vec![1, 2])))).unwrap());
    assert!(!response.step(Ok(Some(chunk(vec![3, 4])))).unwrap());
    assert!(response.step(Ok(Some(Event::AudioStop(AudioStopData::new())))).unwrap());
    assert_eq!(response.audio, vec![1, 2, 3, 4]);
    assert!(response.step(Ok(Some(Event::Describe))).is_err());
    assert_eq!(response.audio, vec![1, 2, 3, 4]);
}

#[test]
fn only_an_error_may_trail() {
    assert!(check_trailing_error(None).is_ok());
    assert!(check_trailing_error(Some(Ok(Some(Event::Describe)))).is_ok());
    let trailing = Event::Error(ErrorData::new("late"));
    assert_eq!(
        check_trailing_error(Some(Ok(Some(trailing)))).err().unwrap().message(),
        "server error: late"
    );
}
