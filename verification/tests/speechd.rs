//! The speech-dispatcher module.

use crane_wyoming::event::{AudioFormat, InfoData, SynthesizeData, SynthesizeVoice};
use crane_wyoming::json::Json;
use crane_wyoming::speechd::audio::{
    hdlc_escape, piece_size, read_interrupt, sample_size, split_audio, write_audio_event, ByteRead,
    InterruptPoll, PollStep, Utterance, MAX_CHUNK,
};
use crane_wyoming::speechd::session::{Next, Session};
use crane_wyoming::speechd::{
    extract_voices, is_end, parse_crane_uri, read_text_block, split_key_value, Command,
    CraneUriError, Interrupt, Settings, Voice,
};

fn text(s: &str) -> Json {
    Json::Text(s.to_string())
}

fn voice(name: &str, languages: &[&str]) -> Json {
    Json::Object(vec![
        ("name".to_string(), text(name)),
        (
            "languages".to_string(),
            Json::Array(languages.iter().map(|l| text(l)).collect()),
        ),
    ])
}

fn program(name: &str, voices: Vec<Json>) -> Json {
    Json::Object(vec![
        ("name".to_string(), text(name)),
        ("voices".to_string(), Json::Array(voices)),
    ])
}

fn sample_info() -> InfoData {
    InfoData::new().with_tts(vec![
        program("voxtral", vec![voice("de_female", &["de"]), voice("en_male", &["en"])]),
        program("other", vec![voice("no_lang", &[])]),
    ])
}

/// The server that a session talks to.
struct Server {
    info: Result<InfoData, &'static str>,
    /// The format and the chunks of every answer, or no answer at all.
    speech: Option<(AudioFormat, Vec<Vec<u8>>)>,
    /// What polling for an interrupt gives, call by call.
    interrupts: Vec<Option<Interrupt>>,
    /// How many times an interrupt was polled for.
    polls: usize,
    requests: Vec<SynthesizeData>,
}

impl Server {
    fn new(info: InfoData) -> Self {
        Server { info: Ok(info), speech: None, interrupts: vec![], polls: 0, requests: vec![] }
    }

    fn speaking(format: AudioFormat, chunks: Vec<Vec<u8>>) -> Self {
        Server { speech: Some((format, chunks)), ..Server::new(InfoData::new()) }
    }

    fn speak(&mut self, output: &mut Vec<u8>) {
        let mut utterance = Utterance::new();
        if let Some((format, chunks)) = &self.speech {
            'chunks: for chunk in chunks {
                let Some(reply) = utterance.begin_audio(*format) else {
                    break;
                };
                output.extend_from_slice(reply.as_bytes());
                for piece in split_audio(*format, chunk) {
                    let polled = self.interrupts.get(self.polls).copied().flatten();
                    self.polls += 1;
                    let Some(event) = utterance.piece(polled, *format, &piece) else {
                        break 'chunks;
                    };
                    output.extend_from_slice(&event);
                }
            }
        }
        output.extend_from_slice(utterance.finish(self.speech.is_some()).as_bytes());
    }

    fn run_bytes(&mut self, script: &str) -> Vec<u8> {
        let mut session = Session::new();
        let mut output = Vec::new();
        for line in script.lines() {
            let (reply, next) = session.line(line);
            output.extend_from_slice(reply.as_bytes());
            match next {
                Next::Continue => {},
                Next::Init => {
                    let outcome = match &self.info {
                        Ok(info) => Ok(info),
                        Err(e) => Err(*e),
                    };
                    output.extend_from_slice(session.initialized(outcome).as_bytes());
                },
                Next::Speak(data) => {
                    self.requests.push(data);
                    self.speak(&mut output);
                },
                Next::Quit => return output,
            }
        }
        output.extend_from_slice(session.end().as_bytes());
        output
    }

    fn run(&mut self, script: &str) -> String {
        String::from_utf8(self.run_bytes(script)).unwrap()
    }
}

fn run(script: &str) -> String {
    Server::new(InfoData::new()).run(script)
}

#[test]
fn run_init_success_replies_ok_then_quit() {
    let output = run("INIT\nQUIT\n");
    assert!(output.contains("299 OK LOADED SUCCESSFULLY"));
    assert!(output.contains("210 OK QUIT"));
}

#[test]
fn run_init_failure_replies_err() {
    let mut server = Server::new(InfoData::new());
    server.info = Err("no\nsuch socket");
    let output = server.run("INIT\nQUIT\n");
    assert!(output.contains("399 ERR CANT INIT MODULE"));
    assert!(output.contains("399-no such socket\n"));
}

#[test]
fn run_unknown_command_replies_err() {
    let output = run("FOO\nQUIT\n");
    assert!(output.contains("300 ERR UNKNOWN COMMAND"));
    assert!(output.contains("210 OK QUIT"));
}

#[test]
fn parse_crane_uri_extracts_quoted_value() {
    let config = "CraneURI \"unix:///run/user/1000/crane-wyoming/tts.sock\"\n";
    assert_eq!(
        parse_crane_uri(config).unwrap().unwrap(),
        "unix:///run/user/1000/crane-wyoming/tts.sock"
    );
}

#[test]
fn parse_crane_uri_ignores_unrelated_lines() {
    let config = "# comment\nOtherKey \"value\"\n";
    assert_eq!(parse_crane_uri(config), None);
}

#[test]
fn parse_crane_uri_missing_returns_none() {
    assert_eq!(parse_crane_uri(""), None);
}

#[test]
fn parse_crane_uri_rejects_unquoted_value() {
    let config = "CraneURI unix:///run/user/1000/crane-wyoming/tts.sock\n";
    assert_eq!(parse_crane_uri(config), Some(Err(CraneUriError)));
    assert_eq!(CraneUriError.message(), "CraneURI directive value must be a quoted string");
}

#[test]
fn parse_crane_uri_requires_word_boundary() {
    let config = "CraneURITimeout \"30\"\n";
    assert_eq!(parse_crane_uri(config), None);
}

#[test]
fn parse_crane_uri_takes_the_first_of_several() {
    let config = "# x\r\n  CraneURI\t\"tcp://a:1\"  \r\nCraneURI \"tcp://b:2\"\n";
    assert_eq!(parse_crane_uri(config), Some(Ok("tcp://a:1".to_string())));
}

#[test]
fn extract_voices_reads_name_and_first_language() {
    let expected: Vec<Voice> = [("de_female", "de"), ("en_male", "en"), ("no_lang", "none")]
        .iter()
        .map(|(name, language)| Voice { name: name.to_string(), language: language.to_string() })
        .collect();
    assert_eq!(extract_voices(&sample_info()), expected);
}

#[test]
fn extract_voices_empty_info_returns_empty() {
    assert_eq!(extract_voices(&InfoData::new()), Vec::new());
}

#[test]
fn run_set_valid_block_replies_ok() {
    let output = run(
        "INIT\nSET\nvoice=male1\nsynthesis_voice=Chelsie\nlanguage=en\nrate=50\npitch=-10\nvolume=80\npitch_range=0\npunctuation_mode=none\nspelling_mode=off\ncap_let_recogn=none\n.\nQUIT\n",
    );
    assert!(output.contains("203 OK RECEIVING SETTINGS"));
    assert!(output.contains("203 OK SETTINGS RECEIVED"));
}

#[test]
fn run_set_bad_syntax_replies_302() {
    let output = run("INIT\nSET\nnotakeyvalue\n.\nQUIT\n");
    assert!(output.contains("302 ERROR BAD SYNTAX"));
}

#[test]
fn run_set_unknown_key_replies_303() {
    let output = run("INIT\nSET\nbogus=1\n.\nQUIT\n");
    assert!(output.contains("303 ERROR INVALID PARAMETER OR VALUE"));
}

#[test]
fn run_set_non_integer_rate_replies_303() {
    let output = run("INIT\nSET\nrate=fast\n.\nQUIT\n");
    assert!(output.contains("303 ERROR INVALID PARAMETER OR VALUE"));
}

#[test]
fn settings_apply_null_clears_previously_set_field() {
    let mut settings = Settings::default();
    assert!(settings.apply("voice", "male1"));
    assert_eq!(settings.voice, Some("male1".to_string()));
    assert!(settings.apply("voice", "NULL"));
    assert_eq!(settings.voice, None);

    assert!(settings.apply("rate", "50"));
    assert_eq!(settings.rate, Some(50));
    assert!(settings.apply("rate", "NULL"));
    assert_eq!(settings.rate, None);
}

#[test]
fn settings_that_are_refused_stay() {
    let mut settings = Settings::default();
    assert!(settings.apply("pitch", "-10"));
    assert!(settings.apply("volume", "+80"));
    let before = settings.copy();
    assert!(!settings.apply("pitch", "high"));
    assert!(!settings.apply("volume", "2147483648"));
    assert!(!settings.apply("bogus", "1"));
    assert_eq!(settings, before);
    assert_eq!(settings.pitch, Some(-10));
    assert_eq!(settings.volume, Some(80));
}

#[test]
fn run_set_invalid_line_does_not_commit_earlier_valid_fields() {
    let output = run("INIT\nSET\nrate=50\nbogus=1\n.\nSET\nnotakeyvalue\n.\nQUIT\n");
    assert!(output.contains("303 ERROR INVALID PARAMETER OR VALUE"));
    assert!(output.contains("302 ERROR BAD SYNTAX"));
    assert!(!output.contains("203 OK SETTINGS RECEIVED"));
}

#[test]
fn settings_reach_the_request_only_when_their_block_is_valid() {
    let mut server = Server::speaking(AudioFormat { rate: 1, width: 1, channels: 1 }, vec![]);
    server.run("INIT\nSET\nsynthesis_voice=a\n.\nSET\nsynthesis_voice=b\nbogus=1\n.\nSPEAK\nhi\n.\n");
    assert_eq!(
        server.requests,
        vec![SynthesizeData::new("hi").with_voice(SynthesizeVoice::with_name("a"))]
    );
}

#[test]
fn run_set_bad_syntax_takes_priority_over_bad_value() {
    let output = run("INIT\nSET\nbogus=1\nnotakeyvalue\n.\nQUIT\n");
    assert!(output.contains("302 ERROR BAD SYNTAX"));
    assert!(!output.contains("303 ERROR INVALID PARAMETER OR VALUE"));
}

#[test]
fn run_list_voices_reports_cached_voices() {
    let output = Server::new(sample_info()).run("INIT\nLIST VOICES\nQUIT\n");
    assert!(output.contains("200-de_female\tde\tnone\n"));
    assert!(output.contains("200-en_male\ten\tnone\n"));
    assert!(output.contains("200-no_lang\tnone\tnone\n"));
    assert!(output.contains("200 OK VOICE LIST SENT"));
}

#[test]
fn run_list_voices_with_no_voices_replies_304() {
    let output = run("INIT\nLIST VOICES\nQUIT\n");
    assert!(output.contains("304 CANT LIST VOICES"));
}

#[test]
fn hdlc_escape_passes_through_ordinary_bytes() {
    assert_eq!(hdlc_escape(b"hello"), b"hello".to_vec());
}

#[test]
fn hdlc_escape_escapes_newline() {
    assert_eq!(hdlc_escape(&[0x01, 0x0a, 0x02]), vec![0x01, 0x7d, 0x2a, 0x02]);
}

#[test]
fn hdlc_escape_escapes_escape_byte() {
    assert_eq!(hdlc_escape(&[0x7d]), vec![0x7d, 0x5d]);
}

#[test]
fn hdlc_escape_empty_input() {
    assert_eq!(hdlc_escape(&[]), Vec::<u8>::new());
}

#[test]
fn escaped_audio_can_be_read_back() {
    let pcm: Vec<u8> = (0..=255).collect();
    let escaped = hdlc_escape(&pcm);
    assert!(!escaped.contains(&0x0a));
    let mut read = Vec::new();
    let mut bytes = escaped.into_iter();
    while let Some(byte) = bytes.next() {
        read.push(if byte == 0x7d { bytes.next().unwrap() ^ 0x20 } else { byte });
    }
    assert_eq!(read, pcm);
}

#[test]
fn write_audio_event_frames_one_chunk() {
    let format = AudioFormat { rate: 24000, width: 2, channels: 1 };
    let mut output = Vec::new();
    write_audio_event(&mut output, format, &[0x01, 0x02, 0x03, 0x04]);
    let output = String::from_utf8(output).unwrap();
    assert!(output.starts_with(
        "705-bits=16\n705-num_channels=1\n705-sample_rate=24000\n705-num_samples=2\n705-big_endian=0\n705-AUDIO\0"
    ));
    assert!(output.ends_with("\n705 AUDIO\n"));
}

#[test]
fn audio_is_split_at_sample_boundaries() {
    let format = AudioFormat { rate: 24000, width: 3, channels: 1 };
    assert_eq!(sample_size(format), 3);
    assert_eq!(piece_size(format), 9999);
    assert_eq!(MAX_CHUNK, 10000);
    let pcm = vec![7u8; 20000];
    let pieces = split_audio(format, &pcm);
    let sizes: Vec<usize> = pieces.iter().map(Vec::len).collect();
    assert_eq!(sizes, vec![9999, 9999, 2]);
    assert_eq!(pieces.concat(), pcm);
    assert_eq!(sample_size(AudioFormat { rate: 1, width: 0, channels: 2 }), 0);
    assert_eq!(piece_size(AudioFormat { rate: 1, width: 20000, channels: 1 }), 20000);
}

fn lines(given: &[&str]) -> Vec<String> {
    given.iter().map(|l| l.to_string()).collect()
}

#[test]
fn read_text_block_reads_until_dot() {
    assert_eq!(
        read_text_block(&lines(&["hello", "world", "."])),
        Some("hello\nworld".to_string())
    );
}

#[test]
fn read_text_block_unstuffs_leading_dot() {
    assert_eq!(
        read_text_block(&lines(&["..still text", "."])),
        Some(".still text".to_string())
    );
}

#[test]
fn read_text_block_empty_body() {
    assert_eq!(read_text_block(&lines(&["."])), Some(String::new()));
}

#[test]
fn read_text_block_eof_before_terminator_returns_none() {
    assert_eq!(read_text_block(&lines(&["hello"])), None);
}

#[test]
fn read_text_block_preserves_leading_blank_lines() {
    assert_eq!(read_text_block(&lines(&["", "foo", "."])), Some("\nfoo".to_string()));
}

#[test]
fn text_that_was_stuffed_comes_through() {
    let original = ["one", ".two", "", "..three", "four."];
    let mut block: Vec<String> = original
        .iter()
        .map(|l| if l.starts_with('.') { format!(".{l}") } else { l.to_string() })
        .collect();
    block.push(".".to_string());
    assert_eq!(read_text_block(&block), Some(original.join("\n")));
}

#[test]
fn settings_to_synthesize_data_default_has_no_voice() {
    let settings = Settings::default();
    assert_eq!(settings.to_synthesize_data("hi"), SynthesizeData::new("hi"));
}

#[test]
fn settings_to_synthesize_data_with_voice_name() {
    let settings =
        Settings { synthesis_voice: Some("de_female".to_string()), ..Settings::default() };
    assert_eq!(
        settings.to_synthesize_data("hi"),
        SynthesizeData::new("hi").with_voice(SynthesizeVoice::with_name("de_female"))
    );
}

#[test]
fn settings_to_synthesize_data_with_language() {
    let settings = Settings { language: Some("de".to_string()), ..Settings::default() };
    let mut expected_voice = SynthesizeVoice::new();
    expected_voice.language = Some("de".to_string());
    assert_eq!(
        settings.to_synthesize_data("hi"),
        SynthesizeData::new("hi").with_voice(expected_voice)
    );
}

#[test]
fn run_audio_server_method_replies_ok() {
    let output = run("INIT\nAUDIO\naudio_output_method=server\n.\nQUIT\n");
    assert!(output.contains("207 OK RECEIVING AUDIO SETTINGS"));
    assert!(output.contains("203 OK AUDIO INITIALIZED"));
}

#[test]
fn run_audio_other_method_replies_error() {
    let output = run("INIT\nAUDIO\naudio_output_method=local\n.\nQUIT\n");
    assert!(output.contains("303 ERROR INVALID PARAMETER OR VALUE"));
}

#[test]
fn run_audio_bad_syntax_replies_302() {
    let output = run("INIT\nAUDIO\nnotakeyvalue\n.\nQUIT\n");
    assert!(output.contains("302 ERROR BAD SYNTAX"));
}

#[test]
fn run_audio_unknown_key_with_server_method_replies_ok() {
    let output = run("INIT\nAUDIO\naudio_output_method=server\nunknown_key=value\n.\nQUIT\n");
    assert!(output.contains("203 OK AUDIO INITIALIZED"));
}

#[test]
fn run_loglevel_valid_value_replies_ok() {
    let output = run("INIT\nLOGLEVEL\nlog_level=5\n.\nQUIT\n");
    assert!(output.contains("207 OK RECEIVING LOGLEVEL SETTINGS"));
    assert!(output.contains("203 OK LOGLEVEL SET"));
}

#[test]
fn run_loglevel_non_integer_value_replies_303() {
    let output = run("INIT\nLOGLEVEL\nlog_level=nope\n.\nQUIT\n");
    assert!(output.contains("303 ERROR INVALID PARAMETER OR VALUE"));
}

#[test]
fn run_loglevel_unknown_key_replies_303() {
    let output = run("INIT\nLOGLEVEL\nunknown_key=5\n.\nQUIT\n");
    assert!(output.contains("303 ERROR INVALID PARAMETER OR VALUE"));
}

#[test]
fn run_loglevel_bad_syntax_replies_302() {
    let output = run("INIT\nLOGLEVEL\nnotakeyvalue\n.\nQUIT\n");
    assert!(output.contains("302 ERROR BAD SYNTAX"));
}

#[test]
fn run_loglevel_bad_syntax_takes_priority_over_bad_value() {
    let output = run("INIT\nLOGLEVEL\nunknown_key=5\nnotakeyvalue\n.\nQUIT\n");
    assert!(output.contains("302 ERROR BAD SYNTAX"));
    assert!(!output.contains("303 ERROR INVALID PARAMETER OR VALUE"));
}

#[test]
fn run_speak_basic_streams_audio() {
    let format = AudioFormat { rate: 24000, width: 2, channels: 1 };
    let mut server = Server::speaking(format, vec![vec![0x01, 0x02, 0x03, 0x04]]);
    let output = server.run("INIT\nSPEAK\nhello world\n.\nQUIT\n");
    assert!(output.contains("202 OK RECEIVING MESSAGE"));
    assert!(output.contains("200 OK SPEAKING"));
    assert!(output.contains("701 BEGIN"));
    assert!(output.contains("705-sample_rate=24000"));
    assert!(output.contains("705 AUDIO"));
    assert!(output.contains("702 END"));
    assert!(output.find("701 BEGIN").unwrap() < output.find("702 END").unwrap());
    assert_eq!(server.requests, vec![SynthesizeData::new("hello world")]);
}

#[test]
fn run_speak_empty_text_replies_error() {
    let output = run("INIT\nSPEAK\n.\nQUIT\n");
    assert!(output.contains("301 ERROR CANT SPEAK"));
    assert!(!output.contains("701 BEGIN"));
}

#[test]
fn run_speak_without_init_replies_error() {
    let output = run("SPEAK\nhello\n.\nQUIT\n");
    assert!(output.contains("301 ERROR CANT SPEAK"));
}

#[test]
fn run_speak_synthesis_error_replies_error() {
    let output = run("INIT\nSPEAK\nhello\n.\nQUIT\n");
    assert!(output.contains("301 ERROR CANT SPEAK"));
    assert!(!output.contains("701 BEGIN"));
}

#[test]
fn run_speak_zero_width_format_replies_error() {
    let format = AudioFormat { rate: 24000, width: 0, channels: 1 };
    let output =
        Server::speaking(format, vec![vec![0x00, 0x00]]).run("INIT\nSPEAK\nhello\n.\nQUIT\n");
    assert!(output.contains("301 ERROR CANT SPEAK"));
    assert!(!output.contains("701 BEGIN"));
}

#[test]
fn run_speak_escapes_newline_and_escape_bytes_in_audio() {
    let format = AudioFormat { rate: 16000, width: 1, channels: 1 };
    let output =
        Server::speaking(format, vec![vec![0x0a, 0x7d, 0x03]]).run_bytes("INIT\nSPEAK\nhi\n.\nQUIT\n");
    let marker = b"705-AUDIO\0";
    let start =
        output.windows(marker.len()).position(|w| w == marker).unwrap() + marker.len();
    let end = start + output[start..].windows(2).position(|w| w == b"\n7").unwrap();
    assert_eq!(&output[start..end], &[0x7d, 0x2a, 0x7d, 0x5d, 0x03]);
}

#[test]
fn an_utterance_without_audio_is_bracketed_too() {
    let format = AudioFormat { rate: 16000, width: 1, channels: 1 };
    let output = Server::speaking(format, vec![]).run("INIT\nSPEAK\nhi\n.\nQUIT\n");
    assert!(output.contains("200 OK SPEAKING\n701 BEGIN\n702 END\n"));
}

#[test]
fn synthesis_that_fails_after_audio_just_ends() {
    let mut utterance = Utterance::new();
    assert!(utterance.begin_audio(AudioFormat { rate: 1, width: 1, channels: 1 }).is_some());
    assert_eq!(utterance.finish(false), "702 END\n");
}

/// Polls an input on which these bytes are pending.
fn poll(input: &[u8]) -> Option<Interrupt> {
    let mut poll = InterruptPoll::new(input.len() as u64);
    let mut bytes = input.iter();
    let mut step = poll.start();
    loop {
        match step {
            PollStep::Done(interrupt) => return interrupt,
            PollStep::Read => {
                step = match bytes.next() {
                    Some(byte) => poll.step(ByteRead::Byte(*byte)),
                    None => poll.step(ByteRead::Ended),
                };
            },
        }
    }
}

#[test]
fn poll_fd_interrupt_detects_stop() {
    assert_eq!(poll(b"STOP\n"), Some(Interrupt::Stop));
}

#[test]
fn poll_fd_interrupt_detects_pause() {
    assert_eq!(poll(b"PAUSE\n"), Some(Interrupt::Pause));
}

#[test]
fn poll_fd_interrupt_no_data_returns_none() {
    assert_eq!(poll(b""), None);
}

#[test]
fn poll_fd_interrupt_unrecognized_line_returns_none() {
    assert_eq!(poll(b"FOO\n"), None);
}

#[test]
fn polling_stops_at_a_line_that_does_not_end() {
    assert_eq!(poll(b"STOP"), None);
    let mut poll = InterruptPoll::new(5);
    assert_eq!(poll.step(ByteRead::Again), PollStep::Read);
    assert_eq!(poll.step(ByteRead::Ended), PollStep::Done(None));
    assert_eq!(read_interrupt(vec![0xff]), None);
    assert_eq!(read_interrupt(b" STOP \r".to_vec()), Some(Interrupt::Stop));
}

#[test]
fn run_stop_when_not_speaking_replies_703() {
    let output = run("INIT\nSTOP\nQUIT\n");
    assert!(output.contains("703 STOP"));
}

#[test]
fn run_pause_when_not_speaking_replies_704() {
    let output = run("INIT\nPAUSE\nQUIT\n");
    assert!(output.contains("704 PAUSE"));
}

fn interrupted(interrupts: Vec<Option<Interrupt>>) -> String {
    let format = AudioFormat { rate: 24000, width: 2, channels: 1 };
    let chunks = vec![vec![0x01, 0x02], vec![0x03, 0x04], vec![0x05, 0x06]];
    let mut server = Server::speaking(format, chunks);
    server.interrupts = interrupts;
    server.run("INIT\nSPEAK\nhello\n.\nQUIT\n")
}

#[test]
fn run_speak_stop_interrupts_before_first_chunk() {
    let output = interrupted(vec![poll(b"STOP\n")]);
    assert!(output.contains("701 BEGIN"));
    assert!(output.contains("703 STOP"));
    assert!(!output.contains("702 END"));
    assert!(!output.contains("705 AUDIO"));
}

#[test]
fn run_speak_pause_interrupts_before_first_chunk() {
    let output = interrupted(vec![poll(b"PAUSE\n")]);
    assert!(output.contains("701 BEGIN"));
    assert!(output.contains("704 PAUSE"));
    assert!(!output.contains("702 END"));
    assert!(!output.contains("705 AUDIO"));
}

#[test]
fn speak_stop_mid_stream_emits_audio_then_703() {
    let output = interrupted(vec![None, Some(Interrupt::Stop)]);
    assert!(output.contains("701 BEGIN"));
    assert!(output.contains("705 AUDIO"));
    assert!(output.contains("703 STOP"));
    assert!(!output.contains("702 END"));
}

#[test]
fn after_an_interrupt_nothing_is_polled_for_or_sent() {
    let format = AudioFormat { rate: 24000, width: 2, channels: 1 };
    let long = vec![7u8; 25000];
    let mut server = Server::speaking(format, vec![vec![1, 2], long, vec![3, 4]]);
    server.interrupts = vec![None, None, Some(Interrupt::Pause), Some(Interrupt::Stop)];
    let mut output = Vec::new();
    server.speak(&mut output);
    let mut expected = b"200 OK SPEAKING\n701 BEGIN\n".to_vec();
    write_audio_event(&mut expected, format, &[1, 2]);
    write_audio_event(&mut expected, format, &vec![7; 10000]);
    expected.extend_from_slice(b"704 PAUSE\n");
    assert_eq!(output, expected);
    assert_eq!(server.polls, 3);

    let mut utterance = Utterance::new();
    assert!(utterance.begin_audio(format).is_some());
    assert_eq!(utterance.piece(Some(Interrupt::Stop), format, &[1, 2]), None);
    assert_eq!(utterance.piece(None, format, &[1, 2]), None);
    assert_eq!(utterance.piece(Some(Interrupt::Pause), format, &[1, 2]), None);
    assert_eq!(utterance.begin_audio(format), None);
    assert_eq!(utterance.finish(true), "703 STOP\n");
    assert_eq!(utterance.finish(false), "703 STOP\n");
}

#[test]
fn audio_that_cannot_be_sent_is_an_error_alone() {
    let format = AudioFormat { rate: 24000, width: 0, channels: 1 };
    let mut server = Server::speaking(format, vec![vec![1, 2]]);
    let mut output = Vec::new();
    server.speak(&mut output);
    assert_eq!(output, b"301 ERROR CANT SPEAK\n");
    assert_eq!(server.polls, 0);
}

#[test]
fn commands_and_pairs_are_parsed() {
    assert_eq!(Command::parse(" LIST VOICES\r"), Command::ListVoices);
    assert_eq!(Command::parse("SET"), Command::SetSettings);
    assert_eq!(Command::parse("set"), Command::Unknown);
    assert_eq!(
        split_key_value("key=a=b"),
        Some(("key".to_string(), "a=b".to_string()))
    );
    assert_eq!(split_key_value("none"), None);
    assert!(is_end("."));
    assert!(!is_end(".."));
}
