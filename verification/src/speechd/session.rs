//! The conversation with speech-dispatcher, line by line.

use vstd::prelude::*;
use vstd::string::*;
use crate::event;
use crate::event::{InfoData, SynthesizeData, VoiceView};
use crate::json;
use crate::speechd;
use crate::speechd::{Command, Interrupt, Settings, SettingsView, TextBlock, Voice};
use crate::text;

verus! {

/// What the next line belongs to.
#[derive(Debug, Clone, Copy, PartialEq, Eq, Structural)]
pub enum Mode {
    /// It is a command.
    Command,
    /// It belongs to a block of settings.
    Settings,
    /// It belongs to a block of audio settings.
    Audio,
    /// It belongs to a block of log settings.
    LogLevel,
    /// It belongs to a text to speak.
    Text,
}

/// The state of a conversation.
pub struct Session {
    /// What the next line belongs to.
    pub mode: Mode,
    /// Whether a line of the current block was not of the form `key=value`.
    pub bad_syntax: bool,
    /// Whether a line of the current block had a bad key or value.
    pub bad_value: bool,
    /// The settings that the current block comes to.
    pub scratch: Settings,
    /// The text to speak so far.
    pub block: TextBlock,
    /// The settings for the next text.
    pub settings: Settings,
    /// The voices of the server.
    pub voices: Vec<Voice>,
    /// Whether a server is connected.
    pub connected: bool,
}

/// The content of a [`Session`].
pub struct SessionView {
    pub mode: Mode,
    pub bad_syntax: bool,
    pub bad_value: bool,
    pub scratch: SettingsView,
    pub text: Seq<char>,
    pub first: bool,
    pub settings: SettingsView,
    pub voices: Seq<(Seq<char>, Seq<char>)>,
    pub connected: bool,
}

impl View for Session {
    type V = SessionView;

    open spec fn view(&self) -> SessionView {
        SessionView {
            mode: self.mode,
            bad_syntax: self.bad_syntax,
            bad_value: self.bad_value,
            scratch: self.scratch@,
            text: self.block.text@,
            first: self.block.first,
            settings: self.settings@,
            voices: speechd::voices_view(self.voices@),
            connected: self.connected,
        }
    }
}

/// What to do after the reply to a line.
#[derive(Debug, Clone, PartialEq, Eq)]
pub enum Next {
    /// Read the next line.
    Continue,
    /// Connect to the server and ask it to describe itself.
    Init,
    /// Have this spoken.
    Speak(SynthesizeData),
    /// Disconnect and end the conversation.
    Quit,
}

/// The content of a [`Next`].
pub enum NextView {
    Continue,
    Init,
    Speak { text: Seq<char>, voice: Option<VoiceView> },
    Quit,
}

impl View for Next {
    type V = NextView;

    open spec fn view(&self) -> NextView {
        match *self {
            Next::Continue => NextView::Continue,
            Next::Init => NextView::Init,
            Next::Speak(data) => NextView::Speak {
                text: data.text@,
                voice: event::opt_voice(data.voice),
            },
            Next::Quit => NextView::Quit,
        }
    }
}

/// A new conversation: nothing is set, and no server is connected.
pub open spec fn new_session() -> SessionView {
    SessionView {
        mode: Mode::Command,
        bad_syntax: false,
        bad_value: false,
        scratch: speechd::no_settings(),
        text: Seq::empty(),
        first: true,
        settings: speechd::no_settings(),
        voices: Seq::empty(),
        connected: false,
    }
}

/// The lines that list some voices. The third column, a voice's variant, is
/// always `none`.
pub open spec fn voice_lines(voices: Seq<(Seq<char>, Seq<char>)>) -> Seq<char>
    decreases voices.len(),
{
    if voices.len() == 0 {
        Seq::empty()
    } else {
        voice_lines(voices.drop_last()) + "200-"@ + voices.last().0 + "\t"@ + voices.last().1
            + "\tnone\n"@
    }
}

/// The reply to `LIST VOICES`.
pub open spec fn voice_reply(voices: Seq<(Seq<char>, Seq<char>)>) -> Seq<char> {
    if voices.len() == 0 {
        "304 CANT LIST VOICES\n"@
    } else {
        voice_lines(voices) + "200 OK VOICE LIST SENT\n"@
    }
}

/// `session` at the beginning of a block.
pub open spec fn block_begun(session: SessionView, mode: Mode) -> SessionView {
    SessionView {
        mode,
        bad_syntax: false,
        bad_value: false,
        scratch: session.settings,
        ..session
    }
}

/// What a command comes to.
pub open spec fn after_command(session: SessionView, command: Command) -> (
    SessionView,
    Seq<char>,
    NextView,
) {
    match command {
        Command::Init => (session, Seq::empty(), NextView::Init),
        Command::SetSettings => (
            block_begun(session, Mode::Settings),
            "203 OK RECEIVING SETTINGS\n"@,
            NextView::Continue,
        ),
        Command::Audio => (
            block_begun(session, Mode::Audio),
            "207 OK RECEIVING AUDIO SETTINGS\n"@,
            NextView::Continue,
        ),
        Command::LogLevel => (
            block_begun(session, Mode::LogLevel),
            "207 OK RECEIVING LOGLEVEL SETTINGS\n"@,
            NextView::Continue,
        ),
        Command::Speak => (
            SessionView { mode: Mode::Text, text: Seq::empty(), first: true, ..session },
            "202 OK RECEIVING MESSAGE\n"@,
            NextView::Continue,
        ),
        Command::ListVoices => (session, voice_reply(session.voices), NextView::Continue),
        Command::Stop => (session, Interrupt::Stop.reply_text(), NextView::Continue),
        Command::Pause => (session, Interrupt::Pause.reply_text(), NextView::Continue),
        Command::Quit => (
            SessionView { connected: false, ..session },
            "210 OK QUIT\n"@,
            NextView::Quit,
        ),
        Command::Unknown => (session, "300 ERR UNKNOWN COMMAND\n"@, NextView::Continue),
    }
}

/// `session` once a block has set `key` to `value`. The only audio output method
/// is `server`, and other audio settings are taken without effect; the log level
/// is an integer, and there is no other log setting.
pub open spec fn after_pair(session: SessionView, key: Seq<char>, value: Seq<char>) -> SessionView {
    match session.mode {
        Mode::Settings => match speechd::applied(session.scratch, key, value) {
            Some(scratch) => SessionView { scratch, ..session },
            None => SessionView { bad_value: true, ..session },
        },
        Mode::Audio => if key != "audio_output_method"@ || value == "server"@ {
            session
        } else {
            SessionView { bad_value: true, ..session }
        },
        _ => if key == "log_level"@ && text::i32_value(value) is Some {
            session
        } else {
            SessionView { bad_value: true, ..session }
        },
    }
}

/// `session` at the end of a block, and the reply to it. Bad syntax is reported
/// before a bad value, and settings are taken over only if every line was good.
pub open spec fn block_ended(session: SessionView) -> (SessionView, Seq<char>) {
    let after = SessionView { mode: Mode::Command, ..session };
    if session.bad_syntax {
        (after, "302 ERROR BAD SYNTAX\n"@)
    } else if session.bad_value {
        (after, "303 ERROR INVALID PARAMETER OR VALUE\n"@)
    } else {
        match session.mode {
            Mode::Settings => (
                SessionView { settings: session.scratch, ..after },
                "203 OK SETTINGS RECEIVED\n"@,
            ),
            Mode::Audio => (after, "203 OK AUDIO INITIALIZED\n"@),
            _ => (after, "203 OK LOGLEVEL SET\n"@),
        }
    }
}

/// What a line of a block comes to.
pub open spec fn after_block_line(session: SessionView, line: Seq<char>) -> (
    SessionView,
    Seq<char>,
) {
    let line = text::trimmed(line);
    if line == "."@ {
        block_ended(session)
    } else {
        match speechd::key_value(line) {
            Some((key, value)) => (after_pair(session, key, value), Seq::empty()),
            None => (SessionView { bad_syntax: true, ..session }, Seq::empty()),
        }
    }
}

/// What a line of a text comes to. Without a text or a server there is nothing
/// to speak.
pub open spec fn after_text_line(session: SessionView, line: Seq<char>) -> (
    SessionView,
    Seq<char>,
    NextView,
) {
    if speechd::is_terminator(line) {
        let after = SessionView { mode: Mode::Command, ..session };
        if session.text.len() == 0 || !session.connected {
            (after, "301 ERROR CANT SPEAK\n"@, NextView::Continue)
        } else {
            (
                after,
                Seq::empty(),
                NextView::Speak {
                    text: session.text,
                    voice: speechd::settings_voice(session.settings),
                },
            )
        }
    } else {
        let text = if session.first {
            session.text + speechd::unstuffed(line)
        } else {
            session.text + "\n"@ + speechd::unstuffed(line)
        };
        (SessionView { text, first: false, ..session }, Seq::empty(), NextView::Continue)
    }
}

/// What a line comes to: the session after it, the reply, and what to do then.
pub open spec fn after_line(session: SessionView, line: Seq<char>) -> (
    SessionView,
    Seq<char>,
    NextView,
) {
    match session.mode {
        Mode::Command => after_command(session, Command::of(line)),
        Mode::Text => after_text_line(session, line),
        _ => {
            let (after, reply) = after_block_line(session, line);
            (after, reply, NextView::Continue)
        },
    }
}

/// A message on a single line.
pub open spec fn one_line(message: Seq<char>) -> Seq<char> {
    message.map_values(
        |c: char|
            if c == '\n' {
                ' '
            } else {
                c
            },
    )
}

/// What a connection attempt comes to, given the voices of the server or what
/// went wrong.
pub open spec fn after_init(
    session: SessionView,
    outcome: Result<Seq<(Seq<char>, Seq<char>)>, Seq<char>>,
) -> (SessionView, Seq<char>) {
    match outcome {
        Ok(voices) => (
            SessionView { voices, connected: true, ..session },
            "299-LOADED SUCCESSFULLY\n299 OK LOADED SUCCESSFULLY\n"@,
        ),
        Err(message) => (
            session,
            "399-"@ + one_line(message) + "\n399 ERR CANT INIT MODULE\n"@,
        ),
    }
}

/// Replaces newlines by spaces.
fn flatten(message: &str) -> (r: String)
    ensures
        r@ == one_line(message@),
{
    let chars = text::chars_of(message);
    let ghost all = one_line(message@);
    let mut r = String::new();
    let mut i: usize = 0;
    while i < chars.len()
        invariant
            i <= chars@.len(),
            chars@ == message@,
            all == one_line(message@),
            r@ == all.take(i as int),
        decreases chars@.len() - i,
    {
        let c = if chars[i] == '\n' {
            ' '
        } else {
            chars[i]
        };
        r.push(c);
        proof {
            assert(all.take(i + 1) == all.take(i as int).push(c));
        }
        i = i + 1;
    }
    proof {
        assert(all.take(i as int) == all);
    }
    r
}

impl Session {
    /// Begins a conversation.
    pub fn new() -> (r: Self)
        ensures
            r@ == new_session(),
            !r@.connected && r@.voices.len() == 0 && r@.mode is Command,
            r@.settings.voice is None && r@.settings.synthesis_voice is None
                && r@.settings.language is None && r@.settings.rate is None && r@.settings.pitch is None
                && r@.settings.volume is None,
    {
        let r = Session {
            mode: Mode::Command,
            bad_syntax: false,
            bad_value: false,
            scratch: Settings::default(),
            block: TextBlock::new(),
            settings: Settings::default(),
            voices: Vec::new(),
            connected: false,
        };
        proof {
            assert(r@.voices == Seq::<(Seq<char>, Seq<char>)>::empty());
        }
        r
    }

    /// Writes the reply to `LIST VOICES`.
    fn list_voices(&self) -> (r: String)
        ensures
            r@ == voice_reply(self@.voices),
    {
        if self.voices.len() == 0 {
            return String::from_str("304 CANT LIST VOICES\n");
        }
        let ghost views = self@.voices;
        let mut r = String::new();
        let mut i: usize = 0;
        while i < self.voices.len()
            invariant
                i <= self.voices@.len(),
                views == speechd::voices_view(self.voices@),
                r@ == voice_lines(views.take(i as int)),
            decreases self.voices@.len() - i,
        {
            proof {
                assert(views.take(i + 1).drop_last() == views.take(i as int));
                assert(views.take(i + 1).last() == views[i as int]);
            }
            r.append("200-");
            r.append(self.voices[i].name.as_str());
            r.append("\t");
            r.append(self.voices[i].language.as_str());
            r.append("\tnone\n");
            i = i + 1;
        }
        proof {
            assert(views.take(i as int) == views);
        }
        r.append("200 OK VOICE LIST SENT\n");
        r
    }

    /// Begins a block.
    fn begin_block(&mut self, mode: Mode)
        ensures
            final(self)@ == block_begun(old(self)@, mode),
    {
        self.mode = mode;
        self.bad_syntax = false;
        self.bad_value = false;
        self.scratch = self.settings.copy();
    }

    /// Takes a command.
    fn command(&mut self, line: &str) -> (r: (String, Next))
        ensures
            (final(self)@, r.0@, r.1@) == after_command(old(self)@, Command::of(line@)),
    {
        match Command::parse(line) {
            Command::Init => (String::new(), Next::Init),
            Command::SetSettings => {
                self.begin_block(Mode::Settings);
                (String::from_str("203 OK RECEIVING SETTINGS\n"), Next::Continue)
            },
            Command::Audio => {
                self.begin_block(Mode::Audio);
                (String::from_str("207 OK RECEIVING AUDIO SETTINGS\n"), Next::Continue)
            },
            Command::LogLevel => {
                self.begin_block(Mode::LogLevel);
                (String::from_str("207 OK RECEIVING LOGLEVEL SETTINGS\n"), Next::Continue)
            },
            Command::Speak => {
                self.mode = Mode::Text;
                self.block = TextBlock::new();
                (String::from_str("202 OK RECEIVING MESSAGE\n"), Next::Continue)
            },
            Command::ListVoices => (self.list_voices(), Next::Continue),
            Command::Stop => (String::from_str(Interrupt::Stop.reply()), Next::Continue),
            Command::Pause => (String::from_str(Interrupt::Pause.reply()), Next::Continue),
            Command::Quit => {
                self.connected = false;
                (String::from_str("210 OK QUIT\n"), Next::Quit)
            },
            Command::Unknown => (String::from_str("300 ERR UNKNOWN COMMAND\n"), Next::Continue),
        }
    }

    /// Takes a setting of a block.
    fn pair(&mut self, key: &str, value: &str)
        ensures
            final(self)@ == after_pair(old(self)@, key@, value@),
    {
        let good = match self.mode {
            Mode::Settings => self.scratch.apply(key, value),
            Mode::Audio => !text::same(key, "audio_output_method") || text::same(value, "server"),
            _ => text::same(key, "log_level") && text::parse_i32(value).is_some(),
        };
        if !good {
            self.bad_value = true;
        }
    }

    /// Ends a block.
    fn end_block(&mut self) -> (r: String)
        ensures
            (final(self)@, r@) == block_ended(old(self)@),
    {
        let mode = self.mode;
        self.mode = Mode::Command;
        if self.bad_syntax {
            return String::from_str("302 ERROR BAD SYNTAX\n");
        }
        if self.bad_value {
            return String::from_str("303 ERROR INVALID PARAMETER OR VALUE\n");
        }
        match mode {
            Mode::Settings => {
                self.settings = self.scratch.copy();
                String::from_str("203 OK SETTINGS RECEIVED\n")
            },
            Mode::Audio => String::from_str("203 OK AUDIO INITIALIZED\n"),
            _ => String::from_str("203 OK LOGLEVEL SET\n"),
        }
    }

    /// Takes a line of a block.
    fn block_line(&mut self, line: &str) -> (r: String)
        ensures
            (final(self)@, r@) == after_block_line(old(self)@, line@),
    {
        let trimmed = text::trim(line);
        if text::same(trimmed.as_str(), ".") {
            return self.end_block();
        }
        match speechd::split_key_value(trimmed.as_str()) {
            Some((key, value)) => {
                self.pair(key.as_str(), value.as_str());
            },
            None => {
                self.bad_syntax = true;
            },
        }
        String::new()
    }

    /// Takes a line of a text.
    fn text_line(&mut self, line: &str) -> (r: (String, Next))
        ensures
            (final(self)@, r.0@, r.1@) == after_text_line(old(self)@, line@),
    {
        if speechd::is_end(line) {
            self.mode = Mode::Command;
            if text::chars_of(self.block.text.as_str()).len() == 0 || !self.connected {
                return (String::from_str("301 ERROR CANT SPEAK\n"), Next::Continue);
            }
            let data = self.settings.to_synthesize_data(self.block.text.as_str());
            return (String::new(), Next::Speak(data));
        }
        self.block.push(line);
        (String::new(), Next::Continue)
    }

    /// Takes the next line, and gives the reply to send and what to do then.
    pub fn line(&mut self, line: &str) -> (r: (String, Next))
        ensures
            (final(self)@, r.0@, r.1@) == after_line(old(self)@, line@),
    {
        match self.mode {
            Mode::Command => self.command(line),
            Mode::Text => self.text_line(line),
            _ => (self.block_line(line), Next::Continue),
        }
    }

    /// Takes the end of the input, and gives the reply to send: a block ends
    /// with it, and a text that it cuts off is not spoken.
    pub fn end(&mut self) -> (r: String)
        ensures
            match old(self)@.mode {
                Mode::Command => r@ == Seq::<char>::empty() && final(self)@ == old(self)@,
                Mode::Text => r@ == Seq::<char>::empty() && final(self)@ == old(self)@,
                _ => (final(self)@, r@) == block_ended(old(self)@),
            },
    {
        match self.mode {
            Mode::Command => String::new(),
            Mode::Text => String::new(),
            _ => self.end_block(),
        }
    }

    /// Takes the outcome of connecting to the server, which is its description
    /// or what went wrong, and gives the reply to send.
    pub fn initialized(&mut self, outcome: Result<&InfoData, &str>) -> (r: String)
        ensures
            (final(self)@, r@) == after_init(
                old(self)@,
                match outcome {
                    Ok(info) => Ok(speechd::offered_voices(json::items_view(info.tts@))),
                    Err(message) => Err(message@),
                },
            ),
    {
        match outcome {
            Ok(info) => {
                self.voices = speechd::extract_voices(info);
                self.connected = true;
                String::from_str("299-LOADED SUCCESSFULLY\n299 OK LOADED SUCCESSFULLY\n")
            },
            Err(message) => {
                let mut r = String::from_str("399-");
                r.append(flatten(message).as_str());
                r.append("\n399 ERR CANT INIT MODULE\n");
                r
            },
        }
    }
}

/// The session after some lines.
pub open spec fn after_lines(session: SessionView, lines: Seq<Seq<char>>) -> SessionView
    decreases lines.len(),
{
    if lines.len() == 0 {
        session
    } else {
        after_line(after_lines(session, lines.drop_last()), lines.last()).0
    }
}

/// The settings that the lines of a block come to, if every line is good.
pub open spec fn all_applied(settings: SettingsView, lines: Seq<Seq<char>>) -> Option<SettingsView>
    decreases lines.len(),
{
    if lines.len() == 0 {
        Some(settings)
    } else {
        match (
            all_applied(settings, lines.drop_last()),
            speechd::key_value(text::trimmed(lines.last())),
        ) {
            (Some(before), Some((key, value))) => speechd::applied(before, key, value),
            _ => None,
        }
    }
}

/// A block of settings takes effect as a whole or not at all: after it the
/// settings are those with every line applied, or those before it if some line
/// is bad; and the next line is a command again.
pub proof fn law_settings_block(session: SessionView, lines: Seq<Seq<char>>)
    requires
        session.mode is Command,
        forall|i: int| 0 <= i < lines.len() ==> !speechd::is_terminator(#[trigger] lines[i]),
    ensures
        ({
            let after = after_lines(session, seq!["SET"@] + lines + seq!["."@]);
            &&& after.mode is Command
            &&& after.settings == (match all_applied(session.settings, lines) {
                Some(settings) => settings,
                None => session.settings,
            })
        }),
{
    lemma_block_lines(session, lines);
    let all = seq!["SET"@] + lines + seq!["."@];
    assert(all.drop_last() == seq!["SET"@] + lines);
    assert(all.last() == "."@);
    speechd::lemma_dot();
}

/// The state within a block of settings.
proof fn lemma_block_lines(session: SessionView, lines: Seq<Seq<char>>)
    requires
        session.mode is Command,
        forall|i: int| 0 <= i < lines.len() ==> !speechd::is_terminator(#[trigger] lines[i]),
    ensures
        ({
            let inside = after_lines(session, seq!["SET"@] + lines);
            &&& inside.mode is Settings
            &&& inside.settings == session.settings
            &&& match all_applied(session.settings, lines) {
                Some(settings) => !inside.bad_syntax && !inside.bad_value && inside.scratch
                    == settings,
                None => inside.bad_syntax || inside.bad_value,
            }
        }),
    decreases lines.len(),
{
    let all = seq!["SET"@] + lines;
    if lines.len() == 0 {
        assert(all.drop_last() == Seq::<Seq<char>>::empty());
        assert(all.last() == "SET"@);
        assert(after_lines(session, all.drop_last()) == session);
        lemma_set_line();
    } else {
        let before = lines.drop_last();
        assert forall|i: int| 0 <= i < before.len() implies !speechd::is_terminator(
            #[trigger] before[i],
        ) by {
            assert(before[i] == lines[i]);
        }
        lemma_block_lines(session, before);
        assert(all.drop_last() == seq!["SET"@] + before);
        assert(all.last() == lines.last());
        assert(!speechd::is_terminator(lines[lines.len() - 1]));
    }
}

/// The line `SET` is the command of that name.
proof fn lemma_set_line()
    ensures
        Command::of("SET"@) == Command::SetSettings,
{
    reveal_strlit("SET");
    reveal_strlit("INIT");
    reveal_with_fuel(text::trimmed_end, 2);
    reveal_with_fuel(text::trimmed_start, 2);
    assert(text::trimmed("SET"@) == "SET"@);
    assert("INIT"@.len() == 4);
}

/// How each command is answered, and what follows it. What is said besides is
/// that a command which collects something begins with nothing collected, and
/// that the others leave the conversation as it is.
pub proof fn law_commands_answered(session: SessionView, line: Seq<char>)
    requires
        session.mode is Command,
    ensures
        ({
            let command = text::trimmed(line);
            let (after, reply, next) = after_line(session, line);
            &&& after.settings == session.settings && after.voices == session.voices
            &&& command != "QUIT"@ ==> after.connected == session.connected
            &&& command == "INIT"@ ==> after == session && reply.len() == 0 && next is Init
            &&& command == "SET"@ ==> after.mode is Settings && !after.bad_syntax
                && !after.bad_value && after.scratch == session.settings && reply
                == "203 OK RECEIVING SETTINGS\n"@ && next is Continue
            &&& command == "AUDIO"@ ==> after.mode is Audio && !after.bad_syntax
                && !after.bad_value && reply == "207 OK RECEIVING AUDIO SETTINGS\n"@
                && next is Continue
            &&& command == "LOGLEVEL"@ ==> after.mode is LogLevel && !after.bad_syntax
                && !after.bad_value && reply == "207 OK RECEIVING LOGLEVEL SETTINGS\n"@
                && next is Continue
            &&& command == "SPEAK"@ ==> after.mode is Text && after.text.len() == 0 && after.first
                && reply == "202 OK RECEIVING MESSAGE\n"@ && next is Continue
            &&& command == "LIST VOICES"@ ==> after == session && reply == voice_reply(
                session.voices,
            ) && next is Continue
            &&& command == "STOP"@ ==> after == session && reply == "703 STOP\n"@
                && next is Continue
            &&& command == "PAUSE"@ ==> after == session && reply == "704 PAUSE\n"@
                && next is Continue
            &&& command == "QUIT"@ ==> after.mode is Command && !after.connected && reply
                == "210 OK QUIT\n"@ && next is Quit
            &&& command != "INIT"@ && command != "SET"@ && command != "AUDIO"@ && command
                != "LOGLEVEL"@ && command != "SPEAK"@ && command != "LIST VOICES"@ && command
                != "STOP"@ && command != "PAUSE"@ && command != "QUIT"@ ==> after == session
                && reply == "300 ERR UNKNOWN COMMAND\n"@ && next is Continue
        }),
{
    speechd::lemma_commands_differ();
}

/// The reply to `LIST VOICES` has a line for every voice in order, with its name
/// and its language, and a last line; without a voice there is nothing to list.
pub proof fn law_voices_listed(
    voices: Seq<(Seq<char>, Seq<char>)>,
    name: Seq<char>,
    language: Seq<char>,
)
    ensures
        voice_reply(Seq::empty()) == "304 CANT LIST VOICES\n"@,
        voice_lines(Seq::empty()) == Seq::<char>::empty(),
        voice_lines(voices.push((name, language))) == voice_lines(voices) + "200-"@ + name + "\t"@
            + language + "\tnone\n"@,
        voice_reply(voices.push((name, language))) == voice_lines(voices.push((name, language)))
            + "200 OK VOICE LIST SENT\n"@,
{
    assert(voices.push((name, language)).drop_last() == voices);
}

/// How a block ends: bad syntax is reported before a bad value, and only a block
/// without either takes effect.
pub proof fn law_block_answered(session: SessionView, line: Seq<char>)
    requires
        session.mode is Settings || session.mode is Audio || session.mode is LogLevel,
        text::trimmed(line) == "."@,
    ensures
        ({
            let (after, reply, next) = after_line(session, line);
            &&& after.mode is Command && next is Continue
            &&& after.voices == session.voices && after.connected == session.connected
            &&& session.bad_syntax ==> reply == "302 ERROR BAD SYNTAX\n"@ && after.settings
                == session.settings
            &&& !session.bad_syntax && session.bad_value ==> reply
                == "303 ERROR INVALID PARAMETER OR VALUE\n"@ && after.settings == session.settings
            &&& !session.bad_syntax && !session.bad_value ==> (match session.mode {
                Mode::Settings => reply == "203 OK SETTINGS RECEIVED\n"@ && after.settings
                    == session.scratch,
                Mode::Audio => reply == "203 OK AUDIO INITIALIZED\n"@ && after.settings
                    == session.settings,
                _ => reply == "203 OK LOGLEVEL SET\n"@ && after.settings == session.settings,
            })
        }),
{
}

/// What a line within a block comes to: it is not answered, and it is noted if it
/// is not of the form `key=value`, or if its key or value is bad.
pub proof fn law_block_line(
    session: SessionView,
    line: Seq<char>,
    key: Seq<char>,
    value: Seq<char>,
)
    requires
        session.mode is Settings || session.mode is Audio || session.mode is LogLevel,
        text::trimmed(line) != "."@,
    ensures
        ({
            let (after, reply, next) = after_line(session, line);
            &&& reply.len() == 0 && next is Continue && after.mode == session.mode
            &&& after.settings == session.settings
            &&& !text::trimmed(line).contains('=') ==> after == (SessionView {
                bad_syntax: true,
                ..session
            })
            &&& text::trimmed(line) == key + seq!['='] + value && !key.contains('=') ==> (
            match session.mode {
                Mode::Settings => match speechd::applied(session.scratch, key, value) {
                    Some(scratch) => after == (SessionView { scratch, ..session }),
                    None => after == (SessionView { bad_value: true, ..session }),
                },
                Mode::Audio => after == (SessionView {
                    bad_value: session.bad_value || (key == "audio_output_method"@ && value
                        != "server"@),
                    ..session
                }),
                _ => after == (SessionView {
                    bad_value: session.bad_value || key != "log_level"@ || text::i32_value(
                        value,
                    ) is None,
                    ..session
                }),
            })
        }),
{
    let trimmed = text::trimmed(line);
    let stop = |c: char| c == '=';
    text::lemma_first_where_is(trimmed, stop);
    let n = text::first_where(trimmed, stop);
    if n < trimmed.len() {
        assert(trimmed.contains(trimmed[n]));
    }
    if trimmed == key + seq!['='] + value && !key.contains('=') {
        let k = key.len() as int;
        assert(trimmed[k] == '=');
        assert forall|i: int| 0 <= i < k implies trimmed[i] != '=' by {
            assert(trimmed[i] == key[i]);
            assert(key.contains(key[i]));
        }
        text::lemma_first_where(trimmed, stop, k);
        assert(trimmed.take(k) == key);
        assert(trimmed.skip(k + 1) == value);
    }
}

/// A text is spoken as it was sent, in the voice and the language that are set:
/// its lines, each with a dot put before a leading dot, follow `SPEAK`, and a dot
/// on its own ends them. Without any text or without a server nothing is spoken.
pub proof fn law_text_spoken(session: SessionView, lines: Seq<Seq<char>>)
    requires
        session.mode is Command,
        forall|i: int|
            0 <= i < lines.len() ==> !speechd::is_terminator(#[trigger] lines[i]) || lines[i][0]
                == '.',
    ensures
        ({
            let inside = after_lines(
                session,
                seq!["SPEAK"@] + lines.map_values(|l: Seq<char>| speechd::stuffed(l)),
            );
            let (after, reply, next) = after_line(inside, "."@);
            let text = text::joined(lines, "\n"@);
            &&& inside.mode is Text
            &&& after.mode is Command
            &&& after.settings == session.settings
            &&& text.len() > 0 && session.connected ==> reply.len() == 0 && (
            next matches NextView::Speak { text: spoken, voice } && spoken == text && (
            if session.settings.synthesis_voice is None && session.settings.language is None {
                voice is None
            } else {
                voice matches Some(v) && v.name == session.settings.synthesis_voice && v.language
                    == session.settings.language && v.speaker is None
            }))
            &&& text.len() == 0 || !session.connected ==> reply == "301 ERROR CANT SPEAK\n"@
                && next is Continue
        }),
{
    lemma_text_lines(session, lines);
    speechd::lemma_dot();
}

/// The state within a text.
proof fn lemma_text_lines(session: SessionView, lines: Seq<Seq<char>>)
    requires
        session.mode is Command,
        forall|i: int|
            0 <= i < lines.len() ==> !speechd::is_terminator(#[trigger] lines[i]) || lines[i][0]
                == '.',
    ensures
        ({
            let inside = after_lines(
                session,
                seq!["SPEAK"@] + lines.map_values(|l: Seq<char>| speechd::stuffed(l)),
            );
            &&& inside.mode is Text
            &&& inside.settings == session.settings
            &&& inside.connected == session.connected
            &&& inside.text == text::joined(lines, "\n"@)
            &&& inside.first == (lines.len() == 0)
        }),
    decreases lines.len(),
{
    let all = seq!["SPEAK"@] + lines.map_values(|l: Seq<char>| speechd::stuffed(l));
    if lines.len() == 0 {
        assert(all.drop_last() == Seq::<Seq<char>>::empty());
        assert(all.last() == "SPEAK"@);
        assert(after_lines(session, all.drop_last()) == session);
        lemma_speak_line();
    } else {
        let before = lines.drop_last();
        let last = lines.last();
        assert forall|i: int| 0 <= i < before.len() implies !speechd::is_terminator(
            #[trigger] before[i],
        ) || before[i][0] == '.' by {
            assert(before[i] == lines[i]);
        }
        lemma_text_lines(session, before);
        assert(all.drop_last() == seq!["SPEAK"@] + before.map_values(
            |l: Seq<char>| speechd::stuffed(l),
        ));
        assert(all.last() == speechd::stuffed(last));
        assert(lines[lines.len() - 1] == last);
        speechd::lemma_stuffed(last);
        text::lemma_joined_push(before, last, "\n"@);
        assert(before.push(last) == lines);
    }
}

/// The line `SPEAK` is the command of that name.
proof fn lemma_speak_line()
    ensures
        Command::of("SPEAK"@) == Command::Speak,
{
    speechd::lemma_commands_differ();
    reveal_strlit("SPEAK");
    text::law_trimmed(Seq::empty(), "SPEAK"@, Seq::empty());
    assert(Seq::<char>::empty() + "SPEAK"@ + Seq::<char>::empty() == "SPEAK"@);
}

/// A server that describes itself is connected, and its voices are those that can
/// be listed; a failure is reported on one line and changes nothing.
pub proof fn law_initialized(
    session: SessionView,
    voices: Seq<(Seq<char>, Seq<char>)>,
    message: Seq<char>,
)
    ensures
        ({
            let (after, reply) = after_init(session, Ok(voices));
            &&& after == (SessionView { voices, connected: true, ..session })
            &&& reply == "299-LOADED SUCCESSFULLY\n299 OK LOADED SUCCESSFULLY\n"@
        }),
        ({
            let (after, reply) = after_init(session, Err(message));
            &&& after == session
            &&& exists|shown: Seq<char>|
                reply == #[trigger] ("399-"@ + shown) + "\n399 ERR CANT INIT MODULE\n"@
                    && shown.len() == message.len() && !shown.contains('\n') && (
                !message.contains('\n') ==> shown == message) && (forall|i: int|
                    0 <= i < message.len() ==> #[trigger] shown[i] == (if message[i] == '\n' {
                        ' '
                    } else {
                        message[i]
                    }))
        }),
{
    let shown = one_line(message);
    assert forall|i: int| 0 <= i < shown.len() implies shown[i] != '\n' by {}
    if !message.contains('\n') {
        assert forall|i: int| 0 <= i < shown.len() implies shown[i] == message[i] by {
            assert(message.contains(message[i]));
        }
        assert(shown == message);
    }
    assert(after_init(session, Err(message)).1 == ("399-"@ + shown)
        + "\n399 ERR CANT INIT MODULE\n"@);
}

} // verus!
