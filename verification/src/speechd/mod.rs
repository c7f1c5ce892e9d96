//! A speech-dispatcher output module.
//!
//! speech-dispatcher launches the module as a subprocess and talks to it over
//! its standard input and output in a line-oriented protocol; the module
//! forwards the speech requests to a server. This module reads the protocol's
//! commands and settings.

use vstd::prelude::*;
use vstd::string::*;
use crate::event;
use crate::event::{InfoData, SynthesizeData, SynthesizeVoice, VoiceView};
use crate::json;
use crate::json::{Json, JsonView};
use crate::say;
use crate::text;

pub mod audio;
pub mod session;

verus! {

broadcast use {json::lemma_array_view, json::lemma_object_view};

/// A voice offered by the connected server.
#[derive(Debug, Clone, PartialEq, Eq)]
pub struct Voice {
    /// Voice name, passed back to the server on `SPEAK`.
    pub name: String,
    /// Voice language, or `"none"` if the server didn't report one.
    pub language: String,
}

/// The names and languages of some voices.
pub open spec fn voices_view(voices: Seq<Voice>) -> Seq<(Seq<char>, Seq<char>)> {
    voices.map_values(|v: Voice| (v.name@, v.language@))
}

/// The first language of a voice, or `"none"`.
pub open spec fn first_language(voice: JsonView) -> Seq<char> {
    match say::get(voice, "languages"@) {
        Some(JsonView::Array(languages)) => if languages.len() > 0 {
            match languages[0] {
                JsonView::Text(language) => language,
                _ => "none"@,
            }
        } else {
            "none"@
        },
        _ => "none"@,
    }
}

/// The name and first language of each voice that has a name.
pub open spec fn named_voices(voices: Seq<JsonView>) -> Seq<(Seq<char>, Seq<char>)>
    decreases voices.len(),
{
    if voices.len() == 0 {
        Seq::empty()
    } else {
        match say::get(voices.last(), "name"@) {
            Some(JsonView::Text(name)) => named_voices(voices.drop_last()).push(
                (name, first_language(voices.last())),
            ),
            _ => named_voices(voices.drop_last()),
        }
    }
}

/// The voices that the programs of a server offer.
pub open spec fn offered_voices(programs: Seq<JsonView>) -> Seq<(Seq<char>, Seq<char>)>
    decreases programs.len(),
{
    if programs.len() == 0 {
        Seq::empty()
    } else {
        offered_voices(programs.drop_last()) + named_voices(say::voices_of(programs.last()))
    }
}

/// Reads a voice, if it has a name.
fn read_voice(voice: &Json) -> (r: Option<Voice>)
    ensures
        match r {
            Some(v) => say::get(voice@, "name"@) == Some(JsonView::Text(v.name@)) && v.language@
                == first_language(voice@),
            None => !(say::get(voice@, "name"@) matches Some(JsonView::Text(_))),
        },
{
    match say::get_member(voice, "name") {
        Some(Json::Text(name)) => {
            let language = match say::get_member(voice, "languages") {
                Some(Json::Array(languages)) => if languages.len() > 0 {
                    match &languages[0] {
                        Json::Text(language) => language.clone(),
                        _ => String::from_str("none"),
                    }
                } else {
                    String::from_str("none")
                },
                _ => String::from_str("none"),
            };
            Some(Voice { name: name.clone(), language })
        },
        _ => None,
    }
}

/// Extracts the flat voice list from a `describe` response.
///
/// Each voice is given with the first of its languages; entries without a name
/// are skipped.
pub fn extract_voices(info: &InfoData) -> (r: Vec<Voice>)
    ensures
        voices_view(r@) == offered_voices(json::items_view(info.tts@)),
{
    let ghost programs = json::items_view(info.tts@);
    let mut r: Vec<Voice> = Vec::new();
    let mut i: usize = 0;
    proof {
        assert(voices_view(r@) == offered_voices(programs.take(0)));
    }
    while i < info.tts.len()
        invariant
            i <= info.tts@.len(),
            programs == json::items_view(info.tts@),
            voices_view(r@) == offered_voices(programs.take(i as int)),
        decreases info.tts@.len() - i,
    {
        let program = &info.tts[i];
        let ghost before = voices_view(r@);
        proof {
            assert(programs.take(i + 1).drop_last() == programs.take(i as int));
            assert(programs.take(i + 1).last() == program@);
        }
        if let Some(Json::Array(voices)) = say::get_member(program, "voices") {
            let ghost views = json::items_view(voices@);
            let mut k: usize = 0;
            proof {
                assert(before + named_voices(views.take(0)) == before);
            }
            while k < voices.len()
                invariant
                    k <= voices@.len(),
                    views == json::items_view(voices@),
                    voices_view(r@) == before + named_voices(views.take(k as int)),
                decreases voices@.len() - k,
            {
                let ghost listed = voices_view(r@);
                proof {
                    assert(views.take(k + 1).drop_last() == views.take(k as int));
                    assert(views.take(k + 1).last() == voices@[k as int]@);
                }
                if let Some(voice) = read_voice(&voices[k]) {
                    let ghost view = (voice.name@, voice.language@);
                    r.push(voice);
                    proof {
                        assert(voices_view(r@) == listed.push(view));
                        assert(before + named_voices(views.take(k as int)).push(view) == (before
                            + named_voices(views.take(k as int))).push(view));
                    }
                }
                k = k + 1;
            }
            proof {
                assert(views.take(k as int) == views);
            }
        } else {
            proof {
                assert(before + named_voices(say::voices_of(program@)) == before);
            }
        }
        i = i + 1;
    }
    proof {
        assert(programs.take(i as int) == programs);
    }
    r
}

/// The `CraneURI` directive is present but its value isn't a quoted string.
#[derive(Debug, Clone, Copy, PartialEq, Eq, Structural)]
pub struct CraneUriError;

impl CraneUriError {
    /// The message for this error.
    pub fn message(&self) -> (r: &'static str)
        ensures
            r@ == "CraneURI directive value must be a quoted string"@,
    {
        "CraneURI directive value must be a quoted string"
    }
}

/// What stands between quotation marks, if `s` is a quoted string.
pub open spec fn unquoted(s: Seq<char>) -> Option<Seq<char>> {
    match text::after_prefix(s, "\""@) {
        Some(rest) => text::before_suffix(rest, "\""@),
        None => None,
    }
}

/// The value of the `CraneURI` directive, if a line of a configuration file is
/// one: `None` for another line, and within `Some` the value if it is a quoted
/// string.
pub open spec fn uri_directive(line: Seq<char>) -> Option<Option<Seq<char>>> {
    match text::after_prefix(text::trimmed(line), "CraneURI"@) {
        Some(rest) => if rest.len() > 0 && !text::is_space(rest[0]) {
            None
        } else {
            Some(unquoted(text::trimmed(rest)))
        },
        None => None,
    }
}

/// The value of the first `CraneURI` directive of a configuration file.
pub open spec fn configured_uri(config: Seq<char>) -> Option<Option<Seq<char>>>
    decreases config.len(),
{
    let n = text::first_where(config, |c: char| c == '\n');
    let directive = uri_directive(config.take(n));
    proof {
        text::lemma_first_where_is(config, |c: char| c == '\n');
    }
    if directive is Some {
        directive
    } else if n < config.len() {
        configured_uri(config.skip(n + 1))
    } else {
        None
    }
}

/// Reads a line of a configuration file.
fn read_directive(line: &str) -> (r: Option<Result<String, CraneUriError>>)
    ensures
        uri_directive(line@) == (match r {
            None => None,
            Some(Ok(uri)) => Some(Some(uri@)),
            Some(Err(_)) => Some(None),
        }),
{
    let trimmed = text::trim(line);
    match text::strip_prefix(trimmed.as_str(), "CraneURI") {
        None => None,
        Some(rest) => {
            let chars = text::chars_of(rest.as_str());
            if chars.len() > 0 && !text::space(chars[0]) {
                return None;
            }
            let value = text::trim(rest.as_str());
            match text::strip_prefix(value.as_str(), "\"") {
                None => Some(Err(CraneUriError)),
                Some(open) => match text::strip_suffix(open.as_str(), "\"") {
                    Some(uri) => Some(Ok(uri)),
                    None => Some(Err(CraneUriError)),
                },
            }
        },
    }
}

/// Parses the `CraneURI "..."` directive from the module's config file: the URI
/// of the server to connect to.
///
/// Returns `None` if no `CraneURI` line is present, or `Some(Err(CraneUriError))`
/// if one is present but malformed, so callers can tell the two cases apart.
pub fn parse_crane_uri(config: &str) -> (r: Option<Result<String, CraneUriError>>)
    ensures
        configured_uri(config@) == (match r {
            None => None,
            Some(Ok(uri)) => Some(Some(uri@)),
            Some(Err(_)) => Some(None),
        }),
{
    let chars = text::chars_of(config);
    let mut start: usize = 0;
    proof {
        assert(config@.skip(0) == config@);
    }
    loop
        invariant
            start <= chars@.len(),
            chars@ == config@,
            configured_uri(config@) == configured_uri(config@.skip(start as int)),
        decreases chars@.len() - start,
    {
        let ghost rest = config@.skip(start as int);
        let end = text::find_char(&chars, '\n', start);
        let line = text::slice_text(&chars, start, end);
        proof {
            assert forall|k: int| 0 <= k < end - start implies rest[k] != '\n' by {
                assert(rest[k] == chars@[start + k]);
            }
            if end < chars@.len() {
                assert(rest[end - start] == chars@[end as int]);
            }
            text::lemma_first_where(rest, |c: char| c == '\n', end - start);
            assert(line@ == rest.take(end - start));
        }
        let directive = read_directive(line.as_str());
        if directive.is_some() {
            return directive;
        }
        if end == chars.len() {
            return None;
        }
        proof {
            assert(rest.skip(end - start + 1) == config@.skip(end + 1));
        }
        start = end + 1;
    }
}

/// A command line.
#[derive(Debug, Clone, Copy, PartialEq, Eq, Structural)]
pub enum Command {
    /// `INIT` -- connect to the server and confirm it responds.
    Init,
    /// `SET` -- receive a multiline block of `key=value` settings.
    SetSettings,
    /// `AUDIO` -- receive a multiline block of audio output settings.
    Audio,
    /// `LOGLEVEL` -- receive a multiline block setting the log level.
    LogLevel,
    /// `SPEAK` -- receive text and synthesize it.
    Speak,
    /// `LIST VOICES` -- report the voices of the server.
    ListVoices,
    /// `STOP` -- abort in-flight synthesis.
    Stop,
    /// `PAUSE` -- abort in-flight synthesis (same handling as `STOP`).
    Pause,
    /// `QUIT` -- disconnect and terminate the module.
    Quit,
    /// Any other command.
    Unknown,
}

impl Command {
    /// The command that a line stands for.
    pub open spec fn of(line: Seq<char>) -> Command {
        let line = text::trimmed(line);
        if line == "INIT"@ {
            Command::Init
        } else if line == "SET"@ {
            Command::SetSettings
        } else if line == "AUDIO"@ {
            Command::Audio
        } else if line == "LOGLEVEL"@ {
            Command::LogLevel
        } else if line == "SPEAK"@ {
            Command::Speak
        } else if line == "LIST VOICES"@ {
            Command::ListVoices
        } else if line == "STOP"@ {
            Command::Stop
        } else if line == "PAUSE"@ {
            Command::Pause
        } else if line == "QUIT"@ {
            Command::Quit
        } else {
            Command::Unknown
        }
    }

    /// Parses a single command line.
    pub fn parse(line: &str) -> (r: Self)
        ensures
            r == Command::of(line@),
            r is Init <==> text::trimmed(line@) == "INIT"@,
            r is SetSettings <==> text::trimmed(line@) == "SET"@,
            r is Audio <==> text::trimmed(line@) == "AUDIO"@,
            r is LogLevel <==> text::trimmed(line@) == "LOGLEVEL"@,
            r is Speak <==> text::trimmed(line@) == "SPEAK"@,
            r is ListVoices <==> text::trimmed(line@) == "LIST VOICES"@,
            r is Stop <==> text::trimmed(line@) == "STOP"@,
            r is Pause <==> text::trimmed(line@) == "PAUSE"@,
            r is Quit <==> text::trimmed(line@) == "QUIT"@,
    {
        proof {
            lemma_commands_differ();
        }
        let trimmed = text::trim(line);
        let s = trimmed.as_str();
        if text::same(s, "INIT") {
            Command::Init
        } else if text::same(s, "SET") {
            Command::SetSettings
        } else if text::same(s, "AUDIO") {
            Command::Audio
        } else if text::same(s, "LOGLEVEL") {
            Command::LogLevel
        } else if text::same(s, "SPEAK") {
            Command::Speak
        } else if text::same(s, "LIST VOICES") {
            Command::ListVoices
        } else if text::same(s, "STOP") {
            Command::Stop
        } else if text::same(s, "PAUSE") {
            Command::Pause
        } else if text::same(s, "QUIT") {
            Command::Quit
        } else {
            Command::Unknown
        }
    }
}

/// The commands differ from one another: in length, or else in a character.
pub proof fn lemma_commands_differ()
    ensures
        "INIT"@.len() == 4,
        "SET"@.len() == 3,
        "AUDIO"@.len() == 5,
        "LOGLEVEL"@.len() == 8,
        "SPEAK"@.len() == 5,
        "LIST VOICES"@.len() == 11,
        "STOP"@.len() == 4,
        "PAUSE"@.len() == 5,
        "QUIT"@.len() == 4,
        "INIT"@ != "STOP"@,
        "INIT"@ != "QUIT"@,
        "STOP"@ != "QUIT"@,
        "AUDIO"@ != "SPEAK"@,
        "AUDIO"@ != "PAUSE"@,
        "SPEAK"@ != "PAUSE"@,
{
    reveal_strlit("INIT");
    reveal_strlit("SET");
    reveal_strlit("AUDIO");
    reveal_strlit("LOGLEVEL");
    reveal_strlit("SPEAK");
    reveal_strlit("LIST VOICES");
    reveal_strlit("STOP");
    reveal_strlit("PAUSE");
    reveal_strlit("QUIT");
    assert("INIT"@[0] != "STOP"@[0]);
    assert("INIT"@[0] != "QUIT"@[0]);
    assert("STOP"@[0] != "QUIT"@[0]);
    assert("AUDIO"@[0] != "SPEAK"@[0]);
    assert("AUDIO"@[0] != "PAUSE"@[0]);
    assert("SPEAK"@[0] != "PAUSE"@[0]);
}

/// A request to interrupt synthesis.
///
/// Synthesis can't be resumed, so `STOP` and `PAUSE` abort it identically;
/// only the reply differs.
#[derive(Debug, Clone, Copy, PartialEq, Eq, Structural)]
pub enum Interrupt {
    /// `STOP` was sent.
    Stop,
    /// `PAUSE` was sent.
    Pause,
}

impl Interrupt {
    /// The reply to an interrupt.
    pub open spec fn reply_text(self) -> Seq<char> {
        match self {
            Interrupt::Stop => "703 STOP\n"@,
            Interrupt::Pause => "704 PAUSE\n"@,
        }
    }

    /// The reply line for this interrupt.
    pub fn reply(self) -> (r: &'static str)
        ensures
            r@ == self.reply_text(),
            self is Stop ==> r@ == "703 STOP\n"@,
            self is Pause ==> r@ == "704 PAUSE\n"@,
    {
        match self {
            Interrupt::Stop => "703 STOP\n",
            Interrupt::Pause => "704 PAUSE\n",
        }
    }
}

/// Per-utterance settings sent by the `SET` command.
#[derive(Debug, Clone, PartialEq, Eq)]
pub struct Settings {
    /// Generic voice type (`male1`, `female1`, ...).
    pub voice: Option<String>,
    /// The server-side voice name to request.
    pub synthesis_voice: Option<String>,
    /// Language code, or `None` for the server's default.
    pub language: Option<String>,
    /// Speech rate, usually -100 to 100.
    pub rate: Option<i32>,
    /// Pitch, usually -100 to 100.
    pub pitch: Option<i32>,
    /// Volume, usually -100 to 100.
    pub volume: Option<i32>,
}

/// The content of [`Settings`].
pub struct SettingsView {
    pub voice: Option<Seq<char>>,
    pub synthesis_voice: Option<Seq<char>>,
    pub language: Option<Seq<char>>,
    pub rate: Option<i32>,
    pub pitch: Option<i32>,
    pub volume: Option<i32>,
}

impl View for Settings {
    type V = SettingsView;

    open spec fn view(&self) -> SettingsView {
        SettingsView {
            voice: text::opt_text(self.voice),
            synthesis_voice: text::opt_text(self.synthesis_voice),
            language: text::opt_text(self.language),
            rate: self.rate,
            pitch: self.pitch,
            volume: self.volume,
        }
    }
}

/// Settings of which none is set.
pub open spec fn no_settings() -> SettingsView {
    SettingsView {
        voice: None,
        synthesis_voice: None,
        language: None,
        rate: None,
        pitch: None,
        volume: None,
    }
}

impl Default for Settings {
    fn default() -> (r: Self)
        ensures
            r@ == no_settings(),
            r.voice is None && r.synthesis_voice is None && r.language is None,
            r.rate is None && r.pitch is None && r.volume is None,
    {
        Settings {
            voice: None,
            synthesis_voice: None,
            language: None,
            rate: None,
            pitch: None,
            volume: None,
        }
    }
}

/// A text setting; `NULL` clears it.
pub open spec fn text_setting(value: Seq<char>) -> Option<Seq<char>> {
    if value == "NULL"@ {
        None
    } else {
        Some(value)
    }
}

/// An integer setting; `NULL` clears it, and any other text that is not an
/// integer is no value.
pub open spec fn integer_setting(value: Seq<char>) -> Option<Option<i32>> {
    if value == "NULL"@ {
        Some(None)
    } else if text::i32_value(value) is Some {
        Some(text::i32_value(value))
    } else {
        None
    }
}

/// A setting that speech-dispatcher always sends, and that has no effect here.
pub open spec fn is_ignored_setting(key: Seq<char>) -> bool {
    key == "pitch_range"@ || key == "punctuation_mode"@ || key == "spelling_mode"@ || key
        == "cap_let_recogn"@
}

/// The settings once `key` has been set to `value`, if there is such a setting
/// and it can have that value.
pub open spec fn applied(settings: SettingsView, key: Seq<char>, value: Seq<char>) -> Option<
    SettingsView,
> {
    if key == "voice"@ {
        Some(SettingsView { voice: text_setting(value), ..settings })
    } else if key == "synthesis_voice"@ {
        Some(SettingsView { synthesis_voice: text_setting(value), ..settings })
    } else if key == "language"@ {
        Some(SettingsView { language: text_setting(value), ..settings })
    } else if key == "rate"@ {
        match integer_setting(value) {
            Some(rate) => Some(SettingsView { rate, ..settings }),
            None => None,
        }
    } else if key == "pitch"@ {
        match integer_setting(value) {
            Some(pitch) => Some(SettingsView { pitch, ..settings }),
            None => None,
        }
    } else if key == "volume"@ {
        match integer_setting(value) {
            Some(volume) => Some(SettingsView { volume, ..settings }),
            None => None,
        }
    } else if is_ignored_setting(key) {
        Some(settings)
    } else {
        None
    }
}

/// Reads a text setting.
fn read_text(value: &str) -> (r: Option<String>)
    ensures
        text::opt_text(r) == text_setting(value@),
{
    if text::same(value, "NULL") {
        None
    } else {
        Some(String::from_str(value))
    }
}

/// Reads an integer setting.
fn read_integer(value: &str) -> (r: Option<Option<i32>>)
    ensures
        r == integer_setting(value@),
{
    if text::same(value, "NULL") {
        return Some(None);
    }
    match text::parse_i32(value) {
        Some(n) => Some(Some(n)),
        None => None,
    }
}

impl Settings {
    /// Copies the settings.
    pub fn copy(&self) -> (r: Self)
        ensures
            r@ == self@,
            text::opt_text(r.voice) == text::opt_text(self.voice),
            text::opt_text(r.synthesis_voice) == text::opt_text(self.synthesis_voice),
            text::opt_text(r.language) == text::opt_text(self.language),
            r.rate == self.rate,
            r.pitch == self.pitch,
            r.volume == self.volume,
    {
        Settings {
            voice: text::copy_opt(&self.voice),
            synthesis_voice: text::copy_opt(&self.synthesis_voice),
            language: text::copy_opt(&self.language),
            rate: self.rate,
            pitch: self.pitch,
            volume: self.volume,
        }
    }

    /// Applies one `key=value` pair from a `SET` block.
    ///
    /// A value of `"NULL"` clears the field. Returns `false` if `key` isn't a
    /// recognized setting, or if `value` isn't a valid integer for an
    /// integer-valued key; the settings are unchanged then.
    pub fn apply(&mut self, key: &str, value: &str) -> (r: bool)
        ensures
            r == applied(old(self)@, key@, value@) is Some,
            final(self)@ == (match applied(old(self)@, key@, value@) {
                Some(settings) => settings,
                None => old(self)@,
            }),
            key@ == "voice"@ ==> r && text::opt_text(final(self).voice) == (if value@ == "NULL"@ {
                None
            } else {
                Some(value@)
            }),
            key@ != "voice"@ ==> final(self).voice == old(self).voice,
            key@ == "synthesis_voice"@ ==> r && text::opt_text(final(self).synthesis_voice) == (
            if value@ == "NULL"@ {
                None
            } else {
                Some(value@)
            }),
            key@ != "synthesis_voice"@ ==> final(self).synthesis_voice == old(
                self,
            ).synthesis_voice,
            key@ == "language"@ ==> r && text::opt_text(final(self).language) == (if value@
                == "NULL"@ {
                None
            } else {
                Some(value@)
            }),
            key@ != "language"@ ==> final(self).language == old(self).language,
            key@ == "rate"@ ==> (if value@ == "NULL"@ {
                r && final(self).rate is None
            } else {
                match text::i32_value(value@) {
                    Some(n) => r && final(self).rate == Some(n),
                    None => !r && final(self).rate == old(self).rate,
                }
            }),
            key@ != "rate"@ ==> final(self).rate == old(self).rate,
            key@ == "pitch"@ ==> (if value@ == "NULL"@ {
                r && final(self).pitch is None
            } else {
                match text::i32_value(value@) {
                    Some(n) => r && final(self).pitch == Some(n),
                    None => !r && final(self).pitch == old(self).pitch,
                }
            }),
            key@ != "pitch"@ ==> final(self).pitch == old(self).pitch,
            key@ == "volume"@ ==> (if value@ == "NULL"@ {
                r && final(self).volume is None
            } else {
                match text::i32_value(value@) {
                    Some(n) => r && final(self).volume == Some(n),
                    None => !r && final(self).volume == old(self).volume,
                }
            }),
            key@ != "volume"@ ==> final(self).volume == old(self).volume,
            key@ == "pitch_range"@ || key@ == "punctuation_mode"@ || key@ == "spelling_mode"@ || key@
                == "cap_let_recogn"@ ==> r,
            r ==> key@ == "voice"@ || key@ == "synthesis_voice"@ || key@ == "language"@ || key@
                == "rate"@ || key@ == "pitch"@ || key@ == "volume"@ || key@ == "pitch_range"@
                || key@ == "punctuation_mode"@ || key@ == "spelling_mode"@ || key@
                == "cap_let_recogn"@,
    {
        proof {
            lemma_keys_differ();
        }
        if text::same(key, "voice") {
            self.voice = read_text(value);
            return true;
        }
        if text::same(key, "synthesis_voice") {
            self.synthesis_voice = read_text(value);
            return true;
        }
        if text::same(key, "language") {
            self.language = read_text(value);
            return true;
        }
        if text::same(key, "rate") {
            return match read_integer(value) {
                Some(rate) => {
                    self.rate = rate;
                    true
                },
                None => false,
            };
        }
        if text::same(key, "pitch") {
            return match read_integer(value) {
                Some(pitch) => {
                    self.pitch = pitch;
                    true
                },
                None => false,
            };
        }
        if text::same(key, "volume") {
            return match read_integer(value) {
                Some(volume) => {
                    self.volume = volume;
                    true
                },
                None => false,
            };
        }
        text::same(key, "pitch_range") || text::same(key, "punctuation_mode") || text::same(
            key,
            "spelling_mode",
        ) || text::same(key, "cap_let_recogn")
    }

    /// Builds the `synthesize` request for `text` under these settings.
    ///
    /// The voice and the language map onto the request's voice specification;
    /// rate, pitch and volume have no equivalent and are not sent.
    pub fn to_synthesize_data(&self, text: &str) -> (r: SynthesizeData)
        ensures
            r.text@ == text@,
            r.voice is None <==> self.synthesis_voice is None && self.language is None,
            r.voice matches Some(v) ==> text::opt_text(v.name) == text::opt_text(
                self.synthesis_voice,
            ),
            r.voice matches Some(v) ==> text::opt_text(v.language) == text::opt_text(self.language),
            r.voice matches Some(v) ==> v.speaker is None,
            event::opt_voice(r.voice) == settings_voice(self@),
    {
        if self.synthesis_voice.is_none() && self.language.is_none() {
            return SynthesizeData::new(text);
        }
        let mut voice = match &self.synthesis_voice {
            Some(name) => SynthesizeVoice::with_name(name.as_str()),
            None => SynthesizeVoice::new(),
        };
        voice.language = text::copy_opt(&self.language);
        SynthesizeData::new(text).with_voice(voice)
    }
}

/// The settings have different names.
proof fn lemma_keys_differ()
    ensures
        "voice"@.len() == 5,
        "synthesis_voice"@.len() == 15,
        "language"@.len() == 8,
        "rate"@.len() == 4,
        "pitch"@.len() == 5,
        "volume"@.len() == 6,
        "pitch_range"@.len() == 11,
        "punctuation_mode"@.len() == 16,
        "spelling_mode"@.len() == 13,
        "cap_let_recogn"@.len() == 14,
        "voice"@ != "pitch"@,
{
    reveal_strlit("voice");
    reveal_strlit("synthesis_voice");
    reveal_strlit("language");
    reveal_strlit("rate");
    reveal_strlit("pitch");
    reveal_strlit("volume");
    reveal_strlit("pitch_range");
    reveal_strlit("punctuation_mode");
    reveal_strlit("spelling_mode");
    reveal_strlit("cap_let_recogn");
    assert("voice"@[0] != "pitch"@[0]);
}

/// The voice specification under some settings.
pub open spec fn settings_voice(settings: SettingsView) -> Option<VoiceView> {
    if settings.synthesis_voice is None && settings.language is None {
        None
    } else {
        Some(
            VoiceView {
                name: settings.synthesis_voice,
                language: settings.language,
                speaker: None,
            },
        )
    }
}

/// The key and the value of a line of a block, before and after its first `=`.
pub open spec fn key_value(line: Seq<char>) -> Option<(Seq<char>, Seq<char>)> {
    let n = text::first_where(line, |c: char| c == '=');
    if n < line.len() {
        Some((line.take(n), line.skip(n + 1)))
    } else {
        None
    }
}

/// Splits a line of a block into key and value.
pub fn split_key_value(line: &str) -> (r: Option<(String, String)>)
    ensures
        key_value(line@) == (match r {
            Some((key, value)) => Some((key@, value@)),
            None => None,
        }),
        match r {
            Some((key, value)) => line@ == key@ + seq!['='] + value@ && !key@.contains('='),
            None => !line@.contains('='),
        },
{
    let chars = text::chars_of(line);
    let n = text::find_char(&chars, '=', 0);
    proof {
        text::lemma_first_where(line@, |c: char| c == '=', n as int);
    }
    if n == chars.len() {
        return None;
    }
    let key = text::slice_text(&chars, 0, n);
    let value = text::slice_text(&chars, n + 1, chars.len());
    proof {
        assert(key@ == line@.take(n as int));
        assert(value@ == line@.skip(n + 1));
        assert(line@ == key@ + seq!['='] + value@);
    }
    Some((key, value))
}

/// A line ends a block or a text: a dot on its own.
pub open spec fn is_terminator(line: Seq<char>) -> bool {
    text::trimmed(line) == "."@
}

/// A line of a text without the dot that was put before a leading dot.
pub open spec fn unstuffed(line: Seq<char>) -> Seq<char> {
    match text::after_prefix(line, "."@) {
        Some(rest) => rest,
        None => line,
    }
}

/// A line of a text with a dot put before a leading dot.
pub open spec fn stuffed(line: Seq<char>) -> Seq<char> {
    if line.len() > 0 && line[0] == '.' {
        "."@ + line
    } else {
        line
    }
}

/// The position of the first line that ends a text, or the number of lines.
pub open spec fn terminator_position(lines: Seq<Seq<char>>) -> int
    decreases lines.len(),
{
    if lines.len() == 0 || is_terminator(lines[0]) {
        0
    } else {
        1 + terminator_position(lines.drop_first())
    }
}

/// The text of some lines.
pub open spec fn text_of_lines(lines: Seq<Seq<char>>) -> Seq<char> {
    text::joined(lines.map_values(|l: Seq<char>| unstuffed(l)), "\n"@)
}

/// The text that some lines hold up to the first one that ends it, if one does.
pub open spec fn text_block(lines: Seq<Seq<char>>) -> Option<Seq<char>> {
    if terminator_position(lines) < lines.len() {
        Some(text_of_lines(lines.take(terminator_position(lines))))
    } else {
        None
    }
}

/// The lines of a `SPEAK` message so far.
#[derive(Debug, Clone)]
pub struct TextBlock {
    /// The text so far.
    pub text: String,
    /// Whether no line has come yet.
    pub first: bool,
}

impl TextBlock {
    /// The lines that have come make up the text so far.
    pub open spec fn holds(&self, lines: Seq<Seq<char>>) -> bool {
        self.text@ == text_of_lines(lines) && self.first == (lines.len() == 0)
    }

    /// Begins a message.
    pub fn new() -> (r: Self)
        ensures
            r.holds(Seq::empty()),
            r.text@ == Seq::<char>::empty(),
            r.first,
    {
        let r = TextBlock { text: String::new(), first: true };
        proof {
            assert(Seq::<Seq<char>>::empty().map_values(|l: Seq<char>| unstuffed(l)) == Seq::<
                Seq<char>,
            >::empty());
        }
        r
    }

    /// Adds a line that does not end the message.
    pub fn push(&mut self, line: &str)
        ensures
            final(self).text@ == (if old(self).first {
                old(self).text@ + unstuffed(line@)
            } else {
                old(self).text@ + "\n"@ + unstuffed(line@)
            }),
            !final(self).first,
            final(self).text@ == old(self).text@ + (if old(self).first {
                Seq::empty()
            } else {
                seq!['\n']
            }) + (if line@.len() > 0 && line@[0] == '.' {
                line@.skip(1)
            } else {
                line@
            }),
            forall|lines: Seq<Seq<char>>|
                old(self).holds(lines) ==> #[trigger] final(self).holds(lines.push(line@)),
    {
        let ghost before = *self;
        proof {
            reveal_strlit(".");
            reveal_strlit("\n");
            assert("\n"@ == seq!['\n']);
            assert(line@.len() > 0 && line@[0] == '.' ==> line@.take(1) == "."@);
            assert(line@.len() > 0 && line@.take(1) == "."@ ==> line@[0] == line@.take(1)[0]);
        }
        if !self.first {
            self.text.append("\n");
        }
        self.first = false;
        match text::strip_prefix(line, ".") {
            Some(rest) => {
                self.text.append(rest.as_str());
            },
            None => {
                self.text.append(line);
            },
        }
        proof {
            assert forall|lines: Seq<Seq<char>>| before.holds(lines) implies #[trigger] self.holds(
                lines.push(line@),
            ) by {
                lemma_text_push(lines, line@);
            }
        }
    }
}

/// The text of one more line.
proof fn lemma_text_push(lines: Seq<Seq<char>>, line: Seq<char>)
    ensures
        text_of_lines(lines.push(line)) == (if lines.len() == 0 {
            text_of_lines(lines) + unstuffed(line)
        } else {
            text_of_lines(lines) + "\n"@ + unstuffed(line)
        }),
{
    let shown = lines.map_values(|l: Seq<char>| unstuffed(l));
    assert(lines.push(line).map_values(|l: Seq<char>| unstuffed(l)) == shown.push(unstuffed(line)));
    text::lemma_joined_push(shown, unstuffed(line), "\n"@);
}

/// Reads a `SPEAK` message body: lines up to a lone `.` terminator.
///
/// Lines starting with `.` have that leading dot stripped (so a line of literal
/// text can start with `.` without being mistaken for the terminator) before
/// being joined with `\n`. Returns `None` if the lines end before the
/// terminator is seen.
pub fn read_text_block(lines: &[String]) -> (r: Option<String>)
    ensures
        text::opt_text(r) == text_block(text::texts(lines@)),
{
    let ghost all = text::texts(lines@);
    let mut block = TextBlock::new();
    let mut i: usize = 0;
    proof {
        assert(all.take(0) == Seq::<Seq<char>>::empty());
    }
    while i < lines.len()
        invariant
            i <= lines@.len(),
            all == text::texts(lines@),
            block.holds(all.take(i as int)),
            forall|k: int| 0 <= k < i ==> !is_terminator(#[trigger] all[k]),
        decreases lines@.len() - i,
    {
        let line = lines[i].as_str();
        if is_end(line) {
            proof {
                lemma_terminator_position(all, i as int);
            }
            return Some(block.text);
        }
        proof {
            assert(all.take(i + 1) == all.take(i as int).push(line@));
        }
        block.push(line);
        i = i + 1;
    }
    proof {
        lemma_terminator_position(all, i as int);
    }
    None
}

/// Tells whether a line ends a block or a text.
pub fn is_end(line: &str) -> (r: bool)
    ensures
        r == is_terminator(line@),
        r <==> text::trimmed(line@) == "."@,
{
    let trimmed = text::trim(line);
    text::same(trimmed.as_str(), ".")
}

/// The position before which no line ends a text, and at which one does, is the
/// one that [`terminator_position`] gives.
proof fn lemma_terminator_position(lines: Seq<Seq<char>>, n: int)
    requires
        0 <= n <= lines.len(),
        forall|k: int| 0 <= k < n ==> !is_terminator(#[trigger] lines[k]),
        n < lines.len() ==> is_terminator(lines[n]),
    ensures
        terminator_position(lines) == n,
    decreases lines.len(),
{
    if lines.len() > 0 && n > 0 {
        assert(!is_terminator(lines[0]));
        let rest = lines.drop_first();
        assert forall|k: int| 0 <= k < n - 1 implies !is_terminator(#[trigger] rest[k]) by {
            assert(rest[k] == lines[k + 1]);
        }
        lemma_terminator_position(rest, n - 1);
    }
}

/// A text comes through: its lines, each with a dot put before a leading dot,
/// and a dot on its own after them, read back as the text. A line that is a dot
/// after white space is the one thing that cannot be sent.
pub proof fn law_text_comes_through(lines: Seq<Seq<char>>)
    requires
        forall|i: int|
            0 <= i < lines.len() ==> !is_terminator(#[trigger] lines[i]) || lines[i][0] == '.',
    ensures
        text_block(lines.map_values(|l: Seq<char>| stuffed(l)).push("."@)) == Some(
            text::joined(lines, "\n"@),
        ),
{
    let sent = lines.map_values(|l: Seq<char>| stuffed(l));
    let all = sent.push("."@);
    let n = lines.len() as int;
    reveal_strlit(".");
    assert forall|k: int| 0 <= k < n implies !is_terminator(#[trigger] all[k]) by {
        assert(all[k] == stuffed(lines[k]));
        if lines[k].len() > 0 && lines[k][0] == '.' {
            lemma_two_dots(all[k]);
        } else {
            assert(!is_terminator(lines[k]));
        }
    }
    assert(is_terminator("."@)) by {
        lemma_dot();
    }
    lemma_terminator_position(all, n);
    assert(all.take(n) == sent);
    assert forall|k: int| 0 <= k < n implies unstuffed(#[trigger] sent[k]) == lines[k] by {
        if lines[k].len() > 0 && lines[k][0] == '.' {
            assert(sent[k].take(1) == "."@);
            assert(sent[k].skip(1) == lines[k]);
        } else if lines[k].len() > 0 {
            assert(sent[k].take(1)[0] == lines[k][0]);
        }
    }
    assert(sent.map_values(|l: Seq<char>| unstuffed(l)) == lines);
}

/// A line that was sent with a dot put before a leading dot does not end a text,
/// and reads as it was.
pub proof fn lemma_stuffed(line: Seq<char>)
    requires
        !is_terminator(line) || line[0] == '.',
    ensures
        !is_terminator(stuffed(line)),
        unstuffed(stuffed(line)) == line,
{
    reveal_strlit(".");
    let sent = stuffed(line);
    if line.len() > 0 && line[0] == '.' {
        lemma_two_dots(sent);
        assert(sent.take(1) == "."@);
        assert(sent.skip(1) == line);
    } else if line.len() > 0 {
        assert(sent.take(1)[0] == line[0]);
    } else if is_terminator(line) {
        assert(text::trimmed(line).len() == 0);
    }
}

/// A dot on its own is as it is when trimmed.
pub proof fn lemma_dot()
    ensures
        text::trimmed("."@) == "."@,
{
    reveal_strlit(".");
    reveal_with_fuel(text::trimmed_end, 2);
    reveal_with_fuel(text::trimmed_start, 2);
}

/// What begins with two dots is more than one dot when trimmed.
proof fn lemma_two_dots(line: Seq<char>)
    requires
        line.len() >= 2,
        line[0] == '.',
        line[1] == '.',
    ensures
        !is_terminator(line),
{
    reveal_strlit(".");
    lemma_trimmed_end_keeps(line, 2);
    assert(text::trimmed_end(line)[0] == text::trimmed_end(line).take(2)[0]);
    assert(line.take(2)[0] == '.');
    lemma_trimmed_start_keeps(text::trimmed_end(line));
}

/// Trimming the end keeps what ends in no white space.
proof fn lemma_trimmed_end_keeps(s: Seq<char>, n: int)
    requires
        0 < n <= s.len(),
        !text::is_space(s[n - 1]),
    ensures
        text::trimmed_end(s).len() >= n,
        text::trimmed_end(s).take(n) == s.take(n),
    decreases s.len(),
{
    if text::is_space(s.last()) {
        assert(n < s.len());
        lemma_trimmed_end_keeps(s.drop_last(), n);
        assert(s.drop_last().take(n) == s.take(n));
    }
}

/// Trimming the start keeps what starts with no white space.
proof fn lemma_trimmed_start_keeps(s: Seq<char>)
    requires
        s.len() > 0,
        !text::is_space(s[0]),
    ensures
        text::trimmed_start(s) == s,
{
}

/// One more voice of a program is offered after those before it, if it has a
/// name: with that name and the first of its languages, or `none` where the first
/// is not a text or there is none.
pub proof fn law_voice_offered(voices: Seq<JsonView>, fields: Seq<(Seq<char>, JsonView)>)
    ensures
        named_voices(Seq::empty()) == Seq::<(Seq<char>, Seq<char>)>::empty(),
        match json::member(fields, "name"@) {
            Some(JsonView::Text(name)) => named_voices(voices.push(JsonView::Object(fields)))
                == named_voices(voices).push(
                (
                    name,
                    match json::member(fields, "languages"@) {
                        Some(JsonView::Array(languages)) => if languages.len() == 0 {
                            "none"@
                        } else if languages[0] is Text {
                            languages[0]->Text_0
                        } else {
                            "none"@
                        },
                        _ => "none"@,
                    },
                ),
            ),
            _ => named_voices(voices.push(JsonView::Object(fields))) == named_voices(voices),
        },
{
    let all = voices.push(JsonView::Object(fields));
    assert(all.drop_last() == voices);
    assert(all.last() == JsonView::Object(fields));
}

/// The voices of one more program are offered after those before it.
pub proof fn law_program_offered(programs: Seq<JsonView>, fields: Seq<(Seq<char>, JsonView)>)
    ensures
        offered_voices(Seq::empty()) == Seq::<(Seq<char>, Seq<char>)>::empty(),
        offered_voices(programs.push(JsonView::Object(fields))) == offered_voices(programs) + (
        match json::member(fields, "voices"@) {
            Some(JsonView::Array(voices)) => named_voices(voices),
            _ => Seq::empty(),
        }),
{
    let all = programs.push(JsonView::Object(fields));
    assert(all.drop_last() == programs);
    assert(all.last() == JsonView::Object(fields));
}

/// A line with the name of the directive, white space and a text in quotation
/// marks gives that text as the URI; without quotation marks the value is
/// malformed, and a line that goes on after the name of the directive is another
/// directive.
pub proof fn law_uri_directive(
    before: Seq<char>,
    gap: Seq<char>,
    uri: Seq<char>,
    after: Seq<char>,
)
    requires
        forall|i: int| 0 <= i < before.len() ==> text::is_space(#[trigger] before[i]),
        forall|i: int| 0 <= i < gap.len() ==> text::is_space(#[trigger] gap[i]),
        forall|i: int| 0 <= i < after.len() ==> text::is_space(#[trigger] after[i]),
        gap.len() > 0,
    ensures
        uri_directive(before + ("CraneURI"@ + gap + seq!['"'] + uri + seq!['"']) + after) == Some(
            Some(uri),
        ),
        uri.len() > 0 && !text::is_space(uri[0]) && !text::is_space(uri.last()) && uri[0] != '"'
            ==> uri_directive(before + ("CraneURI"@ + gap + uri) + after) == Some(
            None::<Seq<char>>,
        ),
        uri.len() > 0 && !text::is_space(uri[0]) && !text::is_space(uri.last()) ==> uri_directive(
            before + ("CraneURI"@ + uri) + after,
        ) is None,
{
    reveal_strlit("CraneURI");
    reveal_strlit("\"");
    let name = "CraneURI"@;
    let mark = "\""@;
    assert(mark == seq!['"']);
    let quoted = seq!['"'] + uri + seq!['"'];
    let value = gap + quoted;
    let line = name + gap + seq!['"'] + uri + seq!['"'];
    assert(line == name + value);
    assert(line.last() == '"');
    assert(line[0] == 'C');
    text::law_trimmed(before, line, after);
    text::law_after_prefix(line, name);
    assert(value[0] == gap[0]);
    text::law_trimmed(gap, quoted, Seq::empty());
    assert(gap + quoted + Seq::<char>::empty() == value);
    text::law_after_prefix(quoted, mark);
    assert(quoted == mark + (uri + mark));
    text::law_before_suffix(uri + mark, mark);
    if uri.len() > 0 && !text::is_space(uri[0]) && !text::is_space(uri.last()) {
        let bare = name + gap + uri;
        assert(bare == name + (gap + uri));
        assert(bare.last() == uri.last());
        assert(bare[0] == 'C');
        text::law_trimmed(before, bare, after);
        text::law_after_prefix(bare, name);
        assert((gap + uri)[0] == gap[0]);
        text::law_trimmed(gap, uri, Seq::empty());
        assert(gap + uri + Seq::<char>::empty() == gap + uri);
        if uri[0] != '"' && mark.is_prefix_of(uri) {
            assert(uri.subrange(0, 1)[0] == uri[0]);
        }
        let joined = name + uri;
        assert(joined.last() == uri.last());
        assert(joined[0] == 'C');
        text::law_trimmed(before, joined, after);
        text::law_after_prefix(joined, name);
    }
}

/// The first line of a configuration that is the directive decides, whatever
/// follows; without such a line there is no URI.
pub proof fn law_first_directive(line: Seq<char>, rest: Seq<char>)
    requires
        !line.contains('\n'),
    ensures
        uri_directive(line) is Some ==> configured_uri(line + seq!['\n'] + rest) == uri_directive(
            line,
        ),
        uri_directive(line) is None ==> configured_uri(line + seq!['\n'] + rest)
            == configured_uri(rest),
        configured_uri(line) == uri_directive(line),
{
    let config = line + seq!['\n'] + rest;
    let stop = |c: char| c == '\n';
    let n = line.len() as int;
    assert forall|k: int| 0 <= k < n implies line[k] != '\n' by {
        assert(line.contains(line[k]));
    }
    assert(config[n] == '\n');
    text::lemma_first_where(config, stop, n);
    assert(config.take(n) == line);
    assert(config.skip(n + 1) == rest);
    text::lemma_first_where(line, stop, n);
    assert(line.take(n) == line);
}

} // verus!
