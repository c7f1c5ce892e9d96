//! Registry of the loaded TTS and ASR models.
//!
//! [`ModelRuntime`] knows every loaded model by its registration name: what it
//! was told of the model when it was loaded, and how many requests are queued.
//! Each model runs on a thread of its own; the runtime decides which model a
//! request goes to and what becomes of it.

use vstd::prelude::*;
use vstd::string::*;
use crate::engine::model_factory;
use crate::engine::model_factory::{AsrArchitecture, Family, ModelType, TtsArchitecture};
use crate::table;
use crate::text;

verus! {

/// The format of the audio that a TTS model produces.
#[derive(Debug, Clone, Copy, PartialEq, Eq, Structural)]
pub struct AudioInfo {
    /// Samples per second.
    pub sample_rate: u32,
    /// Number of channels.
    pub channels: u16,
    /// Bits per sample.
    pub bits_per_sample: u16,
}

/// A voice of a TTS model.
#[derive(Debug, Clone, PartialEq, Eq)]
pub struct VoiceInfo {
    /// Name of the voice.
    pub name: String,
    /// Language tags of the languages it speaks.
    pub languages: Vec<String>,
}

/// The content of a [`VoiceInfo`].
pub struct VoiceInfoView {
    pub name: Seq<char>,
    pub languages: Seq<Seq<char>>,
}

impl View for VoiceInfo {
    type V = VoiceInfoView;

    open spec fn view(&self) -> VoiceInfoView {
        VoiceInfoView { name: self.name@, languages: text::texts(self.languages@) }
    }
}

/// The contents of a list of voices.
pub open spec fn voices_view(voices: Seq<VoiceInfo>) -> Seq<VoiceInfoView> {
    voices.map_values(|v: VoiceInfo| v@)
}

/// What a TTS model tells of itself before it is moved to its thread.
#[derive(Debug, Clone, PartialEq, Eq)]
pub struct TtsModel {
    /// Format of the audio it produces.
    pub audio_info: AudioInfo,
    /// Its voices.
    pub voices: Vec<VoiceInfo>,
    /// Whether it can clone a voice from reference audio.
    pub supports_voice_cloning: bool,
}

/// What an ASR model tells of itself before it is moved to its thread.
#[derive(Debug, Clone, PartialEq, Eq)]
pub struct AsrModel {
    /// Sample rate it expects input audio at.
    pub input_sample_rate: u32,
    /// Language tags of the languages it understands.
    pub languages: Vec<String>,
}

/// A request to generate speech.
#[derive(Debug, Clone, PartialEq, Eq)]
pub struct TtsGenerateRequest {
    /// Text to synthesize.
    pub text: String,
    /// Target language (e.g. "english", "auto").
    pub language: String,
    /// Voice name from [`TtsHandle::voices`], or `None` for the model default.
    pub voice: Option<String>,
    /// Reference audio path for voice cloning. `None` for a predefined voice.
    pub reference_audio: Option<String>,
    /// Transcript of the reference audio (required by some models).
    pub reference_text: Option<String>,
}

/// A TTS model running on its dedicated thread.
#[derive(Debug, Clone, PartialEq, Eq)]
pub struct TtsHandle {
    /// Number of the registration that made this handle.
    pub id: u64,
    /// What the model told of itself.
    pub model: TtsModel,
    /// Name of its model type.
    pub model_type_name: &'static str,
    /// Number of requests queued or being processed.
    pub pending_count: u64,
    /// Identity under which its audio is cached. Two models whose paths merely
    /// share a final component have different ones.
    pub cache_model_id: String,
}

/// The content of a [`TtsHandle`].
pub struct TtsView {
    pub id: u64,
    pub audio_info: AudioInfo,
    pub voices: Seq<VoiceInfoView>,
    pub supports_voice_cloning: bool,
    pub model_type_name: Seq<char>,
    pub pending_count: u64,
    pub cache_model_id: Seq<char>,
}

impl View for TtsHandle {
    type V = TtsView;

    open spec fn view(&self) -> TtsView {
        TtsView {
            id: self.id,
            audio_info: self.model.audio_info,
            voices: voices_view(self.model.voices@),
            supports_voice_cloning: self.model.supports_voice_cloning,
            model_type_name: self.model_type_name@,
            pending_count: self.pending_count,
            cache_model_id: self.cache_model_id@,
        }
    }
}

/// One more request, as a counter that wraps around counts it.
pub open spec fn one_more(count: u64) -> u64 {
    if count == u64::MAX {
        0
    } else {
        (count + 1) as u64
    }
}

/// One request less, as a counter that wraps around counts it.
pub open spec fn one_less(count: u64) -> u64 {
    if count == 0 {
        u64::MAX
    } else {
        (count - 1) as u64
    }
}

/// Counts one more request.
fn count_up(count: u64) -> (r: u64)
    ensures
        r == one_more(count),
{
    if count == u64::MAX {
        0
    } else {
        count + 1
    }
}

/// Counts one request less.
fn count_down(count: u64) -> (r: u64)
    ensures
        r == one_less(count),
{
    if count == 0 {
        u64::MAX
    } else {
        count - 1
    }
}

/// A request that a model's thread refuses, or has finished, leaves the number
/// of pending requests where it was.
pub proof fn law_pending_count(count: u64)
    ensures
        one_less(one_more(count)) == count,
        count < u64::MAX ==> one_more(count) == count + 1,
{
}

impl TtsHandle {
    /// Returns the audio format this model produces.
    pub fn audio_info(&self) -> (r: AudioInfo)
        ensures
            r == self@.audio_info,
            r == self.model.audio_info,
    {
        self.model.audio_info
    }

    /// Returns the voices available for service discovery.
    pub fn voices(&self) -> (r: &Vec<VoiceInfo>)
        ensures
            voices_view(r@) == self@.voices,
            *r == self.model.voices,
    {
        &self.model.voices
    }

    /// Returns true if this model supports voice cloning from reference audio.
    pub fn supports_voice_cloning(&self) -> (r: bool)
        ensures
            r == self@.supports_voice_cloning,
            r == self.model.supports_voice_cloning,
    {
        self.model.supports_voice_cloning
    }

    /// Returns the model type name (e.g. "`qwen3_tts`", "`voxtral_tts`").
    pub fn model_type_name(&self) -> (r: &'static str)
        ensures
            r@ == self@.model_type_name,
            r == self.model_type_name,
    {
        self.model_type_name
    }

    /// Returns the number of requests currently queued or being processed.
    pub fn pending_count(&self) -> (r: u64)
        ensures
            r == self@.pending_count,
            r == self.pending_count,
    {
        self.pending_count
    }

    /// Counts a request that is about to be handed to the model's thread.
    pub fn enqueue(&mut self)
        ensures
            final(self)@ == (TtsView {
                pending_count: one_more(old(self)@.pending_count),
                ..old(self)@
            }),
            old(self).pending_count < u64::MAX ==> final(self).pending_count == old(
                self,
            ).pending_count + 1,
            final(self).model == old(self).model,
            final(self).id == old(self).id,
    {
        self.pending_count = count_up(self.pending_count);
    }

    /// Settles whether the model's thread took the request that was counted
    /// last: it refuses one when it has stopped, and then the request is no
    /// longer counted.
    pub fn send(&mut self, accepted: bool) -> (r: Result<(), String>)
        ensures
            r is Ok == accepted,
            accepted ==> final(self)@ == old(self)@,
            !accepted ==> final(self)@ == (TtsView {
                pending_count: one_less(old(self)@.pending_count),
                ..old(self)@
            }),
            r matches Err(e) ==> e@ == "TTS thread has stopped"@,
    {
        if accepted {
            return Ok(());
        }
        self.pending_count = count_down(self.pending_count);
        Err(String::from_str("TTS thread has stopped"))
    }

    /// Counts off a request that the model's thread has finished.
    pub fn complete(&mut self)
        ensures
            final(self)@ == (TtsView {
                pending_count: one_less(old(self)@.pending_count),
                ..old(self)@
            }),
            old(self).pending_count > 0 ==> final(self).pending_count == old(self).pending_count
                - 1,
            final(self).model == old(self).model,
            final(self).id == old(self).id,
    {
        self.pending_count = count_down(self.pending_count);
    }
}

/// An ASR model running on its dedicated thread.
#[derive(Debug, Clone, PartialEq, Eq)]
pub struct AsrHandle {
    /// Number of the registration that made this handle.
    pub id: u64,
    /// What the model told of itself.
    pub model: AsrModel,
    /// Name of its model type.
    pub model_type_name: &'static str,
    /// Number of requests queued or being processed.
    pub pending_count: u64,
}

/// The content of an [`AsrHandle`].
pub struct AsrView {
    pub id: u64,
    pub input_sample_rate: u32,
    pub languages: Seq<Seq<char>>,
    pub model_type_name: Seq<char>,
    pub pending_count: u64,
}

impl View for AsrHandle {
    type V = AsrView;

    open spec fn view(&self) -> AsrView {
        AsrView {
            id: self.id,
            input_sample_rate: self.model.input_sample_rate,
            languages: text::texts(self.model.languages@),
            model_type_name: self.model_type_name@,
            pending_count: self.pending_count,
        }
    }
}

impl AsrHandle {
    /// Returns the sample rate this model expects input audio at (e.g. 16000).
    pub fn input_sample_rate(&self) -> (r: u32)
        ensures
            r == self@.input_sample_rate,
            r == self.model.input_sample_rate,
    {
        self.model.input_sample_rate
    }

    /// Returns the language tags of the languages this model understands.
    pub fn languages(&self) -> (r: &Vec<String>)
        ensures
            text::texts(r@) == self@.languages,
            *r == self.model.languages,
    {
        &self.model.languages
    }

    /// Returns the model type name (e.g. "`qwen3_asr`").
    pub fn model_type_name(&self) -> (r: &'static str)
        ensures
            r@ == self@.model_type_name,
            r == self.model_type_name,
    {
        self.model_type_name
    }

    /// Returns the number of requests currently queued or being processed.
    pub fn pending_count(&self) -> (r: u64)
        ensures
            r == self@.pending_count,
            r == self.pending_count,
    {
        self.pending_count
    }

    /// Counts a request that is about to be handed to the model's thread.
    pub fn enqueue(&mut self)
        ensures
            final(self)@ == (AsrView {
                pending_count: one_more(old(self)@.pending_count),
                ..old(self)@
            }),
            old(self).pending_count < u64::MAX ==> final(self).pending_count == old(
                self,
            ).pending_count + 1,
            final(self).model == old(self).model,
            final(self).id == old(self).id,
    {
        self.pending_count = count_up(self.pending_count);
    }

    /// Settles whether the model's thread took the request that was counted
    /// last.
    pub fn send(&mut self, accepted: bool) -> (r: Result<(), String>)
        ensures
            r is Ok == accepted,
            accepted ==> final(self)@ == old(self)@,
            !accepted ==> final(self)@ == (AsrView {
                pending_count: one_less(old(self)@.pending_count),
                ..old(self)@
            }),
            r matches Err(e) ==> e@ == "ASR thread has stopped"@,
    {
        if accepted {
            return Ok(());
        }
        self.pending_count = count_down(self.pending_count);
        Err(String::from_str("ASR thread has stopped"))
    }

    /// Counts off a request that the model's thread has finished.
    pub fn complete(&mut self)
        ensures
            final(self)@ == (AsrView {
                pending_count: one_less(old(self)@.pending_count),
                ..old(self)@
            }),
            old(self).pending_count > 0 ==> final(self).pending_count == old(self).pending_count
                - 1,
            final(self).model == old(self).model,
            final(self).id == old(self).id,
    {
        self.pending_count = count_down(self.pending_count);
    }
}

/// The registered TTS models, by name.
pub open spec fn tts_entries(entries: Seq<(String, TtsHandle)>) -> Seq<(Seq<char>, TtsView)> {
    entries.map_values(|e: (String, TtsHandle)| (e.0@, e.1@))
}

/// The registered ASR models, by name.
pub open spec fn asr_entries(entries: Seq<(String, AsrHandle)>) -> Seq<(Seq<char>, AsrView)> {
    entries.map_values(|e: (String, AsrHandle)| (e.0@, e.1@))
}

/// TTS/ASR model runtime: every loaded model, by name, in the order in which
/// the names were first registered.
pub struct ModelRuntime {
    /// The TTS models; the first one is the default.
    pub tts: Vec<(String, TtsHandle)>,
    /// The ASR models; the first one is the default.
    pub asr: Vec<(String, AsrHandle)>,
    /// Whether generated audio is cached on disk.
    pub caching: bool,
    /// Whether audio and transcripts are delivered incrementally.
    pub streaming: bool,
    /// Whether a voice activity detection model is loaded.
    pub vad: bool,
    /// Number of the next registration.
    pub next_id: u64,
}

/// The content of a [`ModelRuntime`].
pub struct RuntimeView {
    pub tts: Seq<(Seq<char>, TtsView)>,
    pub asr: Seq<(Seq<char>, AsrView)>,
    pub caching: bool,
    pub streaming: bool,
    pub vad: bool,
    pub next_id: u64,
}

impl View for ModelRuntime {
    type V = RuntimeView;

    open spec fn view(&self) -> RuntimeView {
        RuntimeView {
            tts: tts_entries(self.tts@),
            asr: asr_entries(self.asr@),
            caching: self.caching,
            streaming: self.streaming,
            vad: self.vad,
            next_id: self.next_id,
        }
    }
}

impl RuntimeView {
    /// No name is registered twice.
    pub open spec fn well_formed(self) -> bool {
        table::distinct(self.tts) && table::distinct(self.asr)
    }

    /// The registrations have been numbered in turn, and their numbers have not
    /// been used up.
    pub open spec fn numbered(self) -> bool {
        &&& forall|i: int| 0 <= i < self.tts.len() ==> (#[trigger] self.tts[i]).1.id < self.next_id
        &&& forall|i: int| 0 <= i < self.asr.len() ==> (#[trigger] self.asr[i]).1.id < self.next_id
    }

    /// The runtime with a TTS model registered.
    pub open spec fn with_tts(
        self,
        name: Seq<char>,
        model: TtsModel,
        model_type_name: Seq<char>,
        cache_model_id: Seq<char>,
    ) -> RuntimeView {
        RuntimeView {
            tts: table::with_entry(
                self.tts,
                name,
                new_tts(self.next_id, model, model_type_name, cache_model_id),
            ),
            next_id: one_more(self.next_id),
            ..self
        }
    }

    /// The runtime with an ASR model registered.
    pub open spec fn with_asr(
        self,
        name: Seq<char>,
        model: AsrModel,
        model_type_name: Seq<char>,
    ) -> RuntimeView {
        RuntimeView {
            asr: table::with_entry(self.asr, name, new_asr(self.next_id, model, model_type_name)),
            next_id: one_more(self.next_id),
            ..self
        }
    }

    /// The name of the default TTS model: the first one registered.
    pub open spec fn default_tts(self) -> Option<Seq<char>> {
        if self.tts.len() > 0 {
            Some(self.tts[0].0)
        } else {
            None
        }
    }

    /// The name of the default ASR model: the first one registered.
    pub open spec fn default_asr(self) -> Option<Seq<char>> {
        if self.asr.len() > 0 {
            Some(self.asr[0].0)
        } else {
            None
        }
    }
}

/// `table` once `entries` have been registered one after the other.
pub open spec fn all_registered<V>(
    table: Seq<(Seq<char>, V)>,
    entries: Seq<(Seq<char>, V)>,
) -> Seq<(Seq<char>, V)>
    decreases entries.len(),
{
    if entries.len() == 0 {
        table
    } else {
        table::with_entry(
            all_registered(table, entries.drop_last()),
            entries.last().0,
            entries.last().1,
        )
    }
}

/// The model that is registered first is the default, whatever is registered
/// after it.
pub proof fn law_first_is_default(
    runtime: RuntimeView,
    tts: Seq<(Seq<char>, TtsView)>,
    asr: Seq<(Seq<char>, AsrView)>,
)
    ensures
        ({
            let after = RuntimeView {
                tts: all_registered(Seq::empty(), tts),
                asr: all_registered(Seq::empty(), asr),
                ..runtime
            };
            &&& after.default_tts() == (if tts.len() == 0 {
                None
            } else {
                Some(tts[0].0)
            })
            &&& after.default_asr() == (if asr.len() == 0 {
                None
            } else {
                Some(asr[0].0)
            })
        }),
{
    lemma_first_registered(tts);
    lemma_first_registered(asr);
}

/// The entry that is registered first stays first.
proof fn lemma_first_registered<V>(entries: Seq<(Seq<char>, V)>)
    ensures
        entries.len() == 0 ==> all_registered(Seq::empty(), entries).len() == 0,
        entries.len() > 0 ==> all_registered(Seq::empty(), entries).len() > 0 && all_registered(
            Seq::empty(),
            entries,
        )[0].0 == entries[0].0,
    decreases entries.len(),
{
    if entries.len() > 0 {
        let before = entries.drop_last();
        lemma_first_registered(before);
        table::law_with_entry(
            all_registered(Seq::empty(), before),
            entries.last().0,
            entries.last().1,
        );
        table::lemma_index(all_registered(Seq::<(Seq<char>, V)>::empty(), before), entries.last().0);
    }
}

/// A runtime without models. Incremental delivery is on, caching is off.
pub open spec fn empty_runtime() -> RuntimeView {
    RuntimeView {
        tts: Seq::empty(),
        asr: Seq::empty(),
        caching: false,
        streaming: true,
        vad: false,
        next_id: 0,
    }
}

impl Default for ModelRuntime {
    fn default() -> (r: Self)
        ensures
            r@ == empty_runtime(),
            r@.well_formed(),
    {
        ModelRuntime::new()
    }
}

impl ModelRuntime {
    /// Creates an empty runtime with no models loaded.
    pub fn new() -> (r: Self)
        ensures
            r@ == empty_runtime(),
            r@.well_formed(),
            r.tts@.len() == 0,
            r.asr@.len() == 0,
            r.streaming,
            !r.caching,
            !r.vad,
    {
        let r = ModelRuntime {
            tts: Vec::new(),
            asr: Vec::new(),
            caching: false,
            streaming: true,
            vad: false,
            next_id: 0,
        };
        proof {
            assert(r@.tts == Seq::<(Seq<char>, TtsView)>::empty());
            assert(r@.asr == Seq::<(Seq<char>, AsrView)>::empty());
        }
        r
    }

    /// Enables or disables incremental delivery for this runtime.
    ///
    /// Hardware that can't keep up with real-time incremental generation
    /// should fall back to delivering the complete audio.
    pub fn set_streaming_enabled(&mut self, enabled: bool)
        ensures
            final(self)@ == (RuntimeView { streaming: enabled, ..old(self)@ }),
            *final(self) == (ModelRuntime { streaming: enabled, ..*old(self) }),
    {
        self.streaming = enabled;
    }

    /// Returns whether incremental delivery is enabled for this runtime.
    pub fn streaming_enabled(&self) -> (r: bool)
        ensures
            r == self@.streaming,
            r == self.streaming,
    {
        self.streaming
    }

    /// Enables disk caching for TTS responses. Off by default.
    pub fn set_tts_cache(&mut self)
        ensures
            final(self)@ == (RuntimeView { caching: true, ..old(self)@ }),
            *final(self) == (ModelRuntime { caching: true, ..*old(self) }),
    {
        self.caching = true;
    }

    /// Notes that a voice activity detection model is loaded.
    pub fn set_vad(&mut self)
        ensures
            final(self)@ == (RuntimeView { vad: true, ..old(self)@ }),
            *final(self) == (ModelRuntime { vad: true, ..*old(self) }),
    {
        self.vad = true;
    }

    /// Returns whether a voice activity detection model is loaded.
    pub fn has_vad(&self) -> (r: bool)
        ensures
            r == self@.vad,
            r == self.vad,
    {
        self.vad
    }

    /// The position of the TTS model called `name`, or the number of models.
    fn tts_position(&self, name: &str) -> (r: usize)
        ensures
            r == table::index_in(self@.tts, name@),
            r <= self.tts@.len(),
    {
        let ghost entries = self@.tts;
        let mut i: usize = 0;
        while i < self.tts.len() && !text::same(self.tts[i].0.as_str(), name)
            invariant
                i <= self.tts@.len(),
                entries == tts_entries(self.tts@),
                forall|k: int| 0 <= k < i ==> (#[trigger] entries[k]).0 != name@,
            decreases self.tts@.len() - i,
        {
            i = i + 1;
        }
        proof {
            table::lemma_index_is(entries, name@, i as int);
        }
        i
    }

    /// The position of the ASR model called `name`, or the number of models.
    fn asr_position(&self, name: &str) -> (r: usize)
        ensures
            r == table::index_in(self@.asr, name@),
            r <= self.asr@.len(),
    {
        let ghost entries = self@.asr;
        let mut i: usize = 0;
        while i < self.asr.len() && !text::same(self.asr[i].0.as_str(), name)
            invariant
                i <= self.asr@.len(),
                entries == asr_entries(self.asr@),
                forall|k: int| 0 <= k < i ==> (#[trigger] entries[k]).0 != name@,
            decreases self.asr@.len() - i,
        {
            i = i + 1;
        }
        proof {
            table::lemma_index_is(entries, name@, i as int);
        }
        i
    }

    /// Registers a TTS model under `name`, in place of a model of that name if
    /// there is one. The first model registered is the default.
    pub fn register_tts(&mut self, name: String, model_type_name: &'static str, model: TtsModel)
        requires
            old(self)@.well_formed(),
        ensures
            final(self)@.well_formed(),
            final(self)@ == old(self)@.with_tts(name@, model, model_type_name@, name@),
    {
        let cache_model_id = name.clone();
        self.put_tts(name, model, model_type_name, cache_model_id);
    }

    /// Puts a TTS model in.
    fn put_tts(
        &mut self,
        name: String,
        model: TtsModel,
        model_type_name: &'static str,
        cache_model_id: String,
    )
        requires
            old(self)@.well_formed(),
        ensures
            final(self)@.well_formed(),
            final(self)@ == old(self)@.with_tts(
                name@,
                model,
                model_type_name@,
                cache_model_id@,
            ),
    {
        let handle = TtsHandle {
            id: self.next_id,
            model,
            model_type_name,
            pending_count: 0,
            cache_model_id,
        };
        self.next_id = count_up(self.next_id);
        let ghost before = self@.tts;
        let ghost key = name@;
        let ghost value = handle@;
        proof {
            table::law_with_entry(before, key, value);
        }
        let i = self.tts_position(name.as_str());
        if i < self.tts.len() {
            self.tts.set(i, (name, handle));
        } else {
            self.tts.push((name, handle));
        }
        proof {
            assert(tts_entries(self.tts@) == table::with_entry(before, key, value));
        }
    }

    /// Registers an ASR model under `name`, in place of a model of that name
    /// if there is one. The first model registered is the default.
    pub fn register_asr(&mut self, name: String, model_type_name: &'static str, model: AsrModel)
        requires
            old(self)@.well_formed(),
        ensures
            final(self)@.well_formed(),
            final(self)@ == old(self)@.with_asr(name@, model, model_type_name@),
    {
        let handle = AsrHandle { id: self.next_id, model, model_type_name, pending_count: 0 };
        self.next_id = count_up(self.next_id);
        let ghost before = self@.asr;
        let ghost key = name@;
        let ghost value = handle@;
        proof {
            table::law_with_entry(before, key, value);
        }
        let i = self.asr_position(name.as_str());
        if i < self.asr.len() {
            self.asr.set(i, (name, handle));
        } else {
            self.asr.push((name, handle));
        }
        proof {
            assert(asr_entries(self.asr@) == table::with_entry(before, key, value));
        }
    }

    /// Registers a TTS model that was loaded from `model_path`.
    ///
    /// The model is registered under a name derived from the path's final
    /// component; its audio is cached under the whole path. Returns the
    /// registration name.
    pub fn load_tts(&mut self, model_path: &str, model_type: ModelType, model: TtsModel) -> (r:
        String)
        requires
            old(self)@.well_formed(),
        ensures
            final(self)@.well_formed(),
            r@ == model_factory::path_name(model_path@, "tts"@),
            final(self)@ == old(self)@.with_tts(r@, model, model_type.shown(), model_path@),
            table::lookup(final(self)@.tts, r@) matches Some(view) && view.audio_info
                == model.audio_info && view.voices == voices_view(model.voices@)
                && view.supports_voice_cloning == model.supports_voice_cloning
                && view.model_type_name == model_type.shown() && view.cache_model_id == model_path@
                && view.pending_count == 0,
    {
        let name = extract_model_name(model_path);
        let cache_model_id = String::from_str(model_path);
        let model_type_name = model_type.display_name();
        let ghost before = self@;
        self.put_tts(name.clone(), model, model_type_name, cache_model_id);
        proof {
            lemma_entry_set(
                before.tts,
                name@,
                name@,
                new_tts(before.next_id, model, model_type.shown(), model_path@),
            );
        }
        name
    }

    /// Registers an ASR model that was loaded from `model_path` under a name
    /// derived from the path's final component, and returns the name.
    pub fn load_asr(&mut self, model_path: &str, model_type: ModelType, model: AsrModel) -> (r:
        String)
        requires
            old(self)@.well_formed(),
        ensures
            final(self)@.well_formed(),
            r@ == model_factory::path_name(model_path@, "asr"@),
            final(self)@ == old(self)@.with_asr(r@, model, model_type.shown()),
    {
        let name = extract_asr_model_name(model_path);
        self.register_asr(name.clone(), model_type.display_name(), model);
        name
    }

    /// Returns the TTS handle registered under `name`, if any.
    pub fn tts_handle(&self, name: &str) -> (r: Option<&TtsHandle>)
        ensures
            match r {
                Some(handle) => table::lookup(self@.tts, name@) == Some(handle@),
                None => table::lookup(self@.tts, name@) is None,
            },
    {
        let i = self.tts_position(name);
        if i < self.tts.len() {
            Some(&self.tts[i].1)
        } else {
            None
        }
    }

    /// Returns the ASR handle registered under `name`, if any.
    pub fn asr_handle(&self, name: &str) -> (r: Option<&AsrHandle>)
        ensures
            match r {
                Some(handle) => table::lookup(self@.asr, name@) == Some(handle@),
                None => table::lookup(self@.asr, name@) is None,
            },
    {
        let i = self.asr_position(name);
        if i < self.asr.len() {
            Some(&self.asr[i].1)
        } else {
            None
        }
    }

    /// Returns the handle of the default TTS model, if any model is loaded.
    pub fn default_tts_handle(&self) -> (r: Option<&TtsHandle>)
        ensures
            match r {
                Some(handle) => self@.tts.len() > 0 && handle@ == self@.tts[0].1,
                None => self@.tts.len() == 0,
            },
            r matches Some(handle) ==> *handle == self.tts@[0].1,
    {
        if self.tts.len() > 0 {
            Some(&self.tts[0].1)
        } else {
            None
        }
    }

    /// Returns the handle of the default ASR model, if any model is loaded.
    pub fn default_asr_handle(&self) -> (r: Option<&AsrHandle>)
        ensures
            match r {
                Some(handle) => self@.asr.len() > 0 && handle@ == self@.asr[0].1,
                None => self@.asr.len() == 0,
            },
            r matches Some(handle) ==> *handle == self.asr@[0].1,
    {
        if self.asr.len() > 0 {
            Some(&self.asr[0].1)
        } else {
            None
        }
    }

    /// Returns the registration name of the default TTS model, if any.
    pub fn default_tts_name(&self) -> (r: Option<&str>)
        ensures
            match r {
                Some(name) => self@.default_tts() == Some(name@),
                None => self@.default_tts() is None,
            },
            r is Some <==> self.tts@.len() > 0,
            r matches Some(name) ==> name@ == self.tts@[0].0@,
    {
        if self.tts.len() > 0 {
            Some(self.tts[0].0.as_str())
        } else {
            None
        }
    }

    /// Returns the registration name of the default ASR model, if any.
    pub fn default_asr_name(&self) -> (r: Option<&str>)
        ensures
            match r {
                Some(name) => self@.default_asr() == Some(name@),
                None => self@.default_asr() is None,
            },
            r is Some <==> self.asr@.len() > 0,
            r matches Some(name) ==> name@ == self.asr@[0].0@,
    {
        if self.asr.len() > 0 {
            Some(self.asr[0].0.as_str())
        } else {
            None
        }
    }

    /// Returns all registered TTS models and their names.
    pub fn tts_handles(&self) -> (r: &Vec<(String, TtsHandle)>)
        ensures
            tts_entries(r@) == self@.tts,
    {
        &self.tts
    }

    /// Returns all registered ASR models and their names.
    pub fn asr_handles(&self) -> (r: &Vec<(String, AsrHandle)>)
        ensures
            asr_entries(r@) == self@.asr,
    {
        &self.asr
    }
}

/// A newly registered TTS model.
pub open spec fn new_tts(
    id: u64,
    model: TtsModel,
    model_type_name: Seq<char>,
    cache_model_id: Seq<char>,
) -> TtsView {
    TtsView {
        id,
        audio_info: model.audio_info,
        voices: voices_view(model.voices@),
        supports_voice_cloning: model.supports_voice_cloning,
        model_type_name,
        pending_count: 0,
        cache_model_id,
    }
}

/// A newly registered ASR model.
pub open spec fn new_asr(id: u64, model: AsrModel, model_type_name: Seq<char>) -> AsrView {
    AsrView {
        id,
        input_sample_rate: model.input_sample_rate,
        languages: text::texts(model.languages@),
        model_type_name,
        pending_count: 0,
    }
}

/// Derives a registration name from a model path's final path component.
pub fn extract_model_name(model_path: &str) -> (r: String)
    ensures
        r@ == model_factory::path_name(model_path@, "tts"@),
{
    model_factory::name_of_path(model_path, "tts")
}

/// Derives a registration name from an ASR model path's final path component.
pub fn extract_asr_model_name(model_path: &str) -> (r: String)
    ensures
        r@ == model_factory::path_name(model_path@, "asr"@),
{
    model_factory::name_of_path(model_path, "asr")
}

/// What becomes of a request to generate speech. The number is that of the
/// handle that counts the request.
#[derive(Debug, Clone, Copy, PartialEq, Eq, Structural)]
pub enum Dispatch {
    /// Send it to the model's thread and pass its reply on.
    Send(u64),
    /// Reply with the cached audio.
    Reply,
    /// Send it to the model's thread, and cache the audio in its reply before
    /// passing it on.
    Tee(u64),
}

/// What becomes of a request to generate speech by the model with handle `id`.
/// Voice-cloned audio is never cached.
pub open spec fn speech_dispatch(caching: bool, cloning: bool, hit: bool, id: u64) -> Dispatch {
    if !caching || cloning {
        Dispatch::Send(id)
    } else if hit {
        Dispatch::Reply
    } else {
        Dispatch::Tee(id)
    }
}

/// `entries` with one more request for the model called `name`.
pub open spec fn tts_counted(entries: Seq<(Seq<char>, TtsView)>, name: Seq<char>) -> Seq<
    (Seq<char>, TtsView),
> {
    let view = table::lookup(entries, name)->0;
    table::with_entry(
        entries,
        name,
        TtsView { pending_count: one_more(view.pending_count), ..view },
    )
}

/// `entries` with one request less for the model called `name`, if it still has
/// the handle `id` that counted the request.
pub open spec fn tts_discounted(
    entries: Seq<(Seq<char>, TtsView)>,
    name: Seq<char>,
    id: u64,
) -> Seq<(Seq<char>, TtsView)> {
    match table::lookup(entries, name) {
        Some(view) if view.id == id => table::with_entry(
            entries,
            name,
            TtsView { pending_count: one_less(view.pending_count), ..view },
        ),
        _ => entries,
    }
}

/// `entries` with one more request for the model called `name`.
pub open spec fn asr_counted(entries: Seq<(Seq<char>, AsrView)>, name: Seq<char>) -> Seq<
    (Seq<char>, AsrView),
> {
    let view = table::lookup(entries, name)->0;
    table::with_entry(
        entries,
        name,
        AsrView { pending_count: one_more(view.pending_count), ..view },
    )
}

/// `entries` with one request less for the model called `name`, if it still has
/// the handle `id` that counted the request.
pub open spec fn asr_discounted(
    entries: Seq<(Seq<char>, AsrView)>,
    name: Seq<char>,
    id: u64,
) -> Seq<(Seq<char>, AsrView)> {
    match table::lookup(entries, name) {
        Some(view) if view.id == id => table::with_entry(
            entries,
            name,
            AsrView { pending_count: one_less(view.pending_count), ..view },
        ),
        _ => entries,
    }
}

/// A request that was counted and then counted off again, because the thread
/// refused it or has finished it, leaves the models as they were.
pub proof fn law_counted_off(entries: Seq<(Seq<char>, TtsView)>, name: Seq<char>)
    requires
        table::lookup(entries, name) is Some,
    ensures
        tts_discounted(
            tts_counted(entries, name),
            name,
            table::lookup(entries, name)->0.id,
        ) == entries,
{
    let view = table::lookup(entries, name)->0;
    let counted = TtsView { pending_count: one_more(view.pending_count), ..view };
    let p = table::index_in(entries, name);
    table::lemma_index(entries, name);
    table::law_with_entry(entries, name, counted);
    table::lemma_index_is(tts_counted(entries, name), name, p);
    assert(tts_discounted(tts_counted(entries, name), name, view.id) == entries);
}

/// As [`law_counted_off`], for the ASR models.
pub proof fn law_asr_counted_off(entries: Seq<(Seq<char>, AsrView)>, name: Seq<char>)
    requires
        table::lookup(entries, name) is Some,
    ensures
        asr_discounted(
            asr_counted(entries, name),
            name,
            table::lookup(entries, name)->0.id,
        ) == entries,
{
    let view = table::lookup(entries, name)->0;
    let counted = AsrView { pending_count: one_more(view.pending_count), ..view };
    let p = table::index_in(entries, name);
    table::lemma_index(entries, name);
    table::law_with_entry(entries, name, counted);
    table::lemma_index_is(asr_counted(entries, name), name, p);
    assert(asr_discounted(asr_counted(entries, name), name, view.id) == entries);
}

/// Registrations keep their numbers apart as long as there are numbers left.
pub proof fn law_numbered(
    runtime: RuntimeView,
    name: Seq<char>,
    tts: TtsModel,
    asr: AsrModel,
    model_type_name: Seq<char>,
    cache_model_id: Seq<char>,
)
    requires
        runtime.numbered(),
        runtime.next_id < u64::MAX,
    ensures
        empty_runtime().numbered(),
        runtime.with_tts(name, tts, model_type_name, cache_model_id).numbered(),
        runtime.with_asr(name, asr, model_type_name).numbered(),
{
    table::lemma_index(runtime.tts, name);
    table::lemma_index(runtime.asr, name);
    let a = runtime.with_tts(name, tts, model_type_name, cache_model_id);
    let b = runtime.with_asr(name, asr, model_type_name);
    assert forall|i: int| 0 <= i < a.tts.len() implies (#[trigger] a.tts[i]).1.id < a.next_id by {
        assert(i < runtime.tts.len() ==> runtime.tts[i].1.id < runtime.next_id);
    }
    assert forall|i: int| 0 <= i < b.asr.len() implies (#[trigger] b.asr[i]).1.id < b.next_id by {
        assert(i < runtime.asr.len() ==> runtime.asr[i].1.id < runtime.next_id);
    }
}

/// Each handle has a count of its own: a request that an earlier handle counted,
/// and that is finished after another model has taken the name, is not counted
/// off from the new one.
pub proof fn law_replaced(
    runtime: RuntimeView,
    name: Seq<char>,
    id: u64,
    model: TtsModel,
    model_type_name: Seq<char>,
    cache_model_id: Seq<char>,
)
    requires
        id < runtime.next_id,
    ensures
        ({
            let after = runtime.with_tts(name, model, model_type_name, cache_model_id).tts;
            &&& tts_discounted(after, name, id) == after
            &&& table::lookup(after, name) matches Some(view) && view.pending_count == 0
        }),
{
    table::law_with_entry(
        runtime.tts,
        name,
        new_tts(runtime.next_id, model, model_type_name, cache_model_id),
    );
}

/// As [`law_replaced`], for the ASR models.
pub proof fn law_asr_replaced(
    runtime: RuntimeView,
    name: Seq<char>,
    id: u64,
    model: AsrModel,
    model_type_name: Seq<char>,
)
    requires
        id < runtime.next_id,
    ensures
        ({
            let after = runtime.with_asr(name, model, model_type_name).asr;
            &&& asr_discounted(after, name, id) == after
            &&& table::lookup(after, name) matches Some(view) && view.pending_count == 0
        }),
{
    table::law_with_entry(
        runtime.asr,
        name,
        new_asr(runtime.next_id, model, model_type_name),
    );
}

/// The message for a TTS model that is not registered.
fn unknown_tts(model_name: &str) -> (r: String)
    ensures
        r@ == "unknown TTS model: "@ + model_name@,
{
    let mut r = String::from_str("unknown TTS model: ");
    r.append(model_name);
    r
}

/// The message for an ASR model that is not registered.
fn unknown_asr(model_name: &str) -> (r: String)
    ensures
        r@ == "unknown ASR model: "@ + model_name@,
{
    let mut r = String::from_str("unknown ASR model: ");
    r.append(model_name);
    r
}

impl ModelRuntime {
    /// Returns the identity under which to consult the cache for a request,
    /// if the request may be answered from it.
    pub fn cache_id(&self, model_name: &str, request: &TtsGenerateRequest) -> (r: Option<&str>)
        ensures
            match r {
                Some(id) => self@.caching && request.reference_audio is None && table::lookup(
                    self@.tts,
                    model_name@,
                ) is Some && table::lookup(self@.tts, model_name@)->0.cache_model_id == id@,
                None => !self@.caching || request.reference_audio is Some || table::lookup(
                    self@.tts,
                    model_name@,
                ) is None,
            },
    {
        if !self.caching || request.reference_audio.is_some() {
            return None;
        }
        match self.tts_handle(model_name) {
            Some(handle) => Some(handle.cache_model_id.as_str()),
            None => None,
        }
    }

    /// Decides what becomes of a request to generate speech, given whether the
    /// cache holds its audio under [`cache_id`](Self::cache_id). A request
    /// that goes to the model's thread is counted as pending.
    ///
    /// Concurrent requests for the same not-yet-cached text each miss and are
    /// generated independently.
    pub fn generate_speech(
        &mut self,
        model_name: &str,
        request: &TtsGenerateRequest,
        hit: bool,
    ) -> (r: Result<Dispatch, String>)
        requires
            old(self)@.well_formed(),
        ensures
            final(self)@.well_formed(),
            match r {
                Ok(dispatch) => table::lookup(old(self)@.tts, model_name@) is Some && dispatch
                    == speech_dispatch(
                    old(self)@.caching,
                    request.reference_audio is Some,
                    hit,
                    table::lookup(old(self)@.tts, model_name@)->0.id,
                ) && final(self)@ == (RuntimeView {
                    tts: if dispatch is Reply {
                        old(self)@.tts
                    } else {
                        tts_counted(old(self)@.tts, model_name@)
                    },
                    ..old(self)@
                }),
                Err(e) => table::lookup(old(self)@.tts, model_name@) is None && e@
                    == "unknown TTS model: "@ + model_name@ && final(self)@ == old(self)@,
            },
            r matches Ok(dispatch) ==> ({
                let cached = old(self).caching && request.reference_audio is None;
                &&& dispatch is Reply <==> cached && hit
                &&& dispatch is Tee <==> cached && !hit
                &&& dispatch is Send <==> !cached
            }),
    {
        let i = self.tts_position(model_name);
        if i == self.tts.len() {
            return Err(unknown_tts(model_name));
        }
        proof {
            table::lemma_index(self@.tts, model_name@);
        }
        let id: u64 = self.tts[i].1.id;
        if self.caching && request.reference_audio.is_none() {
            if hit {
                return Ok(Dispatch::Reply);
            }
            self.count_tts(i, model_name);
            return Ok(Dispatch::Tee(id));
        }
        self.count_tts(i, model_name);
        Ok(Dispatch::Send(id))
    }

    /// Dispatches a TTS request for incremental generation, which is counted
    /// as pending by the handle that is returned. Such requests bypass the
    /// cache.
    pub fn generate_speech_stream(&mut self, model_name: &str) -> (r: Result<u64, String>)
        requires
            old(self)@.well_formed(),
        ensures
            final(self)@.well_formed(),
            match r {
                Ok(id) => table::lookup(old(self)@.tts, model_name@) is Some && id
                    == table::lookup(old(self)@.tts, model_name@)->0.id && final(self)@ == (
                RuntimeView { tts: tts_counted(old(self)@.tts, model_name@), ..old(self)@ }),
                Err(e) => table::lookup(old(self)@.tts, model_name@) is None && e@
                    == "unknown TTS model: "@ + model_name@ && final(self)@ == old(self)@,
            },
    {
        let i = self.tts_position(model_name);
        if i == self.tts.len() {
            return Err(unknown_tts(model_name));
        }
        proof {
            table::lemma_index(self@.tts, model_name@);
        }
        let id: u64 = self.tts[i].1.id;
        self.count_tts(i, model_name);
        Ok(id)
    }

    /// Counts a request for the TTS model at position `i`.
    fn count_tts(&mut self, i: usize, name: &str)
        requires
            old(self)@.well_formed(),
            i < old(self).tts@.len(),
            i == table::index_in(old(self)@.tts, name@),
        ensures
            final(self)@.well_formed(),
            final(self)@ == (RuntimeView {
                tts: tts_counted(old(self)@.tts, name@),
                ..old(self)@
            }),
    {
        let ghost before = self@.tts;
        let ghost view = table::lookup(before, name@)->0;
        proof {
            table::lemma_index(before, name@);
            table::law_with_entry(
                before,
                name@,
                TtsView { pending_count: one_more(view.pending_count), ..view },
            );
        }
        self.tts[i].1.enqueue();
        proof {
            assert(tts_entries(self.tts@) == tts_counted(before, name@));
        }
    }

    /// Settles whether a model's thread took a request that the handle `id`
    /// counted as pending.
    pub fn tts_sent(&mut self, model_name: &str, id: u64, accepted: bool) -> (r: Result<
        (),
        String,
    >)
        requires
            old(self)@.well_formed(),
        ensures
            final(self)@.well_formed(),
            match r {
                Ok(_) => accepted && final(self)@ == old(self)@,
                Err(e) => !accepted && e@ == "TTS thread has stopped"@ && final(self)@ == (
                RuntimeView { tts: tts_discounted(old(self)@.tts, model_name@, id), ..old(self)@ }),
            },
    {
        if accepted {
            return Ok(());
        }
        self.tts_finished(model_name, id);
        Err(String::from_str("TTS thread has stopped"))
    }

    /// Counts off a request that a TTS model's thread has finished. `id` is the
    /// handle that counted it; once the name has another handle there is nothing
    /// to count off.
    pub fn tts_finished(&mut self, model_name: &str, id: u64)
        requires
            old(self)@.well_formed(),
        ensures
            final(self)@.well_formed(),
            final(self)@ == (RuntimeView {
                tts: tts_discounted(old(self)@.tts, model_name@, id),
                ..old(self)@
            }),
    {
        let i = self.tts_position(model_name);
        let ghost before = self@.tts;
        proof {
            table::lemma_index(before, model_name@);
        }
        if i < self.tts.len() && self.tts[i].1.id == id {
            let ghost view = table::lookup(before, model_name@)->0;
            proof {
                table::law_with_entry(
                    before,
                    model_name@,
                    TtsView { pending_count: one_less(view.pending_count), ..view },
                );
            }
            self.tts[i].1.complete();
            proof {
                assert(tts_entries(self.tts@) == tts_discounted(before, model_name@, id));
            }
        }
    }

    /// Dispatches a transcription request to the named ASR model; it is counted
    /// as pending by the handle that is returned. There is no cache for
    /// transcripts.
    pub fn transcribe(&mut self, model_name: &str) -> (r: Result<u64, String>)
        requires
            old(self)@.well_formed(),
        ensures
            final(self)@.well_formed(),
            match r {
                Ok(id) => table::lookup(old(self)@.asr, model_name@) is Some && id
                    == table::lookup(old(self)@.asr, model_name@)->0.id && final(self)@ == (
                RuntimeView { asr: asr_counted(old(self)@.asr, model_name@), ..old(self)@ }),
                Err(e) => table::lookup(old(self)@.asr, model_name@) is None && e@
                    == "unknown ASR model: "@ + model_name@ && final(self)@ == old(self)@,
            },
    {
        let i = self.asr_position(model_name);
        if i == self.asr.len() {
            return Err(unknown_asr(model_name));
        }
        let ghost before = self@.asr;
        let ghost view = table::lookup(before, model_name@)->0;
        proof {
            table::lemma_index(before, model_name@);
            table::law_with_entry(
                before,
                model_name@,
                AsrView { pending_count: one_more(view.pending_count), ..view },
            );
        }
        let id: u64 = self.asr[i].1.id;
        self.asr[i].1.enqueue();
        proof {
            assert(asr_entries(self.asr@) == asr_counted(before, model_name@));
        }
        Ok(id)
    }

    /// Dispatches a streaming transcription request to the named ASR model;
    /// otherwise as [`transcribe`](Self::transcribe).
    pub fn transcribe_stream(&mut self, model_name: &str) -> (r: Result<u64, String>)
        requires
            old(self)@.well_formed(),
        ensures
            final(self)@.well_formed(),
            match r {
                Ok(id) => table::lookup(old(self)@.asr, model_name@) is Some && id
                    == table::lookup(old(self)@.asr, model_name@)->0.id && final(self)@ == (
                RuntimeView { asr: asr_counted(old(self)@.asr, model_name@), ..old(self)@ }),
                Err(e) => table::lookup(old(self)@.asr, model_name@) is None && e@
                    == "unknown ASR model: "@ + model_name@ && final(self)@ == old(self)@,
            },
    {
        self.transcribe(model_name)
    }

    /// Settles whether a model's thread took a request that the handle `id`
    /// counted as pending.
    pub fn asr_sent(&mut self, model_name: &str, id: u64, accepted: bool) -> (r: Result<
        (),
        String,
    >)
        requires
            old(self)@.well_formed(),
        ensures
            final(self)@.well_formed(),
            match r {
                Ok(_) => accepted && final(self)@ == old(self)@,
                Err(e) => !accepted && e@ == "ASR thread has stopped"@ && final(self)@ == (
                RuntimeView { asr: asr_discounted(old(self)@.asr, model_name@, id), ..old(self)@ }),
            },
    {
        if accepted {
            return Ok(());
        }
        self.asr_finished(model_name, id);
        Err(String::from_str("ASR thread has stopped"))
    }

    /// Counts off a request that an ASR model's thread has finished. `id` is the
    /// handle that counted it; once the name has another handle there is nothing
    /// to count off.
    pub fn asr_finished(&mut self, model_name: &str, id: u64)
        requires
            old(self)@.well_formed(),
        ensures
            final(self)@.well_formed(),
            final(self)@ == (RuntimeView {
                asr: asr_discounted(old(self)@.asr, model_name@, id),
                ..old(self)@
            }),
    {
        let i = self.asr_position(model_name);
        let ghost before = self@.asr;
        proof {
            table::lemma_index(before, model_name@);
        }
        if i < self.asr.len() && self.asr[i].1.id == id {
            let ghost view = table::lookup(before, model_name@)->0;
            proof {
                table::law_with_entry(
                    before,
                    model_name@,
                    AsrView { pending_count: one_less(view.pending_count), ..view },
                );
            }
            self.asr[i].1.complete();
            proof {
                assert(asr_entries(self.asr@) == asr_discounted(before, model_name@, id));
            }
        }
    }
}

/// The model type and architecture of a TTS model at a path.
pub open spec fn tts_plan_of(path: Seq<char>, probed: Option<ModelType>) -> Result<
    (ModelType, TtsArchitecture),
    Seq<char>,
> {
    match model_factory::tts_type(ModelType::Auto, path, probed) {
        Err(e) => Err(e),
        Ok(model_type) => match model_factory::tts_architecture(model_type) {
            Err(e) => Err(e),
            Ok(architecture) => Ok((model_type, architecture)),
        },
    }
}

/// The model type and architecture of an ASR model at a path.
pub open spec fn asr_plan_of(path: Seq<char>, probed: Option<ModelType>) -> Result<
    (ModelType, AsrArchitecture),
    Seq<char>,
> {
    match model_factory::asr_type(ModelType::Auto, path, probed) {
        Err(e) => Err(e),
        Ok(model_type) => match model_factory::asr_architecture(model_type) {
            Err(e) => Err(e),
            Ok(architecture) => Ok((model_type, architecture)),
        },
    }
}

/// Detects what to construct for the TTS model at `model_path`, given what
/// probing its directory found.
pub fn tts_plan(model_path: &str, probed: Option<ModelType>) -> (r: Result<
    (ModelType, TtsArchitecture),
    String,
>)
    ensures
        match r {
            Ok(plan) => tts_plan_of(model_path@, probed) == Ok::<
                (ModelType, TtsArchitecture),
                Seq<char>,
            >(plan),
            Err(e) => tts_plan_of(model_path@, probed) == Err::<
                (ModelType, TtsArchitecture),
                Seq<char>,
            >(e@),
        },
{
    match model_factory::resolve_tts(ModelType::Auto, model_path, probed) {
        Err(e) => Err(e),
        Ok(model_type) => match model_factory::create_tts(model_type) {
            Err(e) => Err(e),
            Ok(architecture) => Ok((model_type, architecture)),
        },
    }
}

/// Detects what to construct for the ASR model at `model_path`, given what
/// probing its directory found.
pub fn asr_plan(model_path: &str, probed: Option<ModelType>) -> (r: Result<
    (ModelType, AsrArchitecture),
    String,
>)
    ensures
        match r {
            Ok(plan) => asr_plan_of(model_path@, probed) == Ok::<
                (ModelType, AsrArchitecture),
                Seq<char>,
            >(plan),
            Err(e) => asr_plan_of(model_path@, probed) == Err::<
                (ModelType, AsrArchitecture),
                Seq<char>,
            >(e@),
        },
{
    match model_factory::resolve_asr(ModelType::Auto, model_path, probed) {
        Err(e) => Err(e),
        Ok(model_type) => match model_factory::create_asr(model_type) {
            Err(e) => Err(e),
            Ok(architecture) => Ok((model_type, architecture)),
        },
    }
}

/// What a model's thread does with a request for complete audio.
#[derive(Debug, Clone, PartialEq, Eq)]
pub enum TtsWork {
    /// Nobody waits for the audio any more.
    Skip,
    /// Clone the voice of reference audio.
    Clone { reference_audio: String, reference_text: String },
    /// Speak with a voice of the model, or with its default voice.
    Speak { voice: Option<String> },
}

/// The content of a [`TtsWork`].
pub enum TtsWorkView {
    Skip,
    Clone { reference_audio: Seq<char>, reference_text: Seq<char> },
    Speak { voice: Option<Seq<char>> },
}

impl View for TtsWork {
    type V = TtsWorkView;

    open spec fn view(&self) -> TtsWorkView {
        match *self {
            TtsWork::Skip => TtsWorkView::Skip,
            TtsWork::Clone { reference_audio, reference_text } => TtsWorkView::Clone {
                reference_audio: reference_audio@,
                reference_text: reference_text@,
            },
            TtsWork::Speak { voice } => TtsWorkView::Speak { voice: text::opt_text(voice) },
        }
    }
}

/// What a model's thread does with a request for complete audio, given whether
/// its sender has gone.
pub open spec fn work_for(request: TtsGenerateRequest, gone: bool) -> TtsWorkView {
    if gone {
        TtsWorkView::Skip
    } else if let Some(reference_audio) = request.reference_audio {
        TtsWorkView::Clone {
            reference_audio: reference_audio@,
            reference_text: match request.reference_text {
                Some(reference_text) => reference_text@,
                None => Seq::empty(),
            },
        }
    } else {
        TtsWorkView::Speak { voice: text::opt_text(request.voice) }
    }
}

/// Decides what a model's thread does with a request for complete audio.
pub fn tts_work(request: &TtsGenerateRequest, gone: bool) -> (r: TtsWork)
    ensures
        r@ == work_for(*request, gone),
        r is Skip <==> gone,
        !gone ==> (match request.reference_audio {
            Some(audio) => r matches TtsWork::Clone { reference_audio, reference_text }
                && reference_audio@ == audio@ && reference_text@ == (match request.reference_text {
                Some(text) => text@,
                None => Seq::empty(),
            }),
            None => r matches TtsWork::Speak { voice } && text::opt_text(voice) == text::opt_text(
                request.voice,
            ),
        }),
{
    if gone {
        return TtsWork::Skip;
    }
    match &request.reference_audio {
        Some(reference_audio) => {
            let reference_text = match &request.reference_text {
                Some(reference_text) => reference_text.clone(),
                None => String::new(),
            };
            TtsWork::Clone { reference_audio: reference_audio.clone(), reference_text }
        },
        None => {
            let voice = match &request.voice {
                Some(voice) => Some(voice.clone()),
                None => None,
            };
            TtsWork::Speak { voice }
        },
    }
}

/// How a call into a model ended.
#[derive(Debug, Clone, PartialEq, Eq)]
pub enum Ran {
    /// It returned a result.
    Done,
    /// It returned an error.
    Failed(String),
    /// It panicked, with a payload that is a string literal or an owned string
    /// or neither.
    Panicked { literal: Option<String>, owned: Option<String> },
}

/// The message of a panic.
pub open spec fn panic_text(literal: Option<Seq<char>>, owned: Option<Seq<char>>) -> Seq<char> {
    match (literal, owned) {
        (Some(message), _) => message,
        (None, Some(message)) => message,
        (None, None) => "unknown panic"@,
    }
}

/// Extracts a human-readable message from a caught panic's payload.
pub fn panic_message(literal: &Option<String>, owned: &Option<String>) -> (r: String)
    ensures
        r@ == panic_text(text::opt_text(*literal), text::opt_text(*owned)),
        literal matches Some(message) ==> r@ == message@,
        literal is None ==> (owned matches Some(message) ==> r@ == message@),
        literal is None && owned is None ==> r@ == "unknown panic"@,
{
    match literal {
        Some(message) => message.clone(),
        None => match owned {
            Some(message) => message.clone(),
            None => String::from_str("unknown panic"),
        },
    }
}

/// What the sender of a request is told of a call that gave no result.
pub open spec fn failure_of(family: Family, ran: Ran) -> Option<Seq<char>> {
    match ran {
        Ran::Done => None,
        Ran::Failed(e) => Some(e@),
        Ran::Panicked { literal, owned } => Some(
            (match family {
                Family::Tts => "TTS generation panicked: "@,
                Family::Asr => "ASR transcription panicked: "@,
            }) + panic_text(text::opt_text(literal), text::opt_text(owned)),
        ),
    }
}

/// Decides what the sender of a request is told of a call that gave no result.
/// A panic in a model does not end its thread: it becomes an error.
pub fn call_failure(family: Family, ran: &Ran) -> (r: Option<String>)
    ensures
        text::opt_text(r) == failure_of(family, *ran),
        r is None <==> ran is Done,
        ran matches Ran::Failed(e) ==> (r matches Some(told) && told@ == e@),
        ran matches Ran::Panicked { literal, owned } ==> (r matches Some(told) && told@ == (if family
            is Tts {
            "TTS generation panicked: "@
        } else {
            "ASR transcription panicked: "@
        }) + panic_text(text::opt_text(*literal), text::opt_text(*owned))),
{
    match ran {
        Ran::Done => None,
        Ran::Failed(e) => Some(e.clone()),
        Ran::Panicked { literal, owned } => {
            let mut r = match family {
                Family::Tts => String::from_str("TTS generation panicked: "),
                Family::Asr => String::from_str("ASR transcription panicked: "),
            };
            r.append(panic_message(literal, owned).as_str());
            Some(r)
        },
    }
}

/// What a model's thread does next in an incremental request.
#[derive(Debug, Clone, PartialEq, Eq)]
pub enum StreamWork {
    /// Ask the model for the next chunk.
    Next,
    /// Hand the chunk to the sender of the request.
    Deliver,
    /// End the request.
    End,
    /// Tell the sender of the request of an error, and end it.
    Report(String),
}

/// The content of a [`StreamWork`].
pub enum StreamWorkView {
    Next,
    Deliver,
    End,
    Report(Seq<char>),
}

impl View for StreamWork {
    type V = StreamWorkView;

    open spec fn view(&self) -> StreamWorkView {
        match *self {
            StreamWork::Next => StreamWorkView::Next,
            StreamWork::Deliver => StreamWorkView::Deliver,
            StreamWork::End => StreamWorkView::End,
            StreamWork::Report(e) => StreamWorkView::Report(e@),
        }
    }
}

/// What happened last in an incremental request.
#[derive(Debug, Clone, PartialEq, Eq)]
pub enum StreamStep {
    /// The request was taken from the queue; whether its sender has gone.
    Taken { gone: bool },
    /// The model was asked for the next chunk; whether it gave one.
    Asked { ran: Ran, chunk: bool },
    /// The chunk was handed on; whether its receiver was still there.
    Delivered { received: bool },
}

/// What a model's thread does next in an incremental request. A sender that
/// has gone ends the request without an error.
pub open spec fn stream_work_for(family: Family, step: StreamStep) -> StreamWorkView {
    match step {
        StreamStep::Taken { gone } => if gone {
            StreamWorkView::End
        } else {
            StreamWorkView::Next
        },
        StreamStep::Asked { ran, chunk } => match failure_of(family, ran) {
            Some(e) => StreamWorkView::Report(e),
            None => if chunk {
                StreamWorkView::Deliver
            } else {
                StreamWorkView::End
            },
        },
        StreamStep::Delivered { received } => if received {
            StreamWorkView::Next
        } else {
            StreamWorkView::End
        },
    }
}

/// Decides what a model's thread does next in an incremental request.
pub fn stream_work(family: Family, step: &StreamStep) -> (r: StreamWork)
    ensures
        r@ == stream_work_for(family, *step),
        step matches StreamStep::Taken { gone } ==> (if *gone {
            r is End
        } else {
            r is Next
        }),
        step matches StreamStep::Delivered { received } ==> (if *received {
            r is Next
        } else {
            r is End
        }),
        step matches StreamStep::Asked { ran, chunk } ==> (match failure_of(family, *ran) {
            Some(e) => r matches StreamWork::Report(told) && told@ == e,
            None => if *chunk {
                r is Deliver
            } else {
                r is End
            },
        }),
{
    match step {
        StreamStep::Taken { gone } => if *gone {
            StreamWork::End
        } else {
            StreamWork::Next
        },
        StreamStep::Asked { ran, chunk } => match call_failure(family, ran) {
            Some(e) => StreamWork::Report(e),
            None => if *chunk {
                StreamWork::Deliver
            } else {
                StreamWork::End
            },
        },
        StreamStep::Delivered { received } => if *received {
            StreamWork::Next
        } else {
            StreamWork::End
        },
    }
}

/// The token that ends a sequence, given the ids of `<|im_end|>` and
/// `<|endoftext|>` in a tokenizer's vocabulary.
pub open spec fn end_token(im_end: Option<u32>, end_of_text: Option<u32>) -> u32 {
    match (im_end, end_of_text) {
        (Some(id), _) => id,
        (None, Some(id)) => id,
        (None, None) => 2,
    }
}

/// Picks the token that ends a sequence, given the ids of `<|im_end|>` and
/// `<|endoftext|>` in a tokenizer's vocabulary.
pub fn detect_tts_eos(im_end: Option<u32>, end_of_text: Option<u32>) -> (r: u32)
    ensures
        r == end_token(im_end, end_of_text),
        im_end matches Some(id) ==> r == id,
        im_end is None ==> (end_of_text matches Some(id) ==> r == id),
        im_end is None && end_of_text is None ==> r == 2,
{
    match im_end {
        Some(id) => id,
        None => match end_of_text {
            Some(id) => id,
            None => 2,
        },
    }
}

/// A model that is registered is found under its name as it told of itself, with
/// no request pending; the other models, and all other settings, stay as they
/// were.
pub proof fn law_registered(
    runtime: RuntimeView,
    name: Seq<char>,
    other: Seq<char>,
    tts: TtsModel,
    asr: AsrModel,
    model_type_name: Seq<char>,
    cache_model_id: Seq<char>,
)
    ensures
        ({
            let after = runtime.with_tts(name, tts, model_type_name, cache_model_id);
            &&& table::lookup(after.tts, name) matches Some(view) && view.id == runtime.next_id
                && view.audio_info == tts.audio_info && view.voices == voices_view(tts.voices@)
                && view.supports_voice_cloning == tts.supports_voice_cloning
                && view.model_type_name == model_type_name && view.cache_model_id == cache_model_id
                && view.pending_count == 0
            &&& other != name ==> table::lookup(after.tts, other) == table::lookup(
                runtime.tts,
                other,
            )
            &&& after.asr == runtime.asr && after.caching == runtime.caching && after.streaming
                == runtime.streaming && after.vad == runtime.vad
        }),
        ({
            let after = runtime.with_asr(name, asr, model_type_name);
            &&& table::lookup(after.asr, name) matches Some(view) && view.id == runtime.next_id
                && view.input_sample_rate == asr.input_sample_rate && view.languages == text::texts(
                asr.languages@,
            ) && view.model_type_name == model_type_name && view.pending_count == 0
            &&& other != name ==> table::lookup(after.asr, other) == table::lookup(
                runtime.asr,
                other,
            )
            &&& after.tts == runtime.tts && after.caching == runtime.caching && after.streaming
                == runtime.streaming && after.vad == runtime.vad
        }),
{
    lemma_entry_set(
        runtime.tts,
        name,
        other,
        new_tts(runtime.next_id, tts, model_type_name, cache_model_id),
    );
    lemma_entry_set(runtime.asr, name, other, new_asr(runtime.next_id, asr, model_type_name));
}

/// What a name finds once an entry has been set.
proof fn lemma_entry_set<V>(
    entries: Seq<(Seq<char>, V)>,
    name: Seq<char>,
    other: Seq<char>,
    value: V,
)
    ensures
        table::lookup(table::with_entry(entries, name, value), name) == Some(value),
        other != name ==> table::lookup(table::with_entry(entries, name, value), other)
            == table::lookup(entries, other),
{
    let after = table::with_entry(entries, name, value);
    let p = table::index_in(entries, name);
    table::lemma_index(entries, name);
    table::lemma_index_is(after, name, p);
    if other != name {
        let q = table::index_in(entries, other);
        table::lemma_index(entries, other);
        if q < entries.len() {
            table::lemma_index_is(after, other, q);
        } else {
            table::lemma_index_is(after, other, after.len() as int);
        }
    }
}

/// A request is counted by the model that it goes to, and by no other.
pub proof fn law_counted(
    tts: Seq<(Seq<char>, TtsView)>,
    asr: Seq<(Seq<char>, AsrView)>,
    name: Seq<char>,
    other: Seq<char>,
)
    requires
        other != name,
    ensures
        table::lookup(tts, name) matches Some(view) ==> (table::lookup(
            tts_counted(tts, name),
            name,
        ) matches Some(after) && (view.pending_count < u64::MAX ==> after.pending_count
            == view.pending_count + 1) && after.id == view.id && after.voices == view.voices
            && after.audio_info == view.audio_info) && table::lookup(tts_counted(tts, name), other)
            == table::lookup(tts, other),
        table::lookup(asr, name) matches Some(view) ==> (table::lookup(
            asr_counted(asr, name),
            name,
        ) matches Some(after) && (view.pending_count < u64::MAX ==> after.pending_count
            == view.pending_count + 1) && after.id == view.id && after.languages == view.languages
            && after.input_sample_rate == view.input_sample_rate) && table::lookup(
            asr_counted(asr, name),
            other,
        ) == table::lookup(asr, other),
{
    if let Some(view) = table::lookup(tts, name) {
        lemma_entry_set(
            tts,
            name,
            other,
            TtsView { pending_count: one_more(view.pending_count), ..view },
        );
    }
    if let Some(view) = table::lookup(asr, name) {
        lemma_entry_set(
            asr,
            name,
            other,
            AsrView { pending_count: one_more(view.pending_count), ..view },
        );
    }
}

/// What is constructed for a model is what its directory, or else its path, shows
/// it to be; a model of the other family is refused.
pub proof fn law_constructed(path: Seq<char>, probed: Option<ModelType>)
    ensures
        ({
            let shown = match probed {
                Some(model_type) => model_type,
                None => model_factory::path_type(path),
            };
            &&& shown is Qwen3TTS ==> tts_plan_of(path, probed) == Ok::<
                (ModelType, TtsArchitecture),
                Seq<char>,
            >((ModelType::Qwen3TTS, TtsArchitecture::Qwen3)) && asr_plan_of(path, probed) is Err
            &&& shown is VoxtralTTS ==> tts_plan_of(path, probed) == Ok::<
                (ModelType, TtsArchitecture),
                Seq<char>,
            >((ModelType::VoxtralTTS, TtsArchitecture::Voxtral)) && asr_plan_of(
                path,
                probed,
            ) is Err
            &&& shown is Qwen3ASR ==> asr_plan_of(path, probed) == Ok::<
                (ModelType, AsrArchitecture),
                Seq<char>,
            >((ModelType::Qwen3ASR, AsrArchitecture::Qwen3)) && tts_plan_of(path, probed) is Err
        }),
{
}

} // verus!
