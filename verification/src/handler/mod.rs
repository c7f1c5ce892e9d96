//! Wyoming event handling for TTS and ASR requests.
//!
//! A connection's events are answered one after the other: `synthesize` by
//! generated speech, `transcribe` by a transcript of the audio that follows,
//! `describe` by the available models and voices, `ping` by `pong`. This
//! module decides what an event asks for and which model it concerns; the
//! modules below it say what is answered.

use vstd::prelude::*;
use vstd::string::*;
use crate::engine::runtime;
use crate::engine::runtime::{AsrView, ModelRuntime, RuntimeView, TtsView, VoiceInfo, VoiceInfoView};
use crate::event;
use crate::event::{
    ErrorData, Event, EventView, PingData, PongData, SynthesizeData, SynthesizeStartData,
    TranscribeData, VoiceView,
};
use crate::table;
use crate::text;

pub mod connection;
pub mod info;
pub mod speech;
pub mod transcription;

verus! {

/// Whether a character separates the subtags of a language tag.
pub open spec fn is_tag_separator(c: char) -> bool {
    c == '-' || c == '_'
}

/// The base subtag of a language tag, in lower case.
pub open spec fn base_subtag(language: Seq<char>) -> Seq<char> {
    text::lowered(language.take(text::first_where(language, |c: char| is_tag_separator(c))))
}

/// Extracts the base subtag of a language tag, lowercased, e.g. `"de-DE"`,
/// `"de_DE"`, and `"DE"` all become `"de"`.
pub fn base_language_subtag(language: &str) -> (r: String)
    ensures
        r@ == base_subtag(language@),
{
    let chars = text::chars_of(language);
    let ghost stop = |c: char| is_tag_separator(c);
    let mut n: usize = 0;
    while n < chars.len() && chars[n] != '-' && chars[n] != '_'
        invariant
            n <= chars@.len(),
            forall|k: int| 0 <= k < n ==> !is_tag_separator(#[trigger] chars@[k]),
        decreases chars@.len() - n,
    {
        n = n + 1;
    }
    proof {
        text::lemma_first_where(language@, stop, n as int);
    }
    let base = text::slice_text(&chars, 0, n);
    proof {
        assert(base@ == language@.take(n as int));
    }
    text::to_lower(base.as_str())
}

/// Taking the base subtag of a base subtag changes nothing, so that a request
/// for `"de"` and one for `"de-DE"` look for the same voices.
pub proof fn law_base_subtag(language: Seq<char>)
    ensures
        base_subtag(base_subtag(language)) == base_subtag(language),
{
    let stop = |c: char| is_tag_separator(c);
    text::lemma_first_where_is(language, stop);
    let n = text::first_where(language, stop);
    let base = base_subtag(language);
    assert forall|k: int| 0 <= k < base.len() implies !stop(#[trigger] base[k]) by {
        assert(!stop(language[k]));
    }
    text::lemma_first_where(base, stop, base.len() as int);
    assert(base.take(base.len() as int) == base);
    assert(text::lowered(base) == base);
}

/// The base subtag of a language tag is what stands before its first separator, a
/// hyphen or an underscore, or the whole tag where it has none; its ASCII letters
/// are put in lower case.
pub proof fn law_base_subtag_first(head: Seq<char>, separator: char, tail: Seq<char>)
    requires
        forall|i: int| 0 <= i < head.len() ==> head[i] != '-' && head[i] != '_',
        separator == '-' || separator == '_',
    ensures
        base_subtag(head + seq![separator] + tail) == text::lowered(head),
        base_subtag(head) == text::lowered(head),
{
    let stop = |c: char| is_tag_separator(c);
    let tag = head + seq![separator] + tail;
    assert(tag[head.len() as int] == separator);
    text::lemma_first_where(tag, stop, head.len() as int);
    text::lemma_first_where(head, stop, head.len() as int);
    assert(tag.take(head.len() as int) == head);
    assert(head.take(head.len() as int) == head);
}

/// The claims of one model to its voices' names.
pub open spec fn model_voice_claims(model: Seq<char>, voices: Seq<VoiceInfoView>) -> Seq<
    (Seq<char>, Seq<char>),
> {
    voices.map_values(|v: VoiceInfoView| (v.name, model))
}

/// The claims of the named models to their voices' names, in order.
pub open spec fn voice_claims(names: Seq<Seq<char>>, tts: Seq<(Seq<char>, TtsView)>) -> Seq<
    (Seq<char>, Seq<char>),
>
    decreases names.len(),
{
    if names.len() == 0 {
        Seq::empty()
    } else {
        voice_claims(names.drop_last(), tts) + (match table::lookup(tts, names.last()) {
            Some(handle) => model_voice_claims(names.last(), handle.voices),
            None => Seq::empty(),
        })
    }
}

/// The claims of one voice to its languages.
pub open spec fn voice_language_claims(model: Seq<char>, voice: VoiceInfoView) -> Seq<
    (Seq<char>, (Seq<char>, Seq<char>)),
> {
    voice.languages.map_values(|l: Seq<char>| (base_subtag(l), (model, voice.name)))
}

/// The claims of one model's voices to their languages, in order.
pub open spec fn model_language_claims(model: Seq<char>, voices: Seq<VoiceInfoView>) -> Seq<
    (Seq<char>, (Seq<char>, Seq<char>)),
>
    decreases voices.len(),
{
    if voices.len() == 0 {
        Seq::empty()
    } else {
        model_language_claims(model, voices.drop_last()) + voice_language_claims(
            model,
            voices.last(),
        )
    }
}

/// The claims of the named models' voices to their languages, in order.
pub open spec fn language_claims(names: Seq<Seq<char>>, tts: Seq<(Seq<char>, TtsView)>) -> Seq<
    (Seq<char>, (Seq<char>, Seq<char>)),
>
    decreases names.len(),
{
    if names.len() == 0 {
        Seq::empty()
    } else {
        language_claims(names.drop_last(), tts) + (match table::lookup(tts, names.last()) {
            Some(handle) => model_language_claims(names.last(), handle.voices),
            None => Seq::empty(),
        })
    }
}

/// A list of names, each with another name.
pub open spec fn name_pairs(pairs: Seq<(String, String)>) -> Seq<(Seq<char>, Seq<char>)> {
    pairs.map_values(|p: (String, String)| (p.0@, p.1@))
}

/// A list of names, each with two other names.
pub open spec fn name_triples(triples: Seq<(String, (String, String))>) -> Seq<
    (Seq<char>, (Seq<char>, Seq<char>)),
> {
    triples.map_values(|p: (String, (String, String))| (p.0@, (p.1.0@, p.1.1@)))
}

/// What a lookup gives once `key` has claimed `value`: the first claim counts.
pub open spec fn claimed<V>(before: Option<V>, key: Seq<char>, value: V, name: Seq<char>) -> Option<
    V,
> {
    match before {
        Some(v) => Some(v),
        None => if name == key {
            Some(value)
        } else {
            None
        },
    }
}

/// Records a claim to a name.
fn claim(pairs: &mut Vec<(String, String)>, key: &str, value: &str)
    requires
        table::distinct(name_pairs(old(pairs)@)),
    ensures
        table::distinct(name_pairs(final(pairs)@)),
        forall|q: Seq<char>| #[trigger]
            table::lookup(name_pairs(final(pairs)@), q) == claimed(
                table::lookup(name_pairs(old(pairs)@), q),
                key@,
                value@,
                q,
            ),
{
    let ghost before = name_pairs(pairs@);
    let mut i: usize = 0;
    while i < pairs.len() && !text::same(pairs[i].0.as_str(), key)
        invariant
            i <= pairs@.len(),
            before == name_pairs(pairs@),
            forall|k: int| 0 <= k < i ==> (#[trigger] before[k]).0 != key@,
        decreases pairs@.len() - i,
    {
        i = i + 1;
    }
    proof {
        table::lemma_index_is(before, key@, i as int);
    }
    if i == pairs.len() {
        pairs.push((String::from_str(key), String::from_str(value)));
        proof {
            table::lemma_lookup_push(before, key@, value@);
            assert(name_pairs(pairs@) == before.push((key@, value@)));
        }
    }
}

/// Records a claim to a name by a pair.
fn claim_pair(triples: &mut Vec<(String, (String, String))>, key: String, a: &str, b: &str)
    requires
        table::distinct(name_triples(old(triples)@)),
    ensures
        table::distinct(name_triples(final(triples)@)),
        forall|q: Seq<char>| #[trigger]
            table::lookup(name_triples(final(triples)@), q) == claimed(
                table::lookup(name_triples(old(triples)@), q),
                key@,
                (a@, b@),
                q,
            ),
{
    let ghost before = name_triples(triples@);
    let ghost name = key@;
    let mut i: usize = 0;
    while i < triples.len() && !text::same(triples[i].0.as_str(), key.as_str())
        invariant
            i <= triples@.len(),
            before == name_triples(triples@),
            forall|k: int| 0 <= k < i ==> (#[trigger] before[k]).0 != key@,
        decreases triples@.len() - i,
    {
        i = i + 1;
    }
    proof {
        table::lemma_index_is(before, name, i as int);
    }
    if i == triples.len() {
        triples.push((key, (String::from_str(a), String::from_str(b))));
        proof {
            table::lemma_lookup_push(before, name, (a@, b@));
            assert(name_triples(triples@) == before.push((name, (a@, b@))));
        }
    }
}

/// The first of two claims.
pub open spec fn first_claim<V>(first: Option<V>, second: Option<V>) -> Option<V> {
    match first {
        Some(v) => Some(v),
        None => second,
    }
}

/// Records the claims of a voice to its languages.
fn add_languages(triples: &mut Vec<(String, (String, String))>, name: &str, voice: &VoiceInfo)
    requires
        table::distinct(name_triples(old(triples)@)),
    ensures
        table::distinct(name_triples(final(triples)@)),
        forall|q: Seq<char>| #[trigger]
            table::lookup(name_triples(final(triples)@), q) == first_claim(
                table::lookup(name_triples(old(triples)@), q),
                table::lookup(voice_language_claims(name@, voice@), q),
            ),
{
    let ghost before = name_triples(triples@);
    let ghost claims = voice_language_claims(name@, voice@);
    let mut k: usize = 0;
    proof {
        assert(claims.take(0) == Seq::<(Seq<char>, (Seq<char>, Seq<char>))>::empty());
    }
    while k < voice.languages.len()
        invariant
            k <= voice.languages@.len(),
            claims == voice_language_claims(name@, voice@),
            table::distinct(name_triples(triples@)),
            forall|q: Seq<char>| #[trigger]
                table::lookup(name_triples(triples@), q) == first_claim(
                    table::lookup(before, q),
                    table::lookup(claims.take(k as int), q),
                ),
        decreases voice.languages@.len() - k,
    {
        let base = base_language_subtag(voice.languages[k].as_str());
        proof {
            let claim = claims[k as int];
            assert(claim == (base@, (name@, voice.name@)));
            assert(claims.take(k + 1) == claims.take(k as int).push(claim));
            table::lemma_lookup_push(claims.take(k as int), claim.0, claim.1);
        }
        claim_pair(triples, base, name, voice.name.as_str());
        k = k + 1;
    }
    proof {
        assert(claims.take(k as int) == claims);
    }
}

/// Records the claims of a model's voices to their names and languages.
fn add_voices(
    pairs: &mut Vec<(String, String)>,
    triples: &mut Vec<(String, (String, String))>,
    name: &str,
    voices: &Vec<VoiceInfo>,
)
    requires
        table::distinct(name_pairs(old(pairs)@)),
        table::distinct(name_triples(old(triples)@)),
    ensures
        table::distinct(name_pairs(final(pairs)@)),
        table::distinct(name_triples(final(triples)@)),
        forall|q: Seq<char>| #[trigger]
            table::lookup(name_pairs(final(pairs)@), q) == first_claim(
                table::lookup(name_pairs(old(pairs)@), q),
                table::lookup(model_voice_claims(name@, runtime::voices_view(voices@)), q),
            ),
        forall|q: Seq<char>| #[trigger]
            table::lookup(name_triples(final(triples)@), q) == first_claim(
                table::lookup(name_triples(old(triples)@), q),
                table::lookup(model_language_claims(name@, runtime::voices_view(voices@)), q),
            ),
{
    let ghost views = runtime::voices_view(voices@);
    let ghost claims = model_voice_claims(name@, views);
    let ghost first_pairs = name_pairs(pairs@);
    let ghost first_triples = name_triples(triples@);
    let mut k: usize = 0;
    proof {
        assert(claims.take(0) == Seq::<(Seq<char>, Seq<char>)>::empty());
        assert(views.take(0) == Seq::<VoiceInfoView>::empty());
    }
    while k < voices.len()
        invariant
            k <= voices@.len(),
            views == runtime::voices_view(voices@),
            claims == model_voice_claims(name@, views),
            table::distinct(name_pairs(pairs@)),
            table::distinct(name_triples(triples@)),
            forall|q: Seq<char>| #[trigger]
                table::lookup(name_pairs(pairs@), q) == first_claim(
                    table::lookup(first_pairs, q),
                    table::lookup(claims.take(k as int), q),
                ),
            forall|q: Seq<char>| #[trigger]
                table::lookup(name_triples(triples@), q) == first_claim(
                    table::lookup(first_triples, q),
                    table::lookup(model_language_claims(name@, views.take(k as int)), q),
                ),
        decreases voices@.len() - k,
    {
        let voice = &voices[k];
        proof {
            let claim = claims[k as int];
            assert(claim == (voice.name@, name@));
            assert(claims.take(k + 1) == claims.take(k as int).push(claim));
            table::lemma_lookup_push(claims.take(k as int), claim.0, claim.1);
        }
        claim(pairs, voice.name.as_str(), name);
        add_languages(triples, name, voice);
        proof {
            let shorter = views.take(k as int);
            let longer = views.take(k + 1);
            assert(longer.drop_last() == shorter);
            assert(longer.last() == voice@);
            assert forall|q: Seq<char>| #[trigger]
                table::lookup(name_triples(triples@), q) == first_claim(
                    table::lookup(first_triples, q),
                    table::lookup(model_language_claims(name@, longer), q),
                ) by {
                table::lemma_lookup_concat(
                    model_language_claims(name@, shorter),
                    voice_language_claims(name@, voice@),
                    q,
                );
            }
        }
        k = k + 1;
    }
    proof {
        assert(claims.take(k as int) == claims);
        assert(views.take(k as int) == views);
    }
}

/// Maps voice names to TTS model registration names.
///
/// When two models define the same voice name, the model listed first wins
/// (the "first model on the command line wins" rule for service discovery).
pub struct VoiceMap {
    /// voice name -> model registration name
    pub voices: Vec<(String, String)>,
    /// lowercased base language subtag -> model registration name and voice
    /// name of the first voice offering that language.
    pub by_language: Vec<(String, (String, String))>,
    /// Registration names of the configured models that were found in the
    /// runtime.
    pub model_names: Vec<String>,
    /// Name of the default model, used when a request names no voice and no
    /// language matching any known voice.
    pub default_model: Option<String>,
}

impl VoiceMap {
    /// No voice and no language stands twice.
    pub open spec fn well_formed(&self) -> bool {
        table::distinct(name_pairs(self.voices@)) && table::distinct(
            name_triples(self.by_language@),
        )
    }

    /// The model that a voice belongs to.
    pub open spec fn voice_model(&self, voice: Seq<char>) -> Option<Seq<char>> {
        table::lookup(name_pairs(self.voices@), voice)
    }

    /// The model and voice that speak a language, given by its base subtag.
    pub open spec fn language_voice(&self, base: Seq<char>) -> Option<(Seq<char>, Seq<char>)> {
        table::lookup(name_triples(self.by_language@), base)
    }

    /// Whether a model is configured.
    pub open spec fn configured(&self, name: Seq<char>) -> bool {
        text::texts(self.model_names@).contains(name)
    }

    /// The map is the one for the given names and runtime: the first of the
    /// models listed claims a voice or a language, and names that the runtime
    /// does not know are skipped.
    pub open spec fn maps(&self, names: Seq<Seq<char>>, runtime: RuntimeView) -> bool {
        &&& self.well_formed()
        &&& forall|v: Seq<char>| #[trigger]
            self.voice_model(v) == table::lookup(voice_claims(names, runtime.tts), v)
        &&& forall|l: Seq<char>| #[trigger]
            self.language_voice(l) == table::lookup(language_claims(names, runtime.tts), l)
        &&& forall|n: Seq<char>| #[trigger]
            self.configured(n) == (names.contains(n) && table::lookup(runtime.tts, n) is Some)
        &&& text::opt_text(self.default_model) == runtime.default_tts()
    }

    /// Builds a voice-to-model mapping from a [`ModelRuntime`].
    ///
    /// `model_names` gives model registration names in priority order.
    pub fn new(model_names: &[String], runtime: &ModelRuntime) -> (r: Self)
        ensures
            r.maps(text::texts(model_names@), runtime@),
    {
        let ghost names = text::texts(model_names@);
        let ghost tts = runtime@.tts;
        let mut voices: Vec<(String, String)> = Vec::new();
        let mut by_language: Vec<(String, (String, String))> = Vec::new();
        let mut found: Vec<String> = Vec::new();
        let mut i: usize = 0;
        proof {
            assert(name_pairs(voices@) == voice_claims(names.take(0), tts));
            assert(name_triples(by_language@) == language_claims(names.take(0), tts));
            assert(text::texts(found@) == Seq::<Seq<char>>::empty());
        }
        while i < model_names.len()
            invariant
                i <= model_names@.len(),
                names == text::texts(model_names@),
                tts == runtime@.tts,
                table::distinct(name_pairs(voices@)),
                table::distinct(name_triples(by_language@)),
                forall|q: Seq<char>| #[trigger]
                    table::lookup(name_pairs(voices@), q) == table::lookup(
                        voice_claims(names.take(i as int), tts),
                        q,
                    ),
                forall|q: Seq<char>| #[trigger]
                    table::lookup(name_triples(by_language@), q) == table::lookup(
                        language_claims(names.take(i as int), tts),
                        q,
                    ),
                forall|n: Seq<char>| #[trigger]
                    text::texts(found@).contains(n) == (names.take(i as int).contains(n)
                        && table::lookup(tts, n) is Some),
            decreases model_names@.len() - i,
        {
            let name = model_names[i].as_str();
            let ghost seen = names.take(i as int);
            let ghost more = names.take(i + 1);
            proof {
                assert(more.drop_last() == seen);
                assert(more.last() == name@);
                assert(more == seen.push(name@));
                text::lemma_contains_push(seen, name@);
            }
            match runtime.tts_handle(name) {
                None => {
                    proof {
                        assert(voice_claims(more, tts) == voice_claims(seen, tts));
                        assert(language_claims(more, tts) == language_claims(seen, tts));
                    }
                },
                Some(handle) => {
                    let ghost pairs = name_pairs(voices@);
                    let ghost triples = name_triples(by_language@);
                    let ghost offered = runtime::voices_view(handle.model.voices@);
                    add_voices(&mut voices, &mut by_language, name, handle.voices());
                    proof {
                        assert forall|q: Seq<char>| #[trigger]
                            table::lookup(name_pairs(voices@), q) == table::lookup(
                                voice_claims(more, tts),
                                q,
                            ) by {
                            table::lemma_lookup_concat(
                                voice_claims(seen, tts),
                                model_voice_claims(name@, offered),
                                q,
                            );
                        }
                        assert forall|q: Seq<char>| #[trigger]
                            table::lookup(name_triples(by_language@), q) == table::lookup(
                                language_claims(more, tts),
                                q,
                            ) by {
                            table::lemma_lookup_concat(
                                language_claims(seen, tts),
                                model_language_claims(name@, offered),
                                q,
                            );
                        }
                    }
                    let ghost before = text::texts(found@);
                    found.push(model_names[i].clone());
                    proof {
                        assert(text::texts(found@) == before.push(name@));
                        text::lemma_contains_push(before, name@);
                    }
                },
            }
            i = i + 1;
        }
        proof {
            assert(names.take(i as int) == names);
        }
        let default_model = match runtime.default_tts_name() {
            Some(name) => Some(String::from_str(name)),
            None => None,
        };
        VoiceMap { voices, by_language, model_names: found, default_model }
    }

    /// Returns the model registration name for `voice_name`, if known.
    pub fn model_for_voice(&self, voice_name: &str) -> (r: Option<&str>)
        ensures
            match r {
                Some(model) => self.voice_model(voice_name@) == Some(model@),
                None => self.voice_model(voice_name@) is None,
            },
    {
        let ghost pairs = name_pairs(self.voices@);
        let mut i: usize = 0;
        while i < self.voices.len() && !text::same(self.voices[i].0.as_str(), voice_name)
            invariant
                i <= self.voices@.len(),
                pairs == name_pairs(self.voices@),
                forall|k: int| 0 <= k < i ==> (#[trigger] pairs[k]).0 != voice_name@,
            decreases self.voices@.len() - i,
        {
            i = i + 1;
        }
        proof {
            table::lemma_index_is(pairs, voice_name@, i as int);
        }
        if i < self.voices.len() {
            Some(self.voices[i].1.as_str())
        } else {
            None
        }
    }

    /// Returns the model registration name and voice name of the first
    /// registered voice offering `language`, if any.
    ///
    /// Matching compares only the base subtag, case-insensitively, so a
    /// request for `"de"` matches a voice tagged `"de"`, `"de-DE"`, or
    /// `"de_DE"`.
    pub fn model_for_language(&self, language: &str) -> (r: Option<(&str, &str)>)
        ensures
            match r {
                Some((model, voice)) => self.language_voice(base_subtag(language@)) == Some(
                    (model@, voice@),
                ),
                None => self.language_voice(base_subtag(language@)) is None,
            },
    {
        let base = base_language_subtag(language);
        let ghost triples = name_triples(self.by_language@);
        let mut i: usize = 0;
        while i < self.by_language.len() && !text::same(
            self.by_language[i].0.as_str(),
            base.as_str(),
        )
            invariant
                i <= self.by_language@.len(),
                triples == name_triples(self.by_language@),
                forall|k: int| 0 <= k < i ==> (#[trigger] triples[k]).0 != base@,
            decreases self.by_language@.len() - i,
        {
            i = i + 1;
        }
        proof {
            table::lemma_index_is(triples, base@, i as int);
        }
        if i < self.by_language.len() {
            let entry = &self.by_language[i].1;
            Some((entry.0.as_str(), entry.1.as_str()))
        } else {
            None
        }
    }

    /// Returns `true` if `name` is a configured model registration name.
    pub fn has_model(&self, name: &str) -> (r: bool)
        ensures
            r == self.configured(name@),
    {
        text::list_has(&self.model_names, name)
    }

    /// Returns the default model's registration name, if any TTS model is
    /// loaded.
    pub fn default_model(&self) -> (r: Option<&str>)
        ensures
            match r {
                Some(name) => text::opt_text(self.default_model) == Some(name@),
                None => self.default_model is None,
            },
    {
        match &self.default_model {
            Some(name) => Some(name.as_str()),
            None => None,
        }
    }
}

/// A model has a voice of the given name.
pub open spec fn offers_voice(
    tts: Seq<(Seq<char>, TtsView)>,
    model: Seq<char>,
    voice: Seq<char>,
) -> bool {
    table::lookup(tts, model) matches Some(handle) && exists|j: int|
        0 <= j < handle.voices.len() && (#[trigger] handle.voices[j]).name == voice
}

/// A name finds a voice in every model that is listed and loaded, not only in
/// the first; where several have it, the one listed first is meant.
pub proof fn law_every_voice_found(
    map: VoiceMap,
    names: Seq<Seq<char>>,
    runtime: RuntimeView,
    voice: Seq<char>,
)
    requires
        map.maps(names, runtime),
    ensures
        match map.voice_model(voice) {
            Some(model) => exists|m: int|
                0 <= m < names.len() && (#[trigger] names[m]) == model && offers_voice(
                    runtime.tts,
                    names[m],
                    voice,
                ) && forall|k: int|
                    0 <= k < m ==> !offers_voice(runtime.tts, #[trigger] names[k], voice),
            None => forall|k: int|
                0 <= k < names.len() ==> !offers_voice(runtime.tts, #[trigger] names[k], voice),
        },
{
    lemma_voice_claims(names, runtime.tts, voice);
}

/// The first model that has a voice claims it.
proof fn lemma_voice_claims(
    names: Seq<Seq<char>>,
    tts: Seq<(Seq<char>, TtsView)>,
    voice: Seq<char>,
)
    ensures
        match table::lookup(voice_claims(names, tts), voice) {
            Some(model) => exists|m: int|
                0 <= m < names.len() && (#[trigger] names[m]) == model && offers_voice(
                    tts,
                    names[m],
                    voice,
                ) && forall|k: int| 0 <= k < m ==> !offers_voice(tts, #[trigger] names[k], voice),
            None => forall|k: int|
                0 <= k < names.len() ==> !offers_voice(tts, #[trigger] names[k], voice),
        },
    decreases names.len(),
{
    if names.len() > 0 {
        let before = names.drop_last();
        let last = names.last();
        lemma_voice_claims(before, tts, voice);
        let own = match table::lookup(tts, last) {
            Some(handle) => model_voice_claims(last, handle.voices),
            None => Seq::empty(),
        };
        table::lemma_lookup_concat(voice_claims(before, tts), own, voice);
        assert forall|k: int| 0 <= k < before.len() implies before[k] == names[k] by {}
        match table::lookup(voice_claims(before, tts), voice) {
            Some(model) => {
                let m = choose|m: int|
                    0 <= m < before.len() && (#[trigger] before[m]) == model && offers_voice(
                        tts,
                        before[m],
                        voice,
                    ) && forall|k: int|
                        0 <= k < m ==> !offers_voice(tts, #[trigger] before[k], voice);
                assert(names[m] == model);
                assert forall|k: int| 0 <= k < m implies !offers_voice(
                    tts,
                    #[trigger] names[k],
                    voice,
                ) by {
                    assert(before[k] == names[k]);
                }
            },
            None => {
                assert forall|k: int| 0 <= k < before.len() implies !offers_voice(
                    tts,
                    #[trigger] names[k],
                    voice,
                ) by {
                    assert(before[k] == names[k]);
                }
                table::lemma_index(own, voice);
                let p = table::index_in(own, voice);
                assert(names[names.len() - 1] == last);
                if let Some(handle) = table::lookup(tts, last) {
                    if p < own.len() {
                        assert(own[p] == (handle.voices[p].name, last));
                        assert(offers_voice(tts, last, voice));
                    } else {
                        assert forall|j: int| 0 <= j < handle.voices.len() implies (
                        #[trigger] handle.voices[j]).name != voice by {
                            assert(own[j] == (handle.voices[j].name, last));
                        }
                        assert(!offers_voice(tts, last, voice));
                    }
                }
            },
        }
    }
}

/// A voice of a model speaks the language with the given base subtag.
pub open spec fn speaks(voice: VoiceInfoView, base: Seq<char>) -> bool {
    exists|l: int|
        0 <= l < voice.languages.len() && base_subtag(#[trigger] voice.languages[l]) == base
}

/// The voice at `j` is the first that speaks a language.
pub open spec fn first_speaker(voices: Seq<VoiceInfoView>, j: int, base: Seq<char>) -> bool {
    0 <= j < voices.len() && speaks(voices[j], base) && forall|i: int|
        0 <= i < j ==> !speaks(#[trigger] voices[i], base)
}

/// A model has a voice that speaks a language.
pub open spec fn offers_language(
    tts: Seq<(Seq<char>, TtsView)>,
    model: Seq<char>,
    base: Seq<char>,
) -> bool {
    table::lookup(tts, model) matches Some(handle) && exists|j: int|
        0 <= j < handle.voices.len() && speaks(#[trigger] handle.voices[j], base)
}

/// The first voice of a model that speaks a language has the given name.
pub open spec fn first_offer(
    tts: Seq<(Seq<char>, TtsView)>,
    model: Seq<char>,
    voice: Seq<char>,
    base: Seq<char>,
) -> bool {
    table::lookup(tts, model) matches Some(handle) && exists|j: int|
        #[trigger] first_speaker(handle.voices, j, base) && handle.voices[j].name == voice
}

/// A language finds the first voice that speaks it of the first model, of those
/// that are listed and loaded, that has one; and it finds a voice wherever there
/// is such a model.
pub proof fn law_language_found(
    map: VoiceMap,
    names: Seq<Seq<char>>,
    runtime: RuntimeView,
    base: Seq<char>,
)
    requires
        map.maps(names, runtime),
    ensures
        match map.language_voice(base) {
            Some((model, voice)) => exists|m: int|
                0 <= m < names.len() && (#[trigger] names[m]) == model && first_offer(
                    runtime.tts,
                    names[m],
                    voice,
                    base,
                ) && forall|k: int|
                    0 <= k < m ==> !offers_language(runtime.tts, #[trigger] names[k], base),
            None => forall|k: int|
                0 <= k < names.len() ==> !offers_language(runtime.tts, #[trigger] names[k], base),
        },
{
    lemma_language_claims(names, runtime.tts, base);
}

/// The first model that has a language claims it.
proof fn lemma_language_claims(
    names: Seq<Seq<char>>,
    tts: Seq<(Seq<char>, TtsView)>,
    base: Seq<char>,
)
    ensures
        match table::lookup(language_claims(names, tts), base) {
            Some((model, voice)) => exists|m: int|
                0 <= m < names.len() && (#[trigger] names[m]) == model && first_offer(
                    tts,
                    names[m],
                    voice,
                    base,
                ) && forall|k: int| 0 <= k < m ==> !offers_language(tts, #[trigger] names[k], base),
            None => forall|k: int|
                0 <= k < names.len() ==> !offers_language(tts, #[trigger] names[k], base),
        },
    decreases names.len(),
{
    if names.len() > 0 {
        let before = names.drop_last();
        let last = names.last();
        lemma_language_claims(before, tts, base);
        let own = match table::lookup(tts, last) {
            Some(handle) => model_language_claims(last, handle.voices),
            None => Seq::empty(),
        };
        table::lemma_lookup_concat(language_claims(before, tts), own, base);
        if let Some(handle) = table::lookup(tts, last) {
            lemma_model_language_claims(last, handle.voices, base);
        }
        match table::lookup(language_claims(before, tts), base) {
            Some((model, voice)) => {
                let m = choose|m: int|
                    0 <= m < before.len() && (#[trigger] before[m]) == model && first_offer(
                        tts,
                        before[m],
                        voice,
                        base,
                    ) && forall|k: int|
                        0 <= k < m ==> !offers_language(tts, #[trigger] before[k], base);
                assert(names[m] == model);
                assert forall|k: int| 0 <= k < m implies !offers_language(
                    tts,
                    #[trigger] names[k],
                    base,
                ) by {
                    assert(before[k] == names[k]);
                }
            },
            None => {
                assert forall|k: int| 0 <= k < before.len() implies !offers_language(
                    tts,
                    #[trigger] names[k],
                    base,
                ) by {
                    assert(before[k] == names[k]);
                }
                assert(names[names.len() - 1] == last);
                match table::lookup(own, base) {
                    Some((_, voice)) => {
                        assert(first_offer(tts, last, voice, base));
                    },
                    None => {
                        assert(!offers_language(tts, last, base));
                    },
                }
            },
        }
    }
}

/// The first voice of a model that speaks a language claims it.
proof fn lemma_model_language_claims(
    model: Seq<char>,
    voices: Seq<VoiceInfoView>,
    base: Seq<char>,
)
    ensures
        match table::lookup(model_language_claims(model, voices), base) {
            Some((m, voice)) => m == model && exists|j: int|
                #[trigger] first_speaker(voices, j, base) && voices[j].name == voice,
            None => forall|j: int| 0 <= j < voices.len() ==> !speaks(#[trigger] voices[j], base),
        },
    decreases voices.len(),
{
    if voices.len() > 0 {
        let before = voices.drop_last();
        let last = voices.last();
        let n = voices.len() - 1;
        lemma_model_language_claims(model, before, base);
        let own = voice_language_claims(model, last);
        table::lemma_lookup_concat(model_language_claims(model, before), own, base);
        table::lemma_index(own, base);
        let p = table::index_in(own, base);
        assert(voices[n] == last);
        match table::lookup(model_language_claims(model, before), base) {
            Some((m, voice)) => {
                let j = choose|j: int|
                    #[trigger] first_speaker(before, j, base) && before[j].name == voice;
                assert(voices[j] == before[j]);
                assert forall|i: int| 0 <= i < j implies !speaks(#[trigger] voices[i], base) by {
                    assert(voices[i] == before[i]);
                }
                assert(first_speaker(voices, j, base));
            },
            None => {
                assert forall|j: int| 0 <= j < n implies !speaks(#[trigger] voices[j], base) by {
                    assert(voices[j] == before[j]);
                }
                if p < own.len() {
                    assert(own[p] == (base_subtag(last.languages[p]), (model, last.name)));
                    assert(speaks(last, base));
                    assert(first_speaker(voices, n, base));
                } else {
                    assert forall|l: int| 0 <= l < last.languages.len() implies base_subtag(
                        #[trigger] last.languages[l],
                    ) != base by {
                        assert(own[l] == (base_subtag(last.languages[l]), (model, last.name)));
                    }
                }
            },
        }
    }
}

/// The claims of one ASR model to its languages.
pub open spec fn model_asr_claims(model: Seq<char>, languages: Seq<Seq<char>>) -> Seq<
    (Seq<char>, Seq<char>),
> {
    languages.map_values(|l: Seq<char>| (base_subtag(l), model))
}

/// The claims of the named ASR models to their languages, in order.
pub open spec fn asr_claims(names: Seq<Seq<char>>, asr: Seq<(Seq<char>, AsrView)>) -> Seq<
    (Seq<char>, Seq<char>),
>
    decreases names.len(),
{
    if names.len() == 0 {
        Seq::empty()
    } else {
        asr_claims(names.drop_last(), asr) + (match table::lookup(asr, names.last()) {
            Some(handle) => model_asr_claims(names.last(), handle.languages),
            None => Seq::empty(),
        })
    }
}

/// Records the claims of an ASR model to its languages.
fn add_asr_languages(pairs: &mut Vec<(String, String)>, name: &str, languages: &Vec<String>)
    requires
        table::distinct(name_pairs(old(pairs)@)),
    ensures
        table::distinct(name_pairs(final(pairs)@)),
        forall|q: Seq<char>| #[trigger]
            table::lookup(name_pairs(final(pairs)@), q) == first_claim(
                table::lookup(name_pairs(old(pairs)@), q),
                table::lookup(model_asr_claims(name@, text::texts(languages@)), q),
            ),
{
    let ghost before = name_pairs(pairs@);
    let ghost claims = model_asr_claims(name@, text::texts(languages@));
    let mut k: usize = 0;
    proof {
        assert(claims.take(0) == Seq::<(Seq<char>, Seq<char>)>::empty());
    }
    while k < languages.len()
        invariant
            k <= languages@.len(),
            claims == model_asr_claims(name@, text::texts(languages@)),
            table::distinct(name_pairs(pairs@)),
            forall|q: Seq<char>| #[trigger]
                table::lookup(name_pairs(pairs@), q) == first_claim(
                    table::lookup(before, q),
                    table::lookup(claims.take(k as int), q),
                ),
        decreases languages@.len() - k,
    {
        let base = base_language_subtag(languages[k].as_str());
        proof {
            let claim = claims[k as int];
            assert(claim == (base@, name@));
            assert(claims.take(k + 1) == claims.take(k as int).push(claim));
            table::lemma_lookup_push(claims.take(k as int), claim.0, claim.1);
        }
        claim(pairs, base.as_str(), name);
        k = k + 1;
    }
    proof {
        assert(claims.take(k as int) == claims);
    }
}

/// Maps ASR model names and languages to model registration names.
///
/// A `transcribe` request selects a model by explicit name, by language hint,
/// or falls back to the default model.
pub struct AsrModelMap {
    /// Registration names of the configured ASR models that were found in the
    /// runtime.
    pub model_names: Vec<String>,
    /// Lowercased base language subtag -> model registration name of the first
    /// model claiming that language.
    pub by_language: Vec<(String, String)>,
    /// Name of the default ASR model.
    pub default_model: Option<String>,
}

impl AsrModelMap {
    /// No language stands twice.
    pub open spec fn well_formed(&self) -> bool {
        table::distinct(name_pairs(self.by_language@))
    }

    /// The model for a language, given by its base subtag.
    pub open spec fn language_model(&self, base: Seq<char>) -> Option<Seq<char>> {
        table::lookup(name_pairs(self.by_language@), base)
    }

    /// Whether a model is configured.
    pub open spec fn configured(&self, name: Seq<char>) -> bool {
        text::texts(self.model_names@).contains(name)
    }

    /// The map is the one for the given names and runtime: the first of the
    /// models listed claims a language, and names that the runtime does not
    /// know are skipped.
    pub open spec fn maps(&self, names: Seq<Seq<char>>, runtime: RuntimeView) -> bool {
        &&& self.well_formed()
        &&& forall|l: Seq<char>| #[trigger]
            self.language_model(l) == table::lookup(asr_claims(names, runtime.asr), l)
        &&& forall|n: Seq<char>| #[trigger]
            self.configured(n) == (names.contains(n) && table::lookup(runtime.asr, n) is Some)
        &&& text::opt_text(self.default_model) == runtime.default_asr()
    }

    /// Builds an ASR model map from a [`ModelRuntime`].
    ///
    /// `model_names` lists model registration names to include.
    pub fn new(model_names: &[String], runtime: &ModelRuntime) -> (r: Self)
        ensures
            r.maps(text::texts(model_names@), runtime@),
    {
        let ghost names = text::texts(model_names@);
        let ghost asr = runtime@.asr;
        let mut by_language: Vec<(String, String)> = Vec::new();
        let mut found: Vec<String> = Vec::new();
        let mut i: usize = 0;
        proof {
            assert(name_pairs(by_language@) == asr_claims(names.take(0), asr));
            assert(text::texts(found@) == Seq::<Seq<char>>::empty());
        }
        while i < model_names.len()
            invariant
                i <= model_names@.len(),
                names == text::texts(model_names@),
                asr == runtime@.asr,
                table::distinct(name_pairs(by_language@)),
                forall|q: Seq<char>| #[trigger]
                    table::lookup(name_pairs(by_language@), q) == table::lookup(
                        asr_claims(names.take(i as int), asr),
                        q,
                    ),
                forall|n: Seq<char>| #[trigger]
                    text::texts(found@).contains(n) == (names.take(i as int).contains(n)
                        && table::lookup(asr, n) is Some),
            decreases model_names@.len() - i,
        {
            let name = model_names[i].as_str();
            let ghost seen = names.take(i as int);
            let ghost more = names.take(i + 1);
            proof {
                assert(more.drop_last() == seen);
                assert(more.last() == name@);
                assert(more == seen.push(name@));
                text::lemma_contains_push(seen, name@);
            }
            match runtime.asr_handle(name) {
                None => {
                    proof {
                        assert(asr_claims(more, asr) == asr_claims(seen, asr));
                    }
                },
                Some(handle) => {
                    let ghost offered = handle@.languages;
                    add_asr_languages(&mut by_language, name, handle.languages());
                    proof {
                        assert forall|q: Seq<char>| #[trigger]
                            table::lookup(name_pairs(by_language@), q) == table::lookup(
                                asr_claims(more, asr),
                                q,
                            ) by {
                            table::lemma_lookup_concat(
                                asr_claims(seen, asr),
                                model_asr_claims(name@, offered),
                                q,
                            );
                        }
                    }
                    let ghost before = text::texts(found@);
                    found.push(model_names[i].clone());
                    proof {
                        assert(text::texts(found@) == before.push(name@));
                        text::lemma_contains_push(before, name@);
                    }
                },
            }
            i = i + 1;
        }
        proof {
            assert(names.take(i as int) == names);
        }
        let default_model = match runtime.default_asr_name() {
            Some(name) => Some(String::from_str(name)),
            None => None,
        };
        AsrModelMap { model_names: found, by_language, default_model }
    }

    /// Returns `true` if `name` is a configured model registration name.
    pub fn has_model(&self, name: &str) -> (r: bool)
        ensures
            r == self.configured(name@),
    {
        text::list_has(&self.model_names, name)
    }

    /// Returns the map's own copy of `name`, if it's configured.
    pub fn model_name(&self, name: &str) -> (r: Option<&str>)
        ensures
            match r {
                Some(own) => self.configured(name@) && own@ == name@,
                None => !self.configured(name@),
            },
    {
        let mut i: usize = 0;
        while i < self.model_names.len()
            invariant
                i <= self.model_names@.len(),
                forall|k: int|
                    0 <= k < i ==> (#[trigger] text::texts(self.model_names@)[k]) != name@,
            decreases self.model_names@.len() - i,
        {
            if text::same(self.model_names[i].as_str(), name) {
                proof {
                    assert(text::texts(self.model_names@)[i as int] == name@);
                }
                return Some(self.model_names[i].as_str());
            }
            i = i + 1;
        }
        None
    }

    /// Returns the registration name of the first model claiming to support
    /// `language`, matched on the base language subtag.
    pub fn model_for_language(&self, language: &str) -> (r: Option<&str>)
        ensures
            match r {
                Some(model) => self.language_model(base_subtag(language@)) == Some(model@),
                None => self.language_model(base_subtag(language@)) is None,
            },
    {
        let base = base_language_subtag(language);
        let ghost pairs = name_pairs(self.by_language@);
        let mut i: usize = 0;
        while i < self.by_language.len() && !text::same(
            self.by_language[i].0.as_str(),
            base.as_str(),
        )
            invariant
                i <= self.by_language@.len(),
                pairs == name_pairs(self.by_language@),
                forall|k: int| 0 <= k < i ==> (#[trigger] pairs[k]).0 != base@,
            decreases self.by_language@.len() - i,
        {
            i = i + 1;
        }
        proof {
            table::lemma_index_is(pairs, base@, i as int);
        }
        if i < self.by_language.len() {
            Some(self.by_language[i].1.as_str())
        } else {
            None
        }
    }

    /// Returns the default model's registration name, if any ASR model is
    /// loaded.
    pub fn default_model(&self) -> (r: Option<&str>)
        ensures
            match r {
                Some(name) => text::opt_text(self.default_model) == Some(name@),
                None => self.default_model is None,
            },
    {
        match &self.default_model {
            Some(name) => Some(name.as_str()),
            None => None,
        }
    }
}

/// An ASR model understands the language with the given base subtag.
pub open spec fn understands(
    asr: Seq<(Seq<char>, AsrView)>,
    model: Seq<char>,
    base: Seq<char>,
) -> bool {
    table::lookup(asr, model) matches Some(handle) && exists|l: int|
        0 <= l < handle.languages.len() && base_subtag(#[trigger] handle.languages[l]) == base
}

/// A language finds the first ASR model that understands it, of those that are
/// listed and loaded; and it finds one wherever there is one.
pub proof fn law_asr_language_found(
    map: AsrModelMap,
    names: Seq<Seq<char>>,
    runtime: RuntimeView,
    base: Seq<char>,
)
    requires
        map.maps(names, runtime),
    ensures
        match map.language_model(base) {
            Some(model) => exists|m: int|
                0 <= m < names.len() && (#[trigger] names[m]) == model && understands(
                    runtime.asr,
                    names[m],
                    base,
                ) && forall|k: int|
                    0 <= k < m ==> !understands(runtime.asr, #[trigger] names[k], base),
            None => forall|k: int|
                0 <= k < names.len() ==> !understands(runtime.asr, #[trigger] names[k], base),
        },
{
    lemma_asr_claims(names, runtime.asr, base);
}

/// The first ASR model that understands a language claims it.
proof fn lemma_asr_claims(
    names: Seq<Seq<char>>,
    asr: Seq<(Seq<char>, AsrView)>,
    base: Seq<char>,
)
    ensures
        match table::lookup(asr_claims(names, asr), base) {
            Some(model) => exists|m: int|
                0 <= m < names.len() && (#[trigger] names[m]) == model && understands(
                    asr,
                    names[m],
                    base,
                ) && forall|k: int| 0 <= k < m ==> !understands(asr, #[trigger] names[k], base),
            None => forall|k: int|
                0 <= k < names.len() ==> !understands(asr, #[trigger] names[k], base),
        },
    decreases names.len(),
{
    if names.len() > 0 {
        let before = names.drop_last();
        let last = names.last();
        lemma_asr_claims(before, asr, base);
        let own = match table::lookup(asr, last) {
            Some(handle) => model_asr_claims(last, handle.languages),
            None => Seq::empty(),
        };
        table::lemma_lookup_concat(asr_claims(before, asr), own, base);
        match table::lookup(asr_claims(before, asr), base) {
            Some(model) => {
                let m = choose|m: int|
                    0 <= m < before.len() && (#[trigger] before[m]) == model && understands(
                        asr,
                        before[m],
                        base,
                    ) && forall|k: int|
                        0 <= k < m ==> !understands(asr, #[trigger] before[k], base);
                assert(names[m] == model);
                assert forall|k: int| 0 <= k < m implies !understands(
                    asr,
                    #[trigger] names[k],
                    base,
                ) by {
                    assert(before[k] == names[k]);
                }
            },
            None => {
                assert forall|k: int| 0 <= k < before.len() implies !understands(
                    asr,
                    #[trigger] names[k],
                    base,
                ) by {
                    assert(before[k] == names[k]);
                }
                table::lemma_index(own, base);
                let p = table::index_in(own, base);
                assert(names[names.len() - 1] == last);
                if let Some(handle) = table::lookup(asr, last) {
                    if p < own.len() {
                        assert(own[p] == (base_subtag(handle.languages[p]), last));
                        assert(understands(asr, last, base));
                    } else {
                        assert forall|l: int| 0 <= l < handle.languages.len() implies base_subtag(
                            #[trigger] handle.languages[l],
                        ) != base by {
                            assert(own[l] == (base_subtag(handle.languages[l]), last));
                        }
                        assert(!understands(asr, last, base));
                    }
                }
            },
        }
    }
}

/// A voice of a loaded model is offered under its name, and in every language it
/// is tagged with: tags are told apart by their base subtags alone. So it is with
/// the languages of an ASR model.
pub proof fn law_offered(
    runtime: RuntimeView,
    model: Seq<char>,
    voice: Seq<char>,
    language: Seq<char>,
)
    ensures
        offers_voice(runtime.tts, model, voice) <==> (table::lookup(
            runtime.tts,
            model,
        ) matches Some(handle) && exists|j: int|
            0 <= j < handle.voices.len() && (#[trigger] handle.voices[j]).name == voice),
        offers_language(runtime.tts, model, base_subtag(language)) <==> (table::lookup(
            runtime.tts,
            model,
        ) matches Some(handle) && exists|j: int, l: int|
            0 <= j < handle.voices.len() && 0 <= l < handle.voices[j].languages.len()
                && base_subtag(#[trigger] handle.voices[j].languages[l]) == base_subtag(language)),
        understands(runtime.asr, model, base_subtag(language)) <==> (table::lookup(
            runtime.asr,
            model,
        ) matches Some(handle) && exists|l: int|
            0 <= l < handle.languages.len() && base_subtag(#[trigger] handle.languages[l])
                == base_subtag(language)),
{
    let base = base_subtag(language);
    if let Some(handle) = table::lookup(runtime.tts, model) {
        if exists|j: int, l: int|
            0 <= j < handle.voices.len() && 0 <= l < handle.voices[j].languages.len()
                && base_subtag(#[trigger] handle.voices[j].languages[l]) == base {
            let (j, l) = choose|j: int, l: int|
                0 <= j < handle.voices.len() && 0 <= l < handle.voices[j].languages.len()
                    && base_subtag(#[trigger] handle.voices[j].languages[l]) == base;
            assert(speaks(handle.voices[j], base));
        }
        if offers_language(runtime.tts, model, base) {
            let j = choose|j: int|
                0 <= j < handle.voices.len() && speaks(#[trigger] handle.voices[j], base);
            let l = choose|l: int|
                0 <= l < handle.voices[j].languages.len() && base_subtag(
                    #[trigger] handle.voices[j].languages[l],
                ) == base;
            assert(base_subtag(handle.voices[j].languages[l]) == base);
        }
    }
}

/// The first voice for a language is one that is tagged with it, after none that
/// is.
pub proof fn law_first_speaker(voices: Seq<VoiceInfoView>, j: int, base: Seq<char>)
    requires
        first_speaker(voices, j, base),
    ensures
        0 <= j < voices.len(),
        exists|l: int|
            0 <= l < voices[j].languages.len() && base_subtag(#[trigger] voices[j].languages[l])
                == base,
        forall|i: int, l: int|
            0 <= i < j && 0 <= l < voices[i].languages.len() ==> base_subtag(
                #[trigger] voices[i].languages[l],
            ) != base,
{
    assert forall|i: int, l: int|
        0 <= i < j && 0 <= l < voices[i].languages.len() implies base_subtag(
        #[trigger] voices[i].languages[l],
    ) != base by {
        assert(!speaks(voices[i], base));
    }
}

/// The models that a server is configured with are those that are listed and
/// loaded, and the default is the one that was loaded first.
pub proof fn law_models_configured(
    voice_map: VoiceMap,
    asr_map: AsrModelMap,
    tts_names: Seq<Seq<char>>,
    asr_names: Seq<Seq<char>>,
    runtime: RuntimeView,
    name: Seq<char>,
)
    requires
        voice_map.maps(tts_names, runtime),
        asr_map.maps(asr_names, runtime),
    ensures
        voice_map.configured(name) <==> tts_names.contains(name) && table::lookup(
            runtime.tts,
            name,
        ) is Some,
        asr_map.configured(name) <==> asr_names.contains(name) && table::lookup(
            runtime.asr,
            name,
        ) is Some,
        voice_map.default_model matches Some(first) ==> runtime.tts.len() > 0 && first@
            == runtime.tts[0].0,
        voice_map.default_model is None ==> runtime.tts.len() == 0,
        asr_map.default_model matches Some(first) ==> runtime.asr.len() > 0 && first@
            == runtime.asr[0].0,
        asr_map.default_model is None ==> runtime.asr.len() == 0,
{
}

/// Outcome of resolving a `synthesize` event's voice to a model.
#[derive(Debug, Clone, PartialEq, Eq)]
pub enum VoiceResolution {
    /// A model was resolved. `voice_name` is `None` when the client did not
    /// request a specific voice or language matching any known voice (the
    /// model's default voice is used).
    Found { model_name: String, voice_name: Option<String> },
    /// The client requested a voice name with no matching model.
    NotFound(String),
    /// No voice was requested and no TTS model is loaded.
    NoModel,
}

/// The content of a [`VoiceResolution`].
pub enum VoiceResolutionView {
    Found { model_name: Seq<char>, voice_name: Option<Seq<char>> },
    NotFound(Seq<char>),
    NoModel,
}

impl View for VoiceResolution {
    type V = VoiceResolutionView;

    open spec fn view(&self) -> VoiceResolutionView {
        match *self {
            VoiceResolution::Found { model_name, voice_name } => VoiceResolutionView::Found {
                model_name: model_name@,
                voice_name: text::opt_text(voice_name),
            },
            VoiceResolution::NotFound(name) => VoiceResolutionView::NotFound(name@),
            VoiceResolution::NoModel => VoiceResolutionView::NoModel,
        }
    }
}

/// The name that a request's voice specification gives.
pub open spec fn requested_voice(voice: Option<VoiceView>) -> Option<Seq<char>> {
    match voice {
        Some(v) => v.name,
        None => None,
    }
}

/// The language that a request's voice specification gives.
pub open spec fn requested_language(voice: Option<VoiceView>) -> Option<Seq<char>> {
    match voice {
        Some(v) => v.language,
        None => None,
    }
}

/// The model and voice for a request: an explicit voice name always wins,
/// then a language that some voice speaks, then the default model.
pub open spec fn voice_resolution(map: VoiceMap, voice: Option<VoiceView>) -> VoiceResolutionView {
    let fallback = match text::opt_text(map.default_model) {
        Some(model_name) => VoiceResolutionView::Found { model_name, voice_name: None },
        None => VoiceResolutionView::NoModel,
    };
    match requested_voice(voice) {
        Some(name) => match map.voice_model(name) {
            Some(model_name) => VoiceResolutionView::Found { model_name, voice_name: Some(name) },
            None => VoiceResolutionView::NotFound(name),
        },
        None => match requested_language(voice) {
            Some(language) => match map.language_voice(base_subtag(language)) {
                Some((model_name, name)) => VoiceResolutionView::Found {
                    model_name,
                    voice_name: Some(name),
                },
                None => fallback,
            },
            None => fallback,
        },
    }
}

/// Resolves which model (and voice) a `synthesize` event should use.
pub fn resolve_voice(voice_map: &VoiceMap, data: &SynthesizeData) -> (r: VoiceResolution)
    ensures
        r@ == voice_resolution(*voice_map, event::opt_voice(data.voice)),
        data.voice matches Some(v) ==> (v.name matches Some(name) ==> (match r {
            VoiceResolution::Found { model_name, voice_name } => voice_map.voice_model(name@)
                == Some(model_name@) && (voice_name matches Some(found) && found@ == name@),
            VoiceResolution::NotFound(missing) => voice_map.voice_model(name@) is None && missing@
                == name@,
            VoiceResolution::NoModel => false,
        })),
{
    if let Some(voice) = &data.voice {
        if let Some(name) = &voice.name {
            return match voice_map.model_for_voice(name.as_str()) {
                Some(model_name) => VoiceResolution::Found {
                    model_name: String::from_str(model_name),
                    voice_name: Some(name.clone()),
                },
                None => VoiceResolution::NotFound(name.clone()),
            };
        }
        if let Some(language) = &voice.language {
            if let Some((model_name, name)) = voice_map.model_for_language(language.as_str()) {
                return VoiceResolution::Found {
                    model_name: String::from_str(model_name),
                    voice_name: Some(String::from_str(name)),
                };
            }
        }
    }
    match voice_map.default_model() {
        Some(model_name) => VoiceResolution::Found {
            model_name: String::from_str(model_name),
            voice_name: None,
        },
        None => VoiceResolution::NoModel,
    }
}

/// Outcome of resolving a `transcribe` event's target model.
#[derive(Debug, Clone, PartialEq, Eq)]
pub enum AsrResolution {
    /// A model was resolved.
    Found(String),
    /// The client requested a model name with no matching model.
    NotFound(String),
    /// No model was requested and no ASR model is loaded.
    NoModel,
}

/// The content of an [`AsrResolution`].
pub enum AsrResolutionView {
    Found(Seq<char>),
    NotFound(Seq<char>),
    NoModel,
}

impl View for AsrResolution {
    type V = AsrResolutionView;

    open spec fn view(&self) -> AsrResolutionView {
        match *self {
            AsrResolution::Found(name) => AsrResolutionView::Found(name@),
            AsrResolution::NotFound(name) => AsrResolutionView::NotFound(name@),
            AsrResolution::NoModel => AsrResolutionView::NoModel,
        }
    }
}

/// The ASR model for a request: an explicit model name always wins, then a
/// language that some model understands, then the default model.
pub open spec fn asr_resolution(
    map: AsrModelMap,
    name: Option<Seq<char>>,
    language: Option<Seq<char>>,
) -> AsrResolutionView {
    let fallback = match text::opt_text(map.default_model) {
        Some(model_name) => AsrResolutionView::Found(model_name),
        None => AsrResolutionView::NoModel,
    };
    match name {
        Some(name) => if map.configured(name) {
            AsrResolutionView::Found(name)
        } else {
            AsrResolutionView::NotFound(name)
        },
        None => match language {
            Some(language) => match map.language_model(base_subtag(language)) {
                Some(model_name) => AsrResolutionView::Found(model_name),
                None => fallback,
            },
            None => fallback,
        },
    }
}

/// Resolves which ASR model a `transcribe` event should use.
pub fn resolve_asr_model(asr_map: &AsrModelMap, data: &TranscribeData) -> (r: AsrResolution)
    ensures
        r@ == asr_resolution(*asr_map, text::opt_text(data.name), text::opt_text(data.language)),
        data.name matches Some(name) ==> (match r {
            AsrResolution::Found(model) => asr_map.configured(name@) && model@ == name@,
            AsrResolution::NotFound(missing) => !asr_map.configured(name@) && missing@ == name@,
            AsrResolution::NoModel => false,
        }),
{
    if let Some(name) = &data.name {
        return match asr_map.model_name(name.as_str()) {
            Some(model_name) => AsrResolution::Found(String::from_str(model_name)),
            None => AsrResolution::NotFound(name.clone()),
        };
    }
    if let Some(language) = &data.language {
        if let Some(model_name) = asr_map.model_for_language(language.as_str()) {
            return AsrResolution::Found(String::from_str(model_name));
        }
    }
    match asr_map.default_model() {
        Some(model_name) => AsrResolution::Found(String::from_str(model_name)),
        None => AsrResolution::NoModel,
    }
}

/// The contents of a list of events.
pub open spec fn events_view(events: Seq<Event>) -> Seq<EventView> {
    events.map_values(|e: Event| e@)
}

/// An `error` event.
pub open spec fn error_event(text: Seq<char>, code: Option<Seq<char>>) -> EventView {
    EventView::Error { text, code }
}

/// Builds an `error` event's data from a message and optional code.
pub fn error_data(text: &str, code: Option<&str>) -> (r: ErrorData)
    ensures
        r.text@ == text@,
        text::opt_text(r.code) == (match code {
            Some(code) => Some(code@),
            None => None,
        }),
{
    match code {
        Some(code) => ErrorData::new(text).with_code(code),
        None => ErrorData::new(text),
    }
}

/// Builds an `error` event.
pub fn refusal(text: &str, code: Option<&str>) -> (r: Event)
    ensures
        r@ == error_event(
            text@,
            match code {
                Some(code) => Some(code@),
                None => None,
            },
        ),
        r matches Event::Error(d) && d.text@ == text@ && text::opt_text(d.code) == (match code {
            Some(code) => Some(code@),
            None => None,
        }),
{
    Event::Error(error_data(text, code))
}

/// What an event on an idle connection asks for.
#[derive(Debug, Clone)]
pub enum Request {
    /// Generate speech.
    Synthesize(SynthesizeData),
    /// Collect the text that follows, then generate speech.
    StreamedText(SynthesizeStartData),
    /// Collect the audio that follows, then transcribe it.
    Transcribe(TranscribeData),
    /// Describe the available models and voices.
    Describe,
    /// Answer with this event.
    Reply(Event),
    /// Nothing.
    Ignore,
}

/// The content of a [`Request`].
pub enum RequestView {
    Synthesize { text: Seq<char>, voice: Option<VoiceView> },
    StreamedText { language: Option<Seq<char>>, voice: Option<VoiceView> },
    Transcribe { name: Option<Seq<char>>, language: Option<Seq<char>> },
    Describe,
    Reply(EventView),
    Ignore,
}

impl View for Request {
    type V = RequestView;

    open spec fn view(&self) -> RequestView {
        match *self {
            Request::Synthesize(d) => RequestView::Synthesize {
                text: d.text@,
                voice: event::opt_voice(d.voice),
            },
            Request::StreamedText(d) => RequestView::StreamedText {
                language: text::opt_text(d.language),
                voice: event::opt_voice(d.voice),
            },
            Request::Transcribe(d) => RequestView::Transcribe {
                name: text::opt_text(d.name),
                language: text::opt_text(d.language),
            },
            Request::Describe => RequestView::Describe,
            Request::Reply(e) => RequestView::Reply(e@),
            Request::Ignore => RequestView::Ignore,
        }
    }
}

/// What an event on an idle connection asks for: a `ping` is answered with a
/// `pong` that echoes its text, an event of an unknown type with an `error`,
/// and an event that belongs to an exchange which is not going on is ignored.
pub open spec fn request_of(event: EventView) -> RequestView {
    match event {
        EventView::Synthesize { text, voice } => RequestView::Synthesize { text, voice },
        EventView::SynthesizeStart { language, voice } => RequestView::StreamedText {
            language,
            voice,
        },
        EventView::Transcribe { name, language } => RequestView::Transcribe { name, language },
        EventView::Describe => RequestView::Describe,
        EventView::Ping { text } => RequestView::Reply(EventView::Pong { text }),
        EventView::Unknown { event_type, .. } => RequestView::Reply(
            error_event("Unknown event type: "@ + event_type, Some("unknown-event"@)),
        ),
        _ => RequestView::Ignore,
    }
}

/// Answers a `ping` event with a `pong` echoing the same text.
pub fn handle_ping(data: PingData) -> (r: Event)
    ensures
        r@ == (EventView::Pong { text: text::opt_text(data.text) }),
        r matches Event::Pong(pong) && pong.text == data.text,
{
    let mut pong = PongData::new();
    pong.text = data.text;
    Event::Pong(pong)
}

/// Decides what an event on an idle connection asks for.
///
/// The connection goes on whatever is answered; it ends when the client
/// disconnects, sends malformed data or stays idle for too long.
pub fn dispatch(event: Event) -> (r: Request)
    ensures
        r@ == request_of(event@),
        event matches Event::Synthesize(d) ==> r == Request::Synthesize(d),
        event matches Event::SynthesizeStart(d) ==> r == Request::StreamedText(d),
        event matches Event::Transcribe(d) ==> r == Request::Transcribe(d),
        event is Describe ==> r is Describe,
        event matches Event::Ping(d) ==> (r matches Request::Reply(Event::Pong(pong)) && pong.text
            == d.text),
        event matches Event::Unknown { event_type, .. } ==> (
        r matches Request::Reply(Event::Error(d)) && d.text@ == "Unknown event type: "@
            + event_type@ && (d.code matches Some(code) && code@ == "unknown-event"@)),
        r is Ignore <==> !(event is Synthesize || event is SynthesizeStart || event is Transcribe
            || event is Describe || event is Ping || event is Unknown),
{
    match event {
        Event::Synthesize(data) => Request::Synthesize(data),
        Event::SynthesizeStart(data) => Request::StreamedText(data),
        Event::Transcribe(data) => Request::Transcribe(data),
        Event::Describe => Request::Describe,
        Event::Ping(data) => Request::Reply(handle_ping(data)),
        Event::Unknown { event_type, .. } => {
            let mut message = String::from_str("Unknown event type: ");
            message.append(event_type.as_str());
            Request::Reply(refusal(message.as_str(), Some("unknown-event")))
        },
        _ => Request::Ignore,
    }
}

/// Seconds to wait for the next event before disconnecting an idle client.
pub const IDLE_TIMEOUT_SECS: u64 = 60;

/// Seconds to wait for a single write to the client during streaming delivery
/// before giving up: a write that stalls holds up the model's thread, and with
/// it every other request queued for the same model.
pub const WRITE_TIMEOUT_SECS: u64 = 30;

/// A client may be silent for a minute, and may take half of that to read an
/// event.
pub proof fn law_timeouts()
    ensures
        IDLE_TIMEOUT_SECS == 60,
        WRITE_TIMEOUT_SECS * 2 == IDLE_TIMEOUT_SECS,
{
}

} // verus!
