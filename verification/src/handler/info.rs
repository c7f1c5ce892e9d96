//! Describing the available models and voices.

use vstd::prelude::*;
use vstd::string::*;
use crate::engine::runtime;
use crate::engine::runtime::{
    AsrHandle, AsrView, ModelRuntime, RuntimeView, TtsHandle, TtsView, VoiceInfo, VoiceInfoView,
};
use crate::event;
use crate::event::{EventView, InfoData};
use crate::handler::{AsrModelMap, VoiceMap};
use crate::json;
use crate::json::{Json, JsonView};
use crate::table;
use crate::text;

verus! {

broadcast use {json::lemma_array_view, json::lemma_object_view};

/// The project that the models are attributed to.
pub open spec fn attribution() -> JsonView {
    JsonView::Object(
        json::one("name"@, JsonView::Text("Crane"@)) + json::one(
            "url"@,
            JsonView::Text("https://github.com/crane-ai/crane"@),
        ),
    )
}

/// A list of texts as a JSON value.
pub open spec fn text_list(list: Seq<Seq<char>>) -> JsonView {
    JsonView::Array(list.map_values(|t: Seq<char>| JsonView::Text(t)))
}

/// The description of a voice.
pub open spec fn voice_json(voice: VoiceInfoView) -> JsonView {
    JsonView::Object(
        json::one("name"@, JsonView::Text(voice.name)) + json::one("attribution"@, attribution())
            + json::one("installed"@, JsonView::Bool(true)) + json::one(
            "description"@,
            JsonView::Null,
        ) + json::one("version"@, JsonView::Null) + json::one(
            "languages"@,
            text_list(voice.languages),
        ) + json::one("speakers"@, JsonView::Null),
    )
}

/// The voices of a model that its name leads to: a voice that an earlier model
/// claimed is left out.
pub open spec fn own_voices(map: VoiceMap, model: Seq<char>, voices: Seq<VoiceInfoView>) -> Seq<
    VoiceInfoView,
>
    decreases voices.len(),
{
    if voices.len() == 0 {
        Seq::empty()
    } else if map.voice_model(voices.last().name) == Some(model) {
        own_voices(map, model, voices.drop_last()).push(voices.last())
    } else {
        own_voices(map, model, voices.drop_last())
    }
}

/// The descriptions of a list of voices.
pub open spec fn voice_list(voices: Seq<VoiceInfoView>) -> JsonView {
    JsonView::Array(voices.map_values(|v: VoiceInfoView| voice_json(v)))
}

/// The description of a TTS model.
pub open spec fn tts_json(
    map: VoiceMap,
    model: Seq<char>,
    handle: TtsView,
    streaming: bool,
) -> JsonView {
    JsonView::Object(
        json::one("name"@, JsonView::Text(model)) + json::one("attribution"@, attribution())
            + json::one("installed"@, JsonView::Bool(true)) + json::one(
            "description"@,
            JsonView::Null,
        ) + json::one("version"@, JsonView::Null) + json::one(
            "voices"@,
            voice_list(own_voices(map, model, handle.voices)),
        ) + json::one("supports_synthesize_streaming"@, JsonView::Bool(streaming)),
    )
}

/// The description of what an ASR model understands.
pub open spec fn asr_model_json(model: Seq<char>, handle: AsrView) -> JsonView {
    JsonView::Object(
        json::one("name"@, JsonView::Text(model)) + json::one(
            "languages"@,
            text_list(handle.languages),
        ) + json::one("attribution"@, attribution()) + json::one(
            "installed"@,
            JsonView::Bool(true),
        ),
    )
}

/// The description of an ASR model.
pub open spec fn asr_json(model: Seq<char>, handle: AsrView, streaming: bool, vad: bool) -> JsonView {
    JsonView::Object(
        json::one("name"@, JsonView::Text(model)) + json::one(
            "models"@,
            JsonView::Array(seq![asr_model_json(model, handle)]),
        ) + json::one("attribution"@, attribution()) + json::one(
            "installed"@,
            JsonView::Bool(true),
        ) + json::one("supports_transcript_streaming"@, JsonView::Bool(streaming)) + json::one(
            "requires_external_vad"@,
            JsonView::Bool(!vad),
        ),
    )
}

/// The descriptions of the configured ones among some TTS models.
pub open spec fn tts_list(map: VoiceMap, models: Seq<(Seq<char>, TtsView)>, streaming: bool) -> Seq<
    JsonView,
>
    decreases models.len(),
{
    if models.len() == 0 {
        Seq::empty()
    } else if map.configured(models.last().0) {
        tts_list(map, models.drop_last(), streaming).push(
            tts_json(map, models.last().0, models.last().1, streaming),
        )
    } else {
        tts_list(map, models.drop_last(), streaming)
    }
}

/// The descriptions of the configured ones among some ASR models.
pub open spec fn asr_list(
    map: AsrModelMap,
    models: Seq<(Seq<char>, AsrView)>,
    streaming: bool,
    vad: bool,
) -> Seq<JsonView>
    decreases models.len(),
{
    if models.len() == 0 {
        Seq::empty()
    } else if map.configured(models.last().0) {
        asr_list(map, models.drop_last(), streaming, vad).push(
            asr_json(models.last().0, models.last().1, streaming, vad),
        )
    } else {
        asr_list(map, models.drop_last(), streaming, vad)
    }
}

/// Returns the Crane project attribution object used in `info` responses.
pub fn crane_attribution() -> (r: Json)
    ensures
        r@ == attribution(),
        r@ matches JsonView::Object(fields) && fields == seq![
            ("name"@, JsonView::Text("Crane"@)),
            ("url"@, JsonView::Text("https://github.com/crane-ai/crane"@)),
        ],
{
    let mut fields: Vec<(String, Json)> = Vec::new();
    proof {
        assert(json::fields_view(fields@) == Seq::<(Seq<char>, JsonView)>::empty());
    }
    json::put(&mut fields, "name", Json::Text(String::from_str("Crane")));
    json::put(
        &mut fields,
        "url",
        Json::Text(String::from_str("https://github.com/crane-ai/crane")),
    );
    proof {
        assert(json::fields_view(fields@) == attribution()->Object_0);
    }
    Json::Object(fields)
}

/// Builds a JSON list of texts.
fn texts_json(list: &Vec<String>) -> (r: Json)
    ensures
        r@ == text_list(text::texts(list@)),
{
    let mut items: Vec<Json> = Vec::new();
    let mut i: usize = 0;
    let ghost all = text_list(text::texts(list@))->Array_0;
    while i < list.len()
        invariant
            i <= list@.len(),
            all == text_list(text::texts(list@))->Array_0,
            json::items_view(items@) == all.take(i as int),
        decreases list@.len() - i,
    {
        let ghost before = json::items_view(items@);
        let item = Json::Text(list[i].clone());
        items.push(item);
        proof {
            assert(json::items_view(items@) == before.push(item@));
            assert(all.take(i + 1) == before.push(all[i as int]));
        }
        i = i + 1;
    }
    proof {
        assert(all.take(i as int) == all);
    }
    Json::Array(items)
}

/// Builds the description of a voice.
fn describe_voice(voice: &VoiceInfo) -> (r: Json)
    ensures
        r@ == voice_json(voice@),
{
    let mut fields: Vec<(String, Json)> = Vec::new();
    proof {
        assert(json::fields_view(fields@) == Seq::<(Seq<char>, JsonView)>::empty());
    }
    json::put(&mut fields, "name", Json::Text(voice.name.clone()));
    json::put(&mut fields, "attribution", crane_attribution());
    json::put(&mut fields, "installed", Json::Bool(true));
    json::put(&mut fields, "description", Json::Null);
    json::put(&mut fields, "version", Json::Null);
    json::put(&mut fields, "languages", texts_json(&voice.languages));
    json::put(&mut fields, "speakers", Json::Null);
    proof {
        assert(json::fields_view(fields@) == voice_json(voice@)->Object_0);
    }
    Json::Object(fields)
}

/// Builds the descriptions of a model's own voices.
fn describe_voices(map: &VoiceMap, model: &str, voices: &Vec<VoiceInfo>) -> (r: Json)
    ensures
        r@ == voice_list(own_voices(*map, model@, runtime::voices_view(voices@))),
{
    let ghost views = runtime::voices_view(voices@);
    let mut items: Vec<Json> = Vec::new();
    let mut i: usize = 0;
    proof {
        assert(json::items_view(items@) == voice_list(
            own_voices(*map, model@, views.take(0)),
        )->Array_0);
    }
    while i < voices.len()
        invariant
            i <= voices@.len(),
            views == runtime::voices_view(voices@),
            json::items_view(items@) == voice_list(
                own_voices(*map, model@, views.take(i as int)),
            )->Array_0,
        decreases voices@.len() - i,
    {
        let voice = &voices[i];
        let ghost before = own_voices(*map, model@, views.take(i as int));
        proof {
            assert(views.take(i + 1).drop_last() == views.take(i as int));
            assert(views.take(i + 1).last() == voice@);
        }
        let own = match map.model_for_voice(voice.name.as_str()) {
            Some(name) => text::same(name, model),
            None => false,
        };
        if own {
            let ghost listed = json::items_view(items@);
            let item = describe_voice(voice);
            items.push(item);
            proof {
                assert(json::items_view(items@) == listed.push(item@));
                assert(voice_list(before.push(voice@))->Array_0 == voice_list(before)->Array_0.push(
                    voice_json(voice@),
                ));
            }
        }
        i = i + 1;
    }
    proof {
        assert(views.take(i as int) == views);
    }
    Json::Array(items)
}

/// Builds the description of a TTS model.
fn describe_tts(map: &VoiceMap, model: &str, handle: &TtsHandle, streaming: bool) -> (r: Json)
    ensures
        r@ == tts_json(*map, model@, handle@, streaming),
{
    let mut fields: Vec<(String, Json)> = Vec::new();
    proof {
        assert(json::fields_view(fields@) == Seq::<(Seq<char>, JsonView)>::empty());
    }
    json::put(&mut fields, "name", Json::Text(String::from_str(model)));
    json::put(&mut fields, "attribution", crane_attribution());
    json::put(&mut fields, "installed", Json::Bool(true));
    json::put(&mut fields, "description", Json::Null);
    json::put(&mut fields, "version", Json::Null);
    json::put(&mut fields, "voices", describe_voices(map, model, handle.voices()));
    json::put(&mut fields, "supports_synthesize_streaming", Json::Bool(streaming));
    proof {
        assert(json::fields_view(fields@) == tts_json(
            *map,
            model@,
            handle@,
            streaming,
        )->Object_0);
    }
    Json::Object(fields)
}

/// Builds the description of an ASR model.
fn describe_asr(model: &str, handle: &AsrHandle, streaming: bool, vad: bool) -> (r: Json)
    ensures
        r@ == asr_json(model@, handle@, streaming, vad),
{
    let mut inner: Vec<(String, Json)> = Vec::new();
    proof {
        assert(json::fields_view(inner@) == Seq::<(Seq<char>, JsonView)>::empty());
    }
    json::put(&mut inner, "name", Json::Text(String::from_str(model)));
    json::put(&mut inner, "languages", texts_json(handle.languages()));
    json::put(&mut inner, "attribution", crane_attribution());
    json::put(&mut inner, "installed", Json::Bool(true));
    proof {
        assert(json::fields_view(inner@) == asr_model_json(model@, handle@)->Object_0);
    }
    let mut models: Vec<Json> = Vec::new();
    let described = Json::Object(inner);
    models.push(described);
    proof {
        assert(json::items_view(models@) == seq![described@]);
    }
    let mut fields: Vec<(String, Json)> = Vec::new();
    proof {
        assert(json::fields_view(fields@) == Seq::<(Seq<char>, JsonView)>::empty());
    }
    json::put(&mut fields, "name", Json::Text(String::from_str(model)));
    json::put(&mut fields, "models", Json::Array(models));
    json::put(&mut fields, "attribution", crane_attribution());
    json::put(&mut fields, "installed", Json::Bool(true));
    json::put(&mut fields, "supports_transcript_streaming", Json::Bool(streaming));
    json::put(&mut fields, "requires_external_vad", Json::Bool(!vad));
    proof {
        assert(json::fields_view(fields@) == asr_json(model@, handle@, streaming, vad)->Object_0);
    }
    Json::Object(fields)
}

/// Describes the configured TTS models, ordered by name.
fn describe_tts_models(runtime: &ModelRuntime, map: &VoiceMap) -> (r: Vec<Json>)
    ensures
        json::items_view(r@) == tts_list(
            *map,
            table::ordered(runtime@.tts),
            runtime@.streaming,
        ),
{
    let handles = runtime.tts_handles();
    let streaming = runtime.streaming_enabled();
    let ghost entries = runtime@.tts;
    let mut names: Vec<String> = Vec::new();
    let mut i: usize = 0;
    while i < handles.len()
        invariant
            i <= handles@.len(),
            names@.len() == i,
            forall|k: int| 0 <= k < i ==> (#[trigger] names@[k])@ == handles@[k].0@,
        decreases handles@.len() - i,
    {
        names.push(handles[i].0.clone());
        i = i + 1;
    }
    let order = table::name_order(&names);
    let ghost numbers = table::numbered(text::texts(names@));
    let ghost value = |k: int| entries[k].1;
    let ghost sorted = table::ordered(entries);
    proof {
        table::lemma_ordered_values(numbers, value);
        assert(table::with_values(numbers, value) == entries);
        assert(order@.len() == sorted.len()) by {
            assert(order@.map_values(
                |i: usize| (names@[i as int]@, i as int),
            ).len() == table::ordered(numbers).len());
        }
        assert forall|k: int| 0 <= k < order@.len() implies #[trigger] sorted[k]
            == entries[order@[k] as int] by {
            assert(order@.map_values(|i: usize| (names@[i as int]@, i as int))[k]
                == table::ordered(numbers)[k]);
            assert(order@[k] < names@.len());
        }
    }
    let mut r: Vec<Json> = Vec::new();
    let mut i: usize = 0;
    proof {
        assert(json::items_view(r@) == tts_list(*map, sorted.take(0), streaming));
    }
    while i < order.len()
        invariant
            i <= order@.len(),
            order@.len() == sorted.len(),
            entries == runtime::tts_entries(handles@),
            forall|k: int| 0 <= k < order@.len() ==> (#[trigger] order@[k]) < handles@.len(),
            forall|k: int|
                0 <= k < order@.len() ==> #[trigger] sorted[k] == entries[order@[k] as int],
            json::items_view(r@) == tts_list(*map, sorted.take(i as int), streaming),
        decreases order@.len() - i,
    {
        let entry = &handles[order[i]];
        proof {
            assert(sorted.take(i + 1).drop_last() == sorted.take(i as int));
            assert(sorted.take(i + 1).last() == sorted[i as int]);
        }
        if map.has_model(entry.0.as_str()) {
            let ghost before = json::items_view(r@);
            let item = describe_tts(map, entry.0.as_str(), &entry.1, streaming);
            r.push(item);
            proof {
                assert(json::items_view(r@) == before.push(item@));
            }
        }
        i = i + 1;
    }
    proof {
        assert(sorted.take(i as int) == sorted);
    }
    r
}

/// Describes the configured ASR models, ordered by name.
fn describe_asr_models(runtime: &ModelRuntime, map: &AsrModelMap) -> (r: Vec<Json>)
    ensures
        json::items_view(r@) == asr_list(
            *map,
            table::ordered(runtime@.asr),
            runtime@.streaming,
            runtime@.vad,
        ),
{
    let handles = runtime.asr_handles();
    let streaming = runtime.streaming_enabled();
    let vad = runtime.has_vad();
    let ghost entries = runtime@.asr;
    let mut names: Vec<String> = Vec::new();
    let mut i: usize = 0;
    while i < handles.len()
        invariant
            i <= handles@.len(),
            names@.len() == i,
            forall|k: int| 0 <= k < i ==> (#[trigger] names@[k])@ == handles@[k].0@,
        decreases handles@.len() - i,
    {
        names.push(handles[i].0.clone());
        i = i + 1;
    }
    let order = table::name_order(&names);
    let ghost numbers = table::numbered(text::texts(names@));
    let ghost value = |k: int| entries[k].1;
    let ghost sorted = table::ordered(entries);
    proof {
        table::lemma_ordered_values(numbers, value);
        assert(table::with_values(numbers, value) == entries);
        assert(order@.len() == sorted.len()) by {
            assert(order@.map_values(
                |i: usize| (names@[i as int]@, i as int),
            ).len() == table::ordered(numbers).len());
        }
        assert forall|k: int| 0 <= k < order@.len() implies #[trigger] sorted[k]
            == entries[order@[k] as int] by {
            assert(order@.map_values(|i: usize| (names@[i as int]@, i as int))[k]
                == table::ordered(numbers)[k]);
            assert(order@[k] < names@.len());
        }
    }
    let mut r: Vec<Json> = Vec::new();
    let mut i: usize = 0;
    proof {
        assert(json::items_view(r@) == asr_list(*map, sorted.take(0), streaming, vad));
    }
    while i < order.len()
        invariant
            i <= order@.len(),
            order@.len() == sorted.len(),
            entries == runtime::asr_entries(handles@),
            forall|k: int| 0 <= k < order@.len() ==> (#[trigger] order@[k]) < handles@.len(),
            forall|k: int|
                0 <= k < order@.len() ==> #[trigger] sorted[k] == entries[order@[k] as int],
            json::items_view(r@) == asr_list(*map, sorted.take(i as int), streaming, vad),
        decreases order@.len() - i,
    {
        let entry = &handles[order[i]];
        proof {
            assert(sorted.take(i + 1).drop_last() == sorted.take(i as int));
            assert(sorted.take(i + 1).last() == sorted[i as int]);
        }
        if map.has_model(entry.0.as_str()) {
            let ghost before = json::items_view(r@);
            let item = describe_asr(entry.0.as_str(), &entry.1, streaming, vad);
            r.push(item);
            proof {
                assert(json::items_view(r@) == before.push(item@));
            }
        }
        i = i + 1;
    }
    proof {
        assert(sorted.take(i as int) == sorted);
    }
    r
}

/// Builds the `info` event data from registered TTS and ASR models.
///
/// Each model becomes a program descriptor, named after its registration name
/// so two loaded models of the same architecture don't collide. Voices claimed
/// by an earlier-priority model are excluded from a later model's voice list,
/// and models that are not configured are skipped. There is no wake word
/// service.
pub fn build_info(runtime: &ModelRuntime, voice_map: &VoiceMap, asr_map: &AsrModelMap) -> (r:
    InfoData)
    ensures
        json::items_view(r.tts@) == tts_list(
            *voice_map,
            table::ordered(runtime@.tts),
            runtime@.streaming,
        ),
        json::items_view(r.asr@) == asr_list(
            *asr_map,
            table::ordered(runtime@.asr),
            runtime@.streaming,
            runtime@.vad,
        ),
        r.wake@.len() == 0,
{
    let tts = describe_tts_models(runtime, voice_map);
    let asr = describe_asr_models(runtime, asr_map);
    InfoData::new().with_tts(tts).with_asr(asr)
}

/// The name that a program is listed under.
pub open spec fn listed_name(program: JsonView) -> Seq<char> {
    match program {
        JsonView::Object(fields) => match json::member(fields, "name"@) {
            Some(JsonView::Text(name)) => name,
            _ => Seq::empty(),
        },
        _ => Seq::empty(),
    }
}

/// The models are listed in the order of their names, whatever order they were
/// loaded in.
pub proof fn law_listed_in_order(
    runtime: RuntimeView,
    voice_map: VoiceMap,
    asr_map: AsrModelMap,
)
    ensures
        names_in_order(tts_list(voice_map, table::ordered(runtime.tts), runtime.streaming)),
        names_in_order(
            asr_list(asr_map, table::ordered(runtime.asr), runtime.streaming, runtime.vad),
        ),
{
    table::law_ordered(runtime.tts);
    table::law_ordered(runtime.asr);
    lemma_tts_order(voice_map, table::ordered(runtime.tts), runtime.streaming);
    lemma_asr_order(asr_map, table::ordered(runtime.asr), runtime.streaming, runtime.vad);
}

/// No program's name comes before that of one listed earlier.
pub open spec fn names_in_order(programs: Seq<JsonView>) -> bool {
    forall|i: int, j: int|
        0 <= i < j < programs.len() ==> !text::text_before(
            listed_name(#[trigger] programs[j]),
            listed_name(#[trigger] programs[i]),
        )
}

/// The descriptions of ordered TTS models are in order.
proof fn lemma_tts_order(map: VoiceMap, models: Seq<(Seq<char>, TtsView)>, streaming: bool)
    requires
        table::is_ordered(models),
    ensures
        names_in_order(tts_list(map, models, streaming)),
        forall|i: int|
            0 <= i < tts_list(map, models, streaming).len() ==> exists|k: int|
                0 <= k < models.len() && listed_name(
                    #[trigger] tts_list(map, models, streaming)[i],
                ) == (#[trigger] models[k]).0,
    decreases models.len(),
{
    if models.len() > 0 {
        let before = models.drop_last();
        let last = models.last();
        assert forall|i: int, j: int| 0 <= i < j < before.len() implies !text::text_before(
            (#[trigger] before[j]).0,
            (#[trigger] before[i]).0,
        ) by {
            assert(before[i] == models[i] && before[j] == models[j]);
        }
        lemma_tts_order(map, before, streaming);
        let list = tts_list(map, models, streaming);
        let shorter = tts_list(map, before, streaming);
        assert forall|i: int| 0 <= i < list.len() implies exists|k: int|
            0 <= k < models.len() && listed_name(#[trigger] list[i]) == (
            #[trigger] models[k]).0 by {
            if i < shorter.len() {
                assert(list[i] == shorter[i]);
                let k = choose|k: int|
                    0 <= k < before.len() && listed_name(shorter[i]) == (#[trigger] before[k]).0;
                assert(models[k] == before[k]);
            } else {
                lemma_tts_name(map, last.0, last.1, streaming);
                assert(models[models.len() - 1] == last);
            }
        }
        assert forall|i: int, j: int| 0 <= i < j < list.len() implies !text::text_before(
            listed_name(#[trigger] list[j]),
            listed_name(#[trigger] list[i]),
        ) by {
            assert(list[i] == shorter[i]);
            if j < shorter.len() {
                assert(list[j] == shorter[j]);
            } else {
                lemma_tts_name(map, last.0, last.1, streaming);
                let k = choose|k: int|
                    0 <= k < before.len() && listed_name(shorter[i]) == (#[trigger] before[k]).0;
                assert(models[k] == before[k]);
                assert(models[models.len() - 1] == last);
            }
        }
    }
}

/// A TTS model is listed under its name.
proof fn lemma_tts_name(map: VoiceMap, model: Seq<char>, handle: TtsView, streaming: bool)
    ensures
        listed_name(tts_json(map, model, handle, streaming)) == model,
{
    broadcast use json::group_member;

}

/// The descriptions of ordered ASR models are in order.
proof fn lemma_asr_order(
    map: AsrModelMap,
    models: Seq<(Seq<char>, AsrView)>,
    streaming: bool,
    vad: bool,
)
    requires
        table::is_ordered(models),
    ensures
        names_in_order(asr_list(map, models, streaming, vad)),
        forall|i: int|
            0 <= i < asr_list(map, models, streaming, vad).len() ==> exists|k: int|
                0 <= k < models.len() && listed_name(
                    #[trigger] asr_list(map, models, streaming, vad)[i],
                ) == (#[trigger] models[k]).0,
    decreases models.len(),
{
    if models.len() > 0 {
        let before = models.drop_last();
        let last = models.last();
        assert forall|i: int, j: int| 0 <= i < j < before.len() implies !text::text_before(
            (#[trigger] before[j]).0,
            (#[trigger] before[i]).0,
        ) by {
            assert(before[i] == models[i] && before[j] == models[j]);
        }
        lemma_asr_order(map, before, streaming, vad);
        let list = asr_list(map, models, streaming, vad);
        let shorter = asr_list(map, before, streaming, vad);
        assert forall|i: int| 0 <= i < list.len() implies exists|k: int|
            0 <= k < models.len() && listed_name(#[trigger] list[i]) == (
            #[trigger] models[k]).0 by {
            if i < shorter.len() {
                assert(list[i] == shorter[i]);
                let k = choose|k: int|
                    0 <= k < before.len() && listed_name(shorter[i]) == (#[trigger] before[k]).0;
                assert(models[k] == before[k]);
            } else {
                lemma_asr_name(last.0, last.1, streaming, vad);
                assert(models[models.len() - 1] == last);
            }
        }
        assert forall|i: int, j: int| 0 <= i < j < list.len() implies !text::text_before(
            listed_name(#[trigger] list[j]),
            listed_name(#[trigger] list[i]),
        ) by {
            assert(list[i] == shorter[i]);
            if j < shorter.len() {
                assert(list[j] == shorter[j]);
            } else {
                lemma_asr_name(last.0, last.1, streaming, vad);
                let k = choose|k: int|
                    0 <= k < before.len() && listed_name(shorter[i]) == (#[trigger] before[k]).0;
                assert(models[k] == before[k]);
                assert(models[models.len() - 1] == last);
            }
        }
    }
}

/// An ASR model is listed under its name.
proof fn lemma_asr_name(model: Seq<char>, handle: AsrView, streaming: bool, vad: bool)
    ensures
        listed_name(asr_json(model, handle, streaming, vad)) == model,
{
    broadcast use json::group_member;

}

/// No voice name is listed under two models: a voice is listed only under the
/// model that its name leads to.
pub proof fn law_voice_listed_once(
    map: VoiceMap,
    a: Seq<char>,
    a_voices: Seq<VoiceInfoView>,
    b: Seq<char>,
    b_voices: Seq<VoiceInfoView>,
)
    requires
        a != b,
    ensures
        forall|i: int, j: int|
            0 <= i < own_voices(map, a, a_voices).len() && 0 <= j < own_voices(
                map,
                b,
                b_voices,
            ).len() ==> (#[trigger] own_voices(map, a, a_voices)[i]).name != (
            #[trigger] own_voices(map, b, b_voices)[j]).name,
{
    lemma_own_voices(map, a, a_voices);
    lemma_own_voices(map, b, b_voices);
}

/// A voice is listed only under the model that its name leads to.
proof fn lemma_own_voices(map: VoiceMap, model: Seq<char>, voices: Seq<VoiceInfoView>)
    ensures
        forall|i: int|
            0 <= i < own_voices(map, model, voices).len() ==> map.voice_model(
                (#[trigger] own_voices(map, model, voices)[i]).name,
            ) == Some(model),
    decreases voices.len(),
{
    if voices.len() > 0 {
        lemma_own_voices(map, model, voices.drop_last());
    }
}

/// The names of the members of a description differ from each other.
proof fn lemma_member_names()
    ensures
        "name"@.len() == 4,
        "url"@.len() == 3,
        "attribution"@.len() == 11,
        "description"@.len() == 11,
        "attribution"@[0] == 'a',
        "description"@[0] == 'd',
        "installed"@.len() == 9,
        "languages"@.len() == 9,
        "installed"@[0] == 'i',
        "languages"@[0] == 'l',
        "version"@.len() == 7,
        "speakers"@.len() == 8,
        "voices"@.len() == 6,
        "models"@.len() == 6,
        "supports_synthesize_streaming"@.len() == 29,
        "supports_transcript_streaming"@.len() == 29,
        "requires_external_vad"@.len() == 21,
{
    reveal_strlit("name");
    reveal_strlit("url");
    reveal_strlit("attribution");
    reveal_strlit("description");
    reveal_strlit("installed");
    reveal_strlit("languages");
    reveal_strlit("version");
    reveal_strlit("speakers");
    reveal_strlit("voices");
    reveal_strlit("models");
    reveal_strlit("supports_synthesize_streaming");
    reveal_strlit("supports_transcript_streaming");
    reveal_strlit("requires_external_vad");
}

/// The attribution is an exact value.
proof fn lemma_attribution_exact(nesting: nat)
    requires
        nesting >= 1,
    ensures
        json::exact(attribution(), nesting),
{
    lemma_member_names();
    reveal_with_fuel(json::exact, 2);
}

/// A list of texts is an exact value.
proof fn lemma_texts_exact(list: Seq<Seq<char>>, nesting: nat)
    requires
        nesting >= 1,
    ensures
        json::exact(text_list(list), nesting),
{
    reveal_with_fuel(json::exact, 2);
}

/// The description of a voice is an exact value.
proof fn lemma_voice_exact(voice: VoiceInfoView, nesting: nat)
    requires
        nesting >= 2,
    ensures
        json::exact(voice_json(voice), nesting),
{
    lemma_member_names();
    lemma_attribution_exact((nesting - 1) as nat);
    lemma_texts_exact(voice.languages, (nesting - 1) as nat);
    let fields = voice_json(voice)->Object_0;
    assert(fields.len() == 7);
    assert forall|i: int| 0 <= i < fields.len() implies json::exact(
        (#[trigger] fields[i]).1,
        (nesting - 1) as nat,
    ) by {
        assert(fields[i].1 == attribution() || fields[i].1 == text_list(voice.languages)
            || fields[i].1 is Text || fields[i].1 is Bool || fields[i].1 is Null);
    }
}

/// The description of a TTS model is an exact value.
proof fn lemma_tts_exact(
    map: VoiceMap,
    model: Seq<char>,
    handle: TtsView,
    streaming: bool,
    nesting: nat,
)
    requires
        nesting >= 4,
    ensures
        json::exact(tts_json(map, model, handle, streaming), nesting),
{
    lemma_member_names();
    lemma_attribution_exact((nesting - 1) as nat);
    let voices = own_voices(map, model, handle.voices);
    let list = voice_list(voices);
    assert(json::exact(list, (nesting - 1) as nat)) by {
        assert forall|i: int| 0 <= i < list->Array_0.len() implies json::exact(
            #[trigger] list->Array_0[i],
            (nesting - 2) as nat,
        ) by {
            lemma_voice_exact(voices[i], (nesting - 2) as nat);
        }
    }
    let fields = tts_json(map, model, handle, streaming)->Object_0;
    assert(fields.len() == 7);
    assert forall|i: int| 0 <= i < fields.len() implies json::exact(
        (#[trigger] fields[i]).1,
        (nesting - 1) as nat,
    ) by {
        assert(fields[i].1 == attribution() || fields[i].1 == list || fields[i].1 is Text
            || fields[i].1 is Bool || fields[i].1 is Null);
    }
}

/// The description of an ASR model is an exact value.
proof fn lemma_asr_exact(
    model: Seq<char>,
    handle: AsrView,
    streaming: bool,
    vad: bool,
    nesting: nat,
)
    requires
        nesting >= 4,
    ensures
        json::exact(asr_json(model, handle, streaming, vad), nesting),
{
    lemma_member_names();
    lemma_attribution_exact((nesting - 1) as nat);
    lemma_attribution_exact((nesting - 3) as nat);
    lemma_texts_exact(handle.languages, (nesting - 3) as nat);
    let inner = asr_model_json(model, handle);
    assert(json::exact(inner, (nesting - 2) as nat)) by {
        let fields = inner->Object_0;
        assert(fields.len() == 4);
        assert forall|i: int| 0 <= i < fields.len() implies json::exact(
            (#[trigger] fields[i]).1,
            (nesting - 3) as nat,
        ) by {
            assert(fields[i].1 == attribution() || fields[i].1 == text_list(handle.languages)
                || fields[i].1 is Text || fields[i].1 is Bool);
        }
    }
    let models = JsonView::Array(seq![inner]);
    assert(json::exact(models, (nesting - 1) as nat));
    let fields = asr_json(model, handle, streaming, vad)->Object_0;
    assert(fields.len() == 6);
    assert forall|i: int| 0 <= i < fields.len() implies json::exact(
        (#[trigger] fields[i]).1,
        (nesting - 1) as nat,
    ) by {
        assert(fields[i].1 == attribution() || fields[i].1 == models || fields[i].1 is Text
            || fields[i].1 is Bool);
    }
}

/// The descriptions that [`build_info`] gives read back exactly as they were
/// written, whatever models and voices there are.
pub proof fn law_info_exact(
    runtime: RuntimeView,
    voice_map: VoiceMap,
    asr_map: AsrModelMap,
)
    ensures
        event::exact_event(
            EventView::Info {
                tts: tts_list(voice_map, table::ordered(runtime.tts), runtime.streaming),
                asr: asr_list(
                    asr_map,
                    table::ordered(runtime.asr),
                    runtime.streaming,
                    runtime.vad,
                ),
                wake: Seq::empty(),
            },
        ),
{
    lemma_tts_list_exact(voice_map, table::ordered(runtime.tts), runtime.streaming);
    lemma_asr_list_exact(asr_map, table::ordered(runtime.asr), runtime.streaming, runtime.vad);
}

/// The descriptions of TTS models are exact values.
proof fn lemma_tts_list_exact(map: VoiceMap, models: Seq<(Seq<char>, TtsView)>, streaming: bool)
    ensures
        event::exact_items(tts_list(map, models, streaming)),
    decreases models.len(),
{
    if models.len() > 0 {
        lemma_tts_list_exact(map, models.drop_last(), streaming);
        lemma_tts_exact(
            map,
            models.last().0,
            models.last().1,
            streaming,
            (json::MAX_NESTING - 2) as nat,
        );
    }
}

/// The descriptions of ASR models are exact values.
proof fn lemma_asr_list_exact(
    map: AsrModelMap,
    models: Seq<(Seq<char>, AsrView)>,
    streaming: bool,
    vad: bool,
)
    ensures
        event::exact_items(asr_list(map, models, streaming, vad)),
    decreases models.len(),
{
    if models.len() > 0 {
        lemma_asr_list_exact(map, models.drop_last(), streaming, vad);
        lemma_asr_exact(
            models.last().0,
            models.last().1,
            streaming,
            vad,
            (json::MAX_NESTING - 2) as nat,
        );
    }
}

/// A model's list has every voice of the model whose name leads to that model,
/// in the model's order, and no other.
pub proof fn law_own_voices(map: VoiceMap, model: Seq<char>, voices: Seq<VoiceInfoView>)
    ensures
        own_voices(map, model, voices) == voices.filter(
            |v: VoiceInfoView| map.voice_model(v.name) == Some(model),
        ),
    decreases voices.len(),
{
    reveal(Seq::filter);
    if voices.len() > 0 {
        law_own_voices(map, model, voices.drop_last());
    }
}

/// A voice that a model has is in the model's list wherever its name leads to
/// that model.
pub proof fn law_voice_listed(
    map: VoiceMap,
    model: Seq<char>,
    voices: Seq<VoiceInfoView>,
    j: int,
)
    requires
        0 <= j < voices.len(),
    ensures
        own_voices(map, model, voices).contains(voices[j]) <==> map.voice_model(voices[j].name)
            == Some(model),
    decreases voices.len(),
{
    let own = own_voices(map, model, voices);
    if j == voices.len() - 1 {
        if map.voice_model(voices[j].name) == Some(model) {
            assert(own[own.len() - 1] == voices[j]);
        }
    } else {
        let before = voices.drop_last();
        law_voice_listed(map, model, before, j);
        let shorter = own_voices(map, model, before);
        if shorter.contains(voices[j]) {
            let i = choose|i: int| 0 <= i < shorter.len() && shorter[i] == voices[j];
            assert(own[i] == voices[j]);
        }
    }
    if own.contains(voices[j]) {
        let i = choose|i: int| 0 <= i < own.len() && own[i] == voices[j];
        lemma_own_voices(map, model, voices);
        assert(map.voice_model(own[i].name) == Some(model));
    }
}

/// The configured ones among the loaded TTS models are described, each once and
/// in order, and no others.
pub proof fn law_tts_models_described(
    map: VoiceMap,
    models: Seq<(Seq<char>, TtsView)>,
    streaming: bool,
)
    ensures
        tts_list(map, models, streaming) == models.filter(
            |m: (Seq<char>, TtsView)| map.configured(m.0),
        ).map_values(|m: (Seq<char>, TtsView)| tts_json(map, m.0, m.1, streaming)),
    decreases models.len(),
{
    reveal(Seq::filter);
    let configured = |m: (Seq<char>, TtsView)| map.configured(m.0);
    let describe = |m: (Seq<char>, TtsView)| tts_json(map, m.0, m.1, streaming);
    if models.len() > 0 {
        let before = models.drop_last();
        law_tts_models_described(map, before, streaming);
        assert(before.filter(configured).push(models.last()).map_values(describe)
            =~= before.filter(configured).map_values(describe).push(describe(models.last())));
    } else {
        assert(models.filter(configured).map_values(describe) =~= Seq::<JsonView>::empty());
    }
}

/// The configured ones among the loaded ASR models are described, each once and
/// in order, and no others.
pub proof fn law_asr_models_described(
    map: AsrModelMap,
    models: Seq<(Seq<char>, AsrView)>,
    streaming: bool,
    vad: bool,
)
    ensures
        asr_list(map, models, streaming, vad) == models.filter(
            |m: (Seq<char>, AsrView)| map.configured(m.0),
        ).map_values(|m: (Seq<char>, AsrView)| asr_json(m.0, m.1, streaming, vad)),
    decreases models.len(),
{
    reveal(Seq::filter);
    let configured = |m: (Seq<char>, AsrView)| map.configured(m.0);
    let describe = |m: (Seq<char>, AsrView)| asr_json(m.0, m.1, streaming, vad);
    if models.len() > 0 {
        let before = models.drop_last();
        law_asr_models_described(map, before, streaming, vad);
        assert(before.filter(configured).push(models.last()).map_values(describe)
            =~= before.filter(configured).map_values(describe).push(describe(models.last())));
    } else {
        assert(models.filter(configured).map_values(describe) =~= Seq::<JsonView>::empty());
    }
}

/// The value is a list of these texts.
pub open spec fn lists_texts(value: Option<JsonView>, texts: Seq<Seq<char>>) -> bool {
    value matches Some(JsonView::Array(items)) && items.len() == texts.len() && forall|i: int|
        0 <= i < items.len() ==> #[trigger] items[i] == JsonView::Text(texts[i])
}

/// The value is the attribution to the project, by its name and address.
pub open spec fn attributes(value: Option<JsonView>) -> bool {
    value matches Some(JsonView::Object(fields)) && json::member(fields, "name"@) == Some(
        JsonView::Text("Crane"@),
    ) && json::member(fields, "url"@) == Some(JsonView::Text("https://github.com/crane-ai/crane"@))
}

/// The description of a voice tells its name and all its languages in order.
pub proof fn law_voice_told(voice: VoiceInfoView)
    ensures
        voice_json(voice) matches JsonView::Object(fields) && json::member(fields, "name"@)
            == Some(JsonView::Text(voice.name)) && lists_texts(
            json::member(fields, "languages"@),
            voice.languages,
        ) && json::member(fields, "installed"@) == Some(JsonView::Bool(true)) && attributes(
            json::member(fields, "attribution"@),
        ) && json::member(fields, "description"@) == Some(JsonView::Null) && json::member(
            fields,
            "version"@,
        ) == Some(JsonView::Null) && json::member(fields, "speakers"@) == Some(JsonView::Null),
{
    broadcast use json::group_member;

    lemma_member_names();
}

/// The description of a TTS model tells its name, its own voices in order and
/// whether it streams.
pub proof fn law_tts_told(map: VoiceMap, model: Seq<char>, handle: TtsView, streaming: bool)
    ensures
        tts_json(map, model, handle, streaming) matches JsonView::Object(fields) && json::member(
            fields,
            "name"@,
        ) == Some(JsonView::Text(model)) && json::member(fields, "supports_synthesize_streaming"@)
            == Some(JsonView::Bool(streaming)) && json::member(fields, "installed"@) == Some(
            JsonView::Bool(true),
        ) && attributes(json::member(fields, "attribution"@)) && json::member(
            fields,
            "description"@,
        ) == Some(JsonView::Null) && json::member(fields, "version"@) == Some(JsonView::Null) && (
        json::member(fields, "voices"@) matches Some(JsonView::Array(items)) && items
            == handle.voices.filter(
            |v: VoiceInfoView| map.voice_model(v.name) == Some(model),
        ).map_values(|v: VoiceInfoView| voice_json(v))),
{
    law_own_voices(map, model, handle.voices);
    let fields = tts_json(map, model, handle, streaming)->Object_0;
    assert(json::member(fields, "name"@) == Some(JsonView::Text(model)) && json::member(
        fields,
        "supports_synthesize_streaming"@,
    ) == Some(JsonView::Bool(streaming)) && json::member(fields, "installed"@) == Some(
        JsonView::Bool(true),
    ) && json::member(fields, "attribution"@) == Some(attribution()) && json::member(
        fields,
        "description"@,
    ) == Some(JsonView::Null) && json::member(fields, "version"@) == Some(JsonView::Null)
        && json::member(fields, "voices"@) == Some(
        voice_list(own_voices(map, model, handle.voices)),
    )) by {
        broadcast use json::group_member;

        lemma_member_names();
    }
    assert(attributes(Some(attribution()))) by {
        broadcast use json::group_member;

        lemma_member_names();
    }
}

/// The description of an ASR model tells its name, all its languages in order,
/// whether it streams, and that the client has to find the speech in the audio
/// where the server does not.
pub proof fn law_asr_told(model: Seq<char>, handle: AsrView, streaming: bool, vad: bool)
    ensures
        asr_json(model, handle, streaming, vad) matches JsonView::Object(fields) && json::member(
            fields,
            "name"@,
        ) == Some(JsonView::Text(model)) && json::member(fields, "supports_transcript_streaming"@)
            == Some(JsonView::Bool(streaming)) && json::member(fields, "requires_external_vad"@)
            == Some(JsonView::Bool(!vad)) && json::member(fields, "installed"@) == Some(
            JsonView::Bool(true),
        ) && attributes(json::member(fields, "attribution"@)) && (json::member(
            fields,
            "models"@,
        ) matches Some(JsonView::Array(models)) && models.len() == 1 && (
        models[0] matches JsonView::Object(inner) && json::member(inner, "name"@) == Some(
            JsonView::Text(model),
        ) && lists_texts(json::member(inner, "languages"@), handle.languages) && json::member(
            inner,
            "installed"@,
        ) == Some(JsonView::Bool(true)) && attributes(json::member(inner, "attribution"@)))),
{
    let fields = asr_json(model, handle, streaming, vad)->Object_0;
    let inner = asr_model_json(model, handle)->Object_0;
    assert(json::member(fields, "name"@) == Some(JsonView::Text(model)) && json::member(
        fields,
        "supports_transcript_streaming"@,
    ) == Some(JsonView::Bool(streaming)) && json::member(fields, "requires_external_vad"@) == Some(
        JsonView::Bool(!vad),
    ) && json::member(fields, "installed"@) == Some(JsonView::Bool(true)) && json::member(
        fields,
        "attribution"@,
    ) == Some(attribution()) && json::member(fields, "models"@) == Some(
        JsonView::Array(seq![asr_model_json(model, handle)]),
    )) by {
        broadcast use json::group_member;

        lemma_member_names();
    }
    assert(json::member(inner, "name"@) == Some(JsonView::Text(model)) && json::member(
        inner,
        "languages"@,
    ) == Some(text_list(handle.languages)) && json::member(inner, "installed"@) == Some(
        JsonView::Bool(true),
    ) && json::member(inner, "attribution"@) == Some(attribution())) by {
        broadcast use json::group_member;

        lemma_member_names();
    }
    assert(attributes(Some(attribution()))) by {
        broadcast use json::group_member;

        lemma_member_names();
    }
}

} // verus!
