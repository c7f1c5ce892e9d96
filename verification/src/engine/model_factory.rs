//! TTS and ASR model type detection and selection.
//!
//! Detection goes by `config.json`'s `model_type` / `architectures` fields
//! (Qwen3-TTS, Qwen3-ASR) or `params.json`'s `model_type` field (Voxtral-TTS),
//! and else by the model's path.

use vstd::prelude::*;
use vstd::string::*;
use crate::event;
use crate::json;
use crate::json::{Json, JsonView};
use crate::table;
use crate::text;

verus! {

broadcast use {json::lemma_array_view, json::lemma_object_view};

/// Supported TTS/ASR model architectures.
#[derive(Debug, Clone, Copy, PartialEq, Eq, Structural)]
pub enum ModelType {
    /// Detect the model type from the model directory's config files.
    Auto,
    /// Qwen3-TTS.
    Qwen3TTS,
    /// Voxtral-4B-TTS.
    VoxtralTTS,
    /// Qwen3-ASR.
    Qwen3ASR,
}

/// `name` is one of the names of Qwen3-TTS.
pub open spec fn names_qwen3_tts(name: Seq<char>) -> bool {
    name == "qwen3_tts"@ || name == "qwen3tts"@ || name == "qwen3-tts"@ || name == "tts"@
}

/// `name` is one of the names of Voxtral-TTS.
pub open spec fn names_voxtral_tts(name: Seq<char>) -> bool {
    name == "voxtral_tts"@ || name == "voxtral-tts"@ || name == "voxtral"@ || name == "voxtral_4b"@
}

/// `name` is one of the names of Qwen3-ASR.
pub open spec fn names_qwen3_asr(name: Seq<char>) -> bool {
    name == "qwen3_asr"@ || name == "qwen3asr"@ || name == "qwen3-asr"@ || name == "asr"@
}

impl ModelType {
    /// The model type that a name stands for, whatever its case; `Auto` for a
    /// name that is not known.
    pub open spec fn named(name: Seq<char>) -> ModelType {
        let name = text::lowered(name);
        if names_qwen3_tts(name) {
            ModelType::Qwen3TTS
        } else if names_voxtral_tts(name) {
            ModelType::VoxtralTTS
        } else if names_qwen3_asr(name) {
            ModelType::Qwen3ASR
        } else {
            ModelType::Auto
        }
    }

    /// Reads a model type name.
    pub fn from_str(s: &str) -> (r: Self)
        ensures
            r == ModelType::named(s@),
            r is Qwen3TTS <==> ({
                let name = text::lowered(s@);
                name == "qwen3_tts"@ || name == "qwen3tts"@ || name == "qwen3-tts"@ || name == "tts"@
            }),
            r is VoxtralTTS <==> ({
                let name = text::lowered(s@);
                name == "voxtral_tts"@ || name == "voxtral-tts"@ || name == "voxtral"@ || name == "voxtral_4b"@
            }),
            r is Qwen3ASR <==> ({
                let name = text::lowered(s@);
                name == "qwen3_asr"@ || name == "qwen3asr"@ || name == "qwen3-asr"@ || name == "asr"@
            }),
    {
        proof {
            lemma_type_names_differ();
        }
        let name = text::to_lower(s);
        let n = name.as_str();
        if text::same(n, "qwen3_tts") || text::same(n, "qwen3tts") || text::same(n, "qwen3-tts")
            || text::same(n, "tts") {
            ModelType::Qwen3TTS
        } else if text::same(n, "voxtral_tts") || text::same(n, "voxtral-tts") || text::same(
            n,
            "voxtral",
        ) || text::same(n, "voxtral_4b") {
            ModelType::VoxtralTTS
        } else if text::same(n, "qwen3_asr") || text::same(n, "qwen3asr") || text::same(
            n,
            "qwen3-asr",
        ) || text::same(n, "asr") {
            ModelType::Qwen3ASR
        } else {
            ModelType::Auto
        }
    }

    /// The name used in logs and registration.
    pub open spec fn shown(self) -> Seq<char> {
        match self {
            ModelType::Auto => "auto"@,
            ModelType::Qwen3TTS => "qwen3_tts"@,
            ModelType::VoxtralTTS => "voxtral_tts"@,
            ModelType::Qwen3ASR => "qwen3_asr"@,
        }
    }

    /// Returns the display name used in logs and registration.
    pub fn display_name(&self) -> (r: &'static str)
        ensures
            r@ == self.shown(),
            self is Auto ==> r@ == "auto"@,
            self is Qwen3TTS ==> r@ == "qwen3_tts"@,
            self is VoxtralTTS ==> r@ == "voxtral_tts"@,
            self is Qwen3ASR ==> r@ == "qwen3_asr"@,
    {
        match self {
            ModelType::Auto => "auto",
            ModelType::Qwen3TTS => "qwen3_tts",
            ModelType::VoxtralTTS => "voxtral_tts",
            ModelType::Qwen3ASR => "qwen3_asr",
        }
    }

    /// Whether this is a TTS model type. `Auto` is neither a TTS nor an ASR
    /// type.
    pub open spec fn speaks(self) -> bool {
        self is Qwen3TTS || self is VoxtralTTS
    }

    /// Whether this is an ASR model type.
    pub open spec fn listens(self) -> bool {
        self is Qwen3ASR
    }

    /// Returns `true` if this is a TTS model type.
    pub fn is_tts(&self) -> (r: bool)
        ensures
            r == self.speaks(),
            r <==> self is Qwen3TTS || self is VoxtralTTS,
    {
        match self {
            ModelType::Qwen3TTS => true,
            ModelType::VoxtralTTS => true,
            ModelType::Qwen3ASR => false,
            ModelType::Auto => false,
        }
    }

    /// Returns `true` if this is an ASR model type.
    pub fn is_asr(&self) -> (r: bool)
        ensures
            r == self.listens(),
            r <==> self is Qwen3ASR,
    {
        match self {
            ModelType::Qwen3ASR => true,
            ModelType::Qwen3TTS => false,
            ModelType::VoxtralTTS => false,
            ModelType::Auto => false,
        }
    }
}

/// The names of the model types differ from one another: in length, or else in a
/// character.
proof fn lemma_type_names_differ()
    ensures
        "qwen3_tts"@.len() == 9,
        "qwen3tts"@.len() == 8,
        "qwen3-tts"@.len() == 9,
        "tts"@.len() == 3,
        "voxtral_tts"@.len() == 11,
        "voxtral-tts"@.len() == 11,
        "voxtral"@.len() == 7,
        "voxtral_4b"@.len() == 10,
        "qwen3_asr"@.len() == 9,
        "qwen3asr"@.len() == 8,
        "qwen3-asr"@.len() == 9,
        "asr"@.len() == 3,
        "qwen3_tts"@ != "qwen3_asr"@,
        "qwen3_tts"@ != "qwen3-asr"@,
        "qwen3tts"@ != "qwen3asr"@,
        "qwen3-tts"@ != "qwen3_asr"@,
        "qwen3-tts"@ != "qwen3-asr"@,
        "tts"@ != "asr"@,
{
    reveal_strlit("qwen3_tts");
    reveal_strlit("qwen3tts");
    reveal_strlit("qwen3-tts");
    reveal_strlit("tts");
    reveal_strlit("voxtral_tts");
    reveal_strlit("voxtral-tts");
    reveal_strlit("voxtral");
    reveal_strlit("voxtral_4b");
    reveal_strlit("qwen3_asr");
    reveal_strlit("qwen3asr");
    reveal_strlit("qwen3-asr");
    reveal_strlit("asr");
    assert("qwen3_tts"@[6] != "qwen3_asr"@[6]);
    assert("qwen3_tts"@[5] != "qwen3-asr"@[5]);
    assert("qwen3tts"@[5] != "qwen3asr"@[5]);
    assert("qwen3-tts"@[5] != "qwen3_asr"@[5]);
    assert("qwen3-tts"@[6] != "qwen3-asr"@[6]);
    assert("tts"@[0] != "asr"@[0]);
}

/// The name that a model type displays stands for that type.
pub proof fn law_display_name_round_trip(model_type: ModelType)
    ensures
        ModelType::named(model_type.shown()) == model_type,
{
    reveal_strlit("auto");
    reveal_strlit("qwen3_tts");
    reveal_strlit("qwen3tts");
    reveal_strlit("qwen3-tts");
    reveal_strlit("tts");
    reveal_strlit("voxtral_tts");
    reveal_strlit("voxtral-tts");
    reveal_strlit("voxtral");
    reveal_strlit("voxtral_4b");
    reveal_strlit("qwen3_asr");
    reveal_strlit("qwen3asr");
    reveal_strlit("qwen3-asr");
    reveal_strlit("asr");
    let name = model_type.shown();
    assert(text::lowered(name) == name);
    assert("qwen3_asr"@[6] != "qwen3_tts"@[6]);
    assert("qwen3_asr"@[6] != "qwen3-tts"@[6]);
    assert("auto"@.len() == 4);
}

/// `data` lists the values of exactly the given number of fields.
pub open spec fn is_full_record(data: JsonView, count: int) -> bool {
    match data {
        JsonView::Object(_) => true,
        JsonView::Array(items) => items.len() == count,
        _ => false,
    }
}

/// A list of texts, if every item is one.
pub open spec fn text_items(items: Seq<JsonView>) -> Option<Seq<Seq<char>>> {
    if forall|i: int| 0 <= i < items.len() ==> (#[trigger] items[i]) is Text {
        Some(items.map_values(|v: JsonView| v->Text_0))
    } else {
        None
    }
}

/// An optional list of texts; `null` counts as unset.
pub open spec fn optional_texts(value: Option<JsonView>) -> Option<Option<Seq<Seq<char>>>> {
    match value {
        None => Some(None),
        Some(JsonView::Null) => Some(None),
        Some(JsonView::Array(items)) => match text_items(items) {
            Some(list) => Some(Some(list)),
            None => None,
        },
        _ => None,
    }
}

/// The model type that a `model_type` entry of `config.json` names.
pub open spec fn config_name_type(name: Seq<char>) -> Option<ModelType> {
    let name = text::lowered(name);
    if name == "qwen3_tts"@ || name == "qwen3tts"@ {
        Some(ModelType::Qwen3TTS)
    } else if name == "qwen3_asr"@ || name == "qwen3asr"@ {
        Some(ModelType::Qwen3ASR)
    } else {
        None
    }
}

/// The model type that an `architectures` entry of `config.json` names.
pub open spec fn architecture_type(name: Seq<char>) -> Option<ModelType> {
    let name = text::lowered(name);
    if text::holds_text(name, "qwen3ttsforconditional"@) || text::holds_text(name, "qwen3_tts"@) {
        Some(ModelType::Qwen3TTS)
    } else if text::holds_text(name, "qwen3asrforconditional"@) || text::holds_text(
        name,
        "qwen3_asr"@,
    ) {
        Some(ModelType::Qwen3ASR)
    } else {
        None
    }
}

/// The model type that the first telling architecture names.
pub open spec fn architectures_type(names: Seq<Seq<char>>) -> Option<ModelType>
    decreases names.len(),
{
    if names.len() == 0 {
        None
    } else if architecture_type(names[0]) is Some {
        architecture_type(names[0])
    } else {
        architectures_type(names.drop_first())
    }
}

/// The model type that `config.json` tells: by its `model_type`, else by its
/// `architectures`. A config whose entries have the wrong types tells nothing.
pub open spec fn config_type(config: JsonView) -> Option<ModelType> {
    let name = event::optional_text(event::slot(config, 0, "model_type"@));
    let architectures = optional_texts(event::slot(config, 1, "architectures"@));
    if !is_full_record(config, 2) || name is None || architectures is None {
        None
    } else if name->0 is Some && config_name_type(name->0->0) is Some {
        config_name_type(name->0->0)
    } else if architectures->0 is Some {
        architectures_type(architectures->0->0)
    } else {
        None
    }
}

/// The model type that `params.json` tells by its `model_type`.
pub open spec fn params_type(params: JsonView) -> Option<ModelType> {
    if is_full_record(params, 1) && event::optional_text(event::slot(params, 0, "model_type"@))
        == Some(Some("voxtral_tts"@)) {
        Some(ModelType::VoxtralTTS)
    } else {
        None
    }
}

/// Whether `data` lists the values of exactly `count` fields.
fn full_record(data: &Json, count: usize) -> (r: bool)
    ensures
        r == is_full_record(data@, count as int),
{
    match data {
        Json::Object(_) => true,
        Json::Array(items) => items.len() == count,
        _ => false,
    }
}

/// Reads an optional list of texts.
fn read_optional_texts(value: Option<&Json>) -> (r: Option<Option<Vec<String>>>)
    ensures
        optional_texts(
            match value {
                Some(v) => Some(v@),
                None => None,
            },
        ) == (match r {
            Some(Some(list)) => Some(Some(text::texts(list@))),
            Some(None) => Some(None),
            None => None,
        }),
{
    match value {
        None => Some(None),
        Some(Json::Null) => Some(None),
        Some(Json::Array(items)) => {
            let ghost views = json::items_view(items@);
            let mut list: Vec<String> = Vec::new();
            let mut i: usize = 0;
            while i < items.len()
                invariant
                    i <= items@.len(),
                    views == json::items_view(items@),
                    value is Some,
                    value->0@ == JsonView::Array(views),
                    list@.len() == i,
                    forall|k: int|
                        0 <= k < i ==> (#[trigger] views[k]) is Text && list@[k]@
                            == views[k]->Text_0,
                decreases items@.len() - i,
            {
                match &items[i] {
                    Json::Text(s) => {
                        list.push(s.clone());
                        proof {
                            assert(views[i as int] == JsonView::Text(s@));
                        }
                    },
                    _ => {
                        proof {
                            assert(!(views[i as int] is Text));
                            assert(text_items(views) is None);
                        }
                        return None;
                    },
                }
                i = i + 1;
            }
            proof {
                assert(text::texts(list@) == views.map_values(|v: JsonView| v->Text_0));
            }
            Some(Some(list))
        },
        _ => None,
    }
}

/// The model type that a `model_type` entry of `config.json` names.
fn type_of_config_name(name: &str) -> (r: Option<ModelType>)
    ensures
        r == config_name_type(name@),
{
    let lower = text::to_lower(name);
    let n = lower.as_str();
    if text::same(n, "qwen3_tts") || text::same(n, "qwen3tts") {
        Some(ModelType::Qwen3TTS)
    } else if text::same(n, "qwen3_asr") || text::same(n, "qwen3asr") {
        Some(ModelType::Qwen3ASR)
    } else {
        None
    }
}

/// The model type that an `architectures` entry of `config.json` names.
fn type_of_architecture(name: &str) -> (r: Option<ModelType>)
    ensures
        r == architecture_type(name@),
{
    let lower = text::to_lower(name);
    let n = lower.as_str();
    if text::contains_text(n, "qwen3ttsforconditional") || text::contains_text(n, "qwen3_tts") {
        Some(ModelType::Qwen3TTS)
    } else if text::contains_text(n, "qwen3asrforconditional") || text::contains_text(
        n,
        "qwen3_asr",
    ) {
        Some(ModelType::Qwen3ASR)
    } else {
        None
    }
}

/// The model type that the first telling architecture names.
fn type_of_architectures(names: &Vec<String>) -> (r: Option<ModelType>)
    ensures
        r == architectures_type(text::texts(names@)),
{
    let ghost all = text::texts(names@);
    let mut i: usize = 0;
    proof {
        assert(all.skip(0) == all);
    }
    while i < names.len()
        invariant
            i <= names@.len(),
            all == text::texts(names@),
            architectures_type(all) == architectures_type(all.skip(i as int)),
        decreases names@.len() - i,
    {
        proof {
            assert(all.skip(i as int)[0] == names@[i as int]@);
            assert(all.skip(i as int).drop_first() == all.skip(i + 1));
        }
        let found = type_of_architecture(names[i].as_str());
        if found.is_some() {
            return found;
        }
        i = i + 1;
    }
    None
}

/// The model type that a parsed `config.json` tells.
pub fn config_model_type(config: &Json) -> (r: Option<ModelType>)
    ensures
        r == config_type(config@),
{
    let name = event::read_optional_text(event::slot_of(config, 0, "model_type"));
    let architectures = read_optional_texts(event::slot_of(config, 1, "architectures"));
    if !full_record(config, 2) {
        return None;
    }
    match (name, architectures) {
        (Some(name), Some(architectures)) => {
            if let Some(name) = &name {
                let found = type_of_config_name(name.as_str());
                if found.is_some() {
                    return found;
                }
            }
            match &architectures {
                Some(list) => type_of_architectures(list),
                None => None,
            }
        },
        _ => None,
    }
}

/// The model type that a parsed `params.json` tells.
pub fn params_model_type(params: &Json) -> (r: Option<ModelType>)
    ensures
        r == params_type(params@),
{
    if !full_record(params, 1) {
        return None;
    }
    match event::read_optional_text(event::slot_of(params, 0, "model_type")) {
        Some(Some(name)) => if text::same(name.as_str(), "voxtral_tts") {
            Some(ModelType::VoxtralTTS)
        } else {
            None
        },
        _ => None,
    }
}

/// What the content of a `config.json` tells, if it is well-formed JSON that
/// gives no field twice.
pub open spec fn told_by_config(content: Seq<u8>) -> Option<ModelType> {
    match json::record_of(content, seq!["model_type"@, "architectures"@]) {
        Some(value) => config_type(value),
        None => None,
    }
}

/// What the content of a `params.json` tells, if it is well-formed JSON that
/// gives no field twice.
pub open spec fn told_by_params(content: Seq<u8>) -> Option<ModelType> {
    match json::record_of(content, seq!["model_type"@]) {
        Some(value) => params_type(value),
        None => None,
    }
}

/// The model type of a directory with the given `config.json` and
/// `params.json`, if they tell one.
pub open spec fn probed_type(config: Option<Seq<u8>>, params: Option<Seq<u8>>) -> Option<
    ModelType,
> {
    let by_config = match config {
        Some(content) => told_by_config(content),
        None => None,
    };
    if by_config is Some {
        by_config
    } else {
        match params {
            Some(content) => told_by_params(content),
            None => None,
        }
    }
}

/// The content of an optional file.
pub open spec fn opt_content(file: Option<&Vec<u8>>) -> Option<Seq<u8>> {
    match file {
        Some(bytes) => Some(bytes@),
        None => None,
    }
}

/// Probes whether a directory holds a recognized TTS or ASR model, given the
/// contents of its `config.json` and `params.json` as far as they are there.
///
/// Unlike [`detect_model_type`], it never falls back to a path-name heuristic,
/// so it returns `None` for directories that don't contain a recognizable
/// model.
pub fn probe_model_type(config: Option<&Vec<u8>>, params: Option<&Vec<u8>>) -> (r: Option<
    ModelType,
>)
    ensures
        r == probed_type(opt_content(config), opt_content(params)),
{
    if let Some(bytes) = config {
        let known: Vec<&str> = vec!["model_type", "architectures"];
        proof {
            assert(json::names_view(known@) == seq!["model_type"@, "architectures"@]);
        }
        if let Some(value) = json::read_record(bytes.as_slice(), &known) {
            let found = config_model_type(&value);
            if found.is_some() {
                return found;
            }
        }
    }
    if let Some(bytes) = params {
        let known: Vec<&str> = vec!["model_type"];
        proof {
            assert(json::names_view(known@) == seq!["model_type"@]);
        }
        if let Some(value) = json::read_record(bytes.as_slice(), &known) {
            return params_model_type(&value);
        }
    }
    None
}

/// The model type that a path suggests, where probing found none.
pub open spec fn path_type(path: Seq<char>) -> ModelType {
    let path = text::lowered(path);
    if text::holds_text(path, "voxtral"@) {
        ModelType::VoxtralTTS
    } else if text::holds_text(path, "qwen3-asr"@) || text::holds_text(path, "qwen3_asr"@) {
        ModelType::Qwen3ASR
    } else {
        ModelType::Qwen3TTS
    }
}

/// The model type of a model at a path, given what probing its directory found.
pub open spec fn detected_type(path: Seq<char>, probed: Option<ModelType>) -> ModelType {
    match probed {
        Some(model_type) => model_type,
        None => path_type(path),
    }
}

/// Detects the model type of the model at `model_path`, given what
/// [`probe_model_type`] found in its directory, falling back to a path-name
/// heuristic.
pub fn detect_model_type(model_path: &str, probed: Option<ModelType>) -> (r: ModelType)
    ensures
        r == detected_type(model_path@, probed),
        probed matches Some(t) ==> r == t,
        probed is None ==> ({
            let path = text::lowered(model_path@);
            let voxtral = text::holds_text(path, "voxtral"@);
            &&& r is VoxtralTTS <==> voxtral
            &&& r is Qwen3ASR <==> !voxtral && (text::holds_text(path, "qwen3-asr"@)
                || text::holds_text(path, "qwen3_asr"@))
            &&& !(r is Auto)
        }),
{
    if let Some(model_type) = probed {
        return model_type;
    }
    let lower = text::to_lower(model_path);
    let path = lower.as_str();
    if text::contains_text(path, "voxtral") {
        ModelType::VoxtralTTS
    } else if text::contains_text(path, "qwen3-asr") || text::contains_text(path, "qwen3_asr") {
        ModelType::Qwen3ASR
    } else {
        ModelType::Qwen3TTS
    }
}

/// A TTS or ASR model found in a model directory.
#[derive(Debug, Clone, PartialEq, Eq)]
pub struct DiscoveredModel {
    /// Full path to the model directory.
    pub path: String,
    /// Directory name (the final path component), used as the model's
    /// registration name.
    pub name: String,
    /// Detected model architecture.
    pub model_type: ModelType,
}

/// The content of a list of discovered models, by name.
pub open spec fn models_view(models: Seq<DiscoveredModel>) -> Seq<
    (Seq<char>, (Seq<char>, ModelType)),
> {
    models.map_values(|m: DiscoveredModel| (m.name@, (m.path@, m.model_type)))
}

/// A subdirectory of a model directory, and what [`probe_model_type`] found in
/// it.
pub struct Subdirectory {
    /// Full path of the subdirectory.
    pub path: String,
    /// The model type found, if any.
    pub probed: Option<ModelType>,
}

/// Which family of models to keep.
#[derive(Debug, Clone, Copy, PartialEq, Eq, Structural)]
pub enum Family {
    /// Text to speech.
    Tts,
    /// Speech to text.
    Asr,
}

impl Family {
    /// Whether a model type belongs to this family.
    pub open spec fn holds(self, model_type: ModelType) -> bool {
        match self {
            Family::Tts => model_type.speaks(),
            Family::Asr => model_type.listens(),
        }
    }

    /// The name of a model whose path has no final component.
    pub open spec fn fallback(self) -> Seq<char> {
        match self {
            Family::Tts => "tts"@,
            Family::Asr => "asr"@,
        }
    }
}

/// The final component of a path: what follows its last `/`, once trailing
/// slashes and `.` components are gone. A path that ends in `..`, or has no
/// component, has none.
pub open spec fn final_component(path: Seq<char>) -> Option<Seq<char>>
    decreases path.len(),
{
    if path.len() == 0 {
        None
    } else if path.last() == '/' {
        final_component(path.drop_last())
    } else {
        let start = after_last_slash(path);
        let name = path.skip(start);
        if name == "."@ {
            proof {
                lemma_after_last_slash(path);
            }
            final_component(path.take(start))
        } else if name == ".."@ {
            None
        } else {
            Some(name)
        }
    }
}

/// The position after the last `/` of a path.
pub open spec fn after_last_slash(path: Seq<char>) -> int
    decreases path.len(),
{
    if path.len() == 0 || path.last() == '/' {
        path.len() as int
    } else {
        after_last_slash(path.drop_last())
    }
}

/// The position after the last `/` lies within the path, with no `/` after it.
pub proof fn lemma_after_last_slash(path: Seq<char>)
    ensures
        0 <= after_last_slash(path) <= path.len(),
        path.len() > 0 && path.last() != '/' ==> after_last_slash(path) < path.len(),
        forall|k: int| after_last_slash(path) <= k < path.len() ==> path[k] != '/',
        after_last_slash(path) > 0 ==> path[after_last_slash(path) - 1] == '/',
    decreases path.len(),
{
    if path.len() > 0 && path.last() != '/' {
        let shorter = path.drop_last();
        lemma_after_last_slash(shorter);
        assert forall|k: int| after_last_slash(path) <= k < path.len() implies path[k] != '/' by {
            assert(k < shorter.len() ==> shorter[k] == path[k]);
        }
    }
}

/// The name of a model, from its path.
pub open spec fn path_name(path: Seq<char>, fallback: Seq<char>) -> Seq<char> {
    match final_component(path) {
        Some(name) => name,
        None => fallback,
    }
}

/// Derives a name from a path's final component.
pub fn name_of_path(path: &str, fallback: &str) -> (r: String)
    ensures
        r@ == path_name(path@, fallback@),
{
    let chars = text::chars_of(path);
    let mut end: usize = chars.len();
    proof {
        assert(path@.take(end as int) == path@);
    }
    while end > 0
        invariant
            end <= chars@.len(),
            chars@ == path@,
            final_component(path@) == final_component(path@.take(end as int)),
        decreases end,
    {
        let ghost here = path@.take(end as int);
        if chars[end - 1] == '/' {
            proof {
                assert(here.drop_last() == path@.take(end - 1));
            }
            end = end - 1;
        } else {
            let mut start: usize = end;
            while start > 0 && chars[start - 1] != '/'
                invariant
                    start <= end <= chars@.len(),
                    chars@ == path@,
                    after_last_slash(path@.take(end as int)) == after_last_slash(
                        path@.take(start as int),
                    ),
                decreases start,
            {
                proof {
                    assert(path@.take(start as int).drop_last() == path@.take(start - 1));
                }
                start = start - 1;
            }
            proof {
                lemma_after_last_slash(here);
                assert(after_last_slash(here) == start);
            }
            let name = text::slice_text(&chars, start, end);
            proof {
                assert(name@ == here.skip(start as int));
                assert(here.take(start as int) == path@.take(start as int));
            }
            if text::same(name.as_str(), ".") {
                end = start;
            } else if text::same(name.as_str(), "..") {
                return String::from_str(fallback);
            } else {
                return name;
            }
        }
    }
    String::from_str(fallback)
}

/// The models of a family among the subdirectories of a model directory, in the
/// order in which the subdirectories were listed.
pub open spec fn found_models(subdirectories: Seq<Subdirectory>, family: Family) -> Seq<
    (Seq<char>, (Seq<char>, ModelType)),
>
    decreases subdirectories.len(),
{
    if subdirectories.len() == 0 {
        Seq::empty()
    } else {
        let before = found_models(subdirectories.drop_last(), family);
        let last = subdirectories.last();
        match last.probed {
            Some(model_type) => if family.holds(model_type) {
                before.push(
                    (path_name(last.path@, family.fallback()), (last.path@, model_type)),
                )
            } else {
                before
            },
            None => before,
        }
    }
}

/// Picks the models of a family and orders them by name.
fn discover(subdirectories: &Vec<Subdirectory>, family: Family) -> (r: Vec<DiscoveredModel>)
    ensures
        models_view(r@) == table::ordered(found_models(subdirectories@, family)),
{
    let mut r: Vec<DiscoveredModel> = Vec::new();
    let mut i: usize = 0;
    proof {
        assert(models_view(r@) == table::ordered(found_models(subdirectories@.take(0), family)));
    }
    while i < subdirectories.len()
        invariant
            i <= subdirectories@.len(),
            models_view(r@) == table::ordered(found_models(subdirectories@.take(i as int), family)),
        decreases subdirectories@.len() - i,
    {
        let ghost seen = subdirectories@.take(i as int);
        let ghost found = found_models(seen, family);
        proof {
            assert(subdirectories@.take(i + 1).drop_last() == seen);
        }
        let entry = &subdirectories[i];
        if let Some(model_type) = entry.probed {
            let keep = match family {
                Family::Tts => model_type.is_tts(),
                Family::Asr => model_type.is_asr(),
            };
            if keep {
                let fallback = match family {
                    Family::Tts => "tts",
                    Family::Asr => "asr",
                };
                let name = name_of_path(entry.path.as_str(), fallback);
                let path = entry.path.clone();
                let ghost value = (path@, model_type);
                let ghost sorted = models_view(r@);
                let mut k: usize = 0;
                while k < r.len() && !text::before(name.as_str(), r[k].name.as_str())
                    invariant
                        k <= r@.len(),
                        forall|j: int|
                            0 <= j < k ==> !text::text_before(
                                name@,
                                (#[trigger] models_view(r@)[j]).0,
                            ),
                    decreases r@.len() - k,
                {
                    k = k + 1;
                }
                proof {
                    table::lemma_rank_is(sorted, name@, k as int);
                    let more = found.push((name@, value));
                    assert(more.drop_last() == found);
                }
                let ghost label = name@;
                r.insert(k, DiscoveredModel { path, name, model_type });
                proof {
                    assert(models_view(r@) == sorted.insert(k as int, (label, value)));
                }
            }
        }
        i = i + 1;
    }
    proof {
        assert(subdirectories@.take(i as int) == subdirectories@);
    }
    r
}

/// Picks the recognized TTS models among the subdirectories of a model
/// directory.
///
/// Subdirectories that don't contain a recognized model are skipped. Results
/// are ordered by directory name, giving deterministic default model ordering.
pub fn discover_models(subdirectories: &Vec<Subdirectory>) -> (r: Vec<DiscoveredModel>)
    ensures
        models_view(r@) == table::ordered(found_models(subdirectories@, Family::Tts)),
{
    discover(subdirectories, Family::Tts)
}

/// Picks the recognized ASR models among the subdirectories of a model
/// directory; otherwise as [`discover_models`].
pub fn discover_asr_models(subdirectories: &Vec<Subdirectory>) -> (r: Vec<DiscoveredModel>)
    ensures
        models_view(r@) == table::ordered(found_models(subdirectories@, Family::Asr)),
{
    discover(subdirectories, Family::Asr)
}

/// What is found in one place belongs to the family that was looked for, so
/// that pointing [`discover_models`] and [`discover_asr_models`] at the same
/// directory never loads one model as both.
pub proof fn law_families_apart(subdirectories: Seq<Subdirectory>, family: Family)
    ensures
        forall|i: int|
            0 <= i < found_models(subdirectories, family).len() ==> family.holds(
                (#[trigger] found_models(subdirectories, family)[i]).1.1,
            ),
        forall|model_type: ModelType| !(Family::Tts.holds(model_type) && #[trigger] Family::Asr.holds(model_type)),
    decreases subdirectories.len(),
{
    if subdirectories.len() > 0 {
        let before = found_models(subdirectories.drop_last(), family);
        let found = found_models(subdirectories, family);
        law_families_apart(subdirectories.drop_last(), family);
        assert forall|i: int| 0 <= i < found.len() implies family.holds(
            (#[trigger] found[i]).1.1,
        ) by {
            if i < before.len() {
                assert(found[i] == before[i]);
            }
        }
    }
}

/// The names of a list of models.
pub open spec fn names_of(models: Seq<DiscoveredModel>) -> Seq<Seq<char>> {
    models.map_values(|m: DiscoveredModel| m.name@)
}

/// The models named in `requested`, in that order, or what is wrong with the
/// first name that was given before or that no model has.
pub open spec fn requested_models(
    discovered: Seq<DiscoveredModel>,
    requested: Seq<Seq<char>>,
    flag: Seq<char>,
) -> Result<Seq<(Seq<char>, (Seq<char>, ModelType))>, Seq<char>>
    decreases requested.len(),
{
    if requested.len() == 0 {
        Ok(Seq::empty())
    } else {
        let name = requested.last();
        match requested_models(discovered, requested.drop_last(), flag) {
            Err(e) => Err(e),
            Ok(list) => if requested.drop_last().contains(name) {
                Err("model '"@ + name + "' specified more than once in "@ + flag)
            } else {
                match table::lookup(models_view(discovered), name) {
                    Some(value) => Ok(list.push((name, value))),
                    None => Err(
                        "model '"@ + name + "' not found; available: "@ + text::joined(
                            names_of(discovered),
                            ", "@,
                        ),
                    ),
                }
            },
        }
    }
}

/// The models to load: the requested ones, or all where none was requested.
pub open spec fn models_to_load(
    discovered: Seq<DiscoveredModel>,
    requested: Seq<Seq<char>>,
    flag: Seq<char>,
) -> Result<Seq<(Seq<char>, (Seq<char>, ModelType))>, Seq<char>> {
    if requested.len() == 0 {
        Ok(models_view(discovered))
    } else {
        requested_models(discovered, requested, flag)
    }
}

/// The models that a list of references names.
pub open spec fn refs_view(models: Seq<&DiscoveredModel>) -> Seq<
    (Seq<char>, (Seq<char>, ModelType)),
> {
    models.map_values(|m: &DiscoveredModel| (m.name@, (m.path@, m.model_type)))
}

/// A choice of models, or the message of the error.
pub open spec fn choice_view(choice: Result<Vec<&DiscoveredModel>, String>) -> Result<
    Seq<(Seq<char>, (Seq<char>, ModelType))>,
    Seq<char>,
> {
    match choice {
        Ok(list) => Ok(refs_view(list@)),
        Err(message) => Err(message@),
    }
}

/// The message for a name that no model has.
fn not_found_message(discovered: &[DiscoveredModel], name: &str) -> (r: String)
    ensures
        r@ == "model '"@ + name@ + "' not found; available: "@ + text::joined(
            names_of(discovered@),
            ", "@,
        ),
{
    let mut names: Vec<String> = Vec::new();
    let mut i: usize = 0;
    while i < discovered.len()
        invariant
            i <= discovered@.len(),
            text::texts(names@) == names_of(discovered@).take(i as int),
        decreases discovered@.len() - i,
    {
        let ghost before = text::texts(names@);
        let name = discovered[i].name.clone();
        names.push(name);
        proof {
            assert(text::texts(names@) == before.push(name@));
            assert(names_of(discovered@).take(i + 1) == before.push(name@));
        }
        i = i + 1;
    }
    proof {
        assert(names_of(discovered@).take(i as int) == names_of(discovered@));
    }
    let mut r = String::new();
    r.append("model '");
    r.append(name);
    r.append("' not found; available: ");
    r.append(text::join(&names, ", ").as_str());
    r
}

/// Resolves `requested` names against `discovered` models, reporting errors
/// against `flag_name` (e.g. `--model-tts`).
///
/// If `requested` is empty, every model in `discovered` is returned in its
/// existing order. Otherwise, exactly the named models are returned, in
/// `requested`'s order, so the first name given becomes the default.
fn resolve_requested_models<'a>(
    discovered: &'a [DiscoveredModel],
    requested: &[String],
    flag_name: &str,
) -> (r: Result<Vec<&'a DiscoveredModel>, String>)
    ensures
        choice_view(r) == models_to_load(discovered@, text::texts(requested@), flag_name@),
{
    let ghost names = text::texts(requested@);
    let ghost all = models_view(discovered@);
    let mut resolved: Vec<&'a DiscoveredModel> = Vec::new();
    let mut i: usize = 0;
    if requested.len() == 0 {
        while i < discovered.len()
            invariant
                i <= discovered@.len(),
                all == models_view(discovered@),
                refs_view(resolved@) == all.take(i as int),
            decreases discovered@.len() - i,
        {
            let ghost before = refs_view(resolved@);
            resolved.push(&discovered[i]);
            proof {
                assert(refs_view(resolved@) == before.push(all[i as int]));
                assert(all.take(i + 1) == before.push(all[i as int]));
            }
            i = i + 1;
        }
        proof {
            assert(all.take(i as int) == all);
        }
        return Ok(resolved);
    }
    proof {
        assert(refs_view(resolved@) == Seq::<(Seq<char>, (Seq<char>, ModelType))>::empty());
    }
    while i < requested.len()
        invariant
            i <= requested@.len(),
            names == text::texts(requested@),
            all == models_view(discovered@),
            requested_models(discovered@, names.take(i as int), flag_name@) == Ok::<
                Seq<(Seq<char>, (Seq<char>, ModelType))>,
                Seq<char>,
            >(refs_view(resolved@)),
        decreases requested@.len() - i,
    {
        let ghost seen = names.take(i as int);
        let name = requested[i].as_str();
        proof {
            assert(names.take(i + 1).drop_last() == seen);
            assert(names.take(i + 1).last() == name@);
        }
        let mut k: usize = 0;
        let mut duplicate = false;
        while k < i
            invariant
                k <= i <= requested@.len(),
                names == text::texts(requested@),
                seen == names.take(i as int),
                duplicate == exists|j: int| 0 <= j < k && #[trigger] seen[j] == name@,
            decreases i - k,
        {
            if text::same(requested[k].as_str(), name) {
                duplicate = true;
                proof {
                    assert(seen[k as int] == name@);
                }
            }
            k = k + 1;
        }
        proof {
            assert(duplicate == seen.contains(name@));
        }
        if duplicate {
            let mut r = String::new();
            r.append("model '");
            r.append(name);
            r.append("' specified more than once in ");
            r.append(flag_name);
            proof {
                lemma_first_error(discovered@, names, flag_name@, i + 1);
            }
            return Err(r);
        }
        let mut k: usize = 0;
        while k < discovered.len() && !text::same(discovered[k].name.as_str(), name)
            invariant
                k <= discovered@.len(),
                all == models_view(discovered@),
                forall|j: int| 0 <= j < k ==> (#[trigger] all[j]).0 != name@,
            decreases discovered@.len() - k,
        {
            k = k + 1;
        }
        proof {
            table::lemma_index_is(all, name@, k as int);
        }
        if k == discovered.len() {
            proof {
                lemma_first_error(discovered@, names, flag_name@, i + 1);
            }
            return Err(not_found_message(discovered, name));
        }
        let ghost before = refs_view(resolved@);
        resolved.push(&discovered[k]);
        proof {
            assert(refs_view(resolved@) == before.push(all[k as int]));
        }
        i = i + 1;
    }
    proof {
        assert(names.take(i as int) == names);
    }
    Ok(resolved)
}

/// An error in the first `n` names is the error of all of them.
proof fn lemma_first_error(
    discovered: Seq<DiscoveredModel>,
    requested: Seq<Seq<char>>,
    flag: Seq<char>,
    n: int,
)
    requires
        0 <= n <= requested.len(),
        requested_models(discovered, requested.take(n), flag) is Err,
    ensures
        requested_models(discovered, requested, flag) == requested_models(
            discovered,
            requested.take(n),
            flag,
        ),
    decreases requested.len() - n,
{
    if n == requested.len() {
        assert(requested.take(n) == requested);
    } else {
        assert(requested.take(n + 1).drop_last() == requested.take(n));
        lemma_first_error(discovered, requested, flag, n + 1);
    }
}

/// Resolves the `--model-tts` names an operator requested against the models
/// that [`discover_models`] found. The first name given becomes the default
/// voice.
pub fn resolve_models_to_load<'a>(
    discovered: &'a [DiscoveredModel],
    requested: &[String],
) -> (r: Result<Vec<&'a DiscoveredModel>, String>)
    ensures
        choice_view(r) == models_to_load(
            discovered@,
            text::texts(requested@),
            "--model-tts"@,
        ),
{
    resolve_requested_models(discovered, requested, "--model-tts")
}

/// Resolves the `--model-asr` names an operator requested against the models
/// that [`discover_asr_models`] found. The first name given becomes the default
/// ASR model.
pub fn resolve_asr_models_to_load<'a>(
    discovered: &'a [DiscoveredModel],
    requested: &[String],
) -> (r: Result<Vec<&'a DiscoveredModel>, String>)
    ensures
        choice_view(r) == models_to_load(
            discovered@,
            text::texts(requested@),
            "--model-asr"@,
        ),
{
    resolve_requested_models(discovered, requested, "--model-asr")
}

/// Exactly the requested models are loaded, in the order in which they were
/// requested, no model twice, and each as it was discovered.
pub proof fn law_requested_models(
    discovered: Seq<DiscoveredModel>,
    requested: Seq<Seq<char>>,
    flag: Seq<char>,
)
    requires
        requested_models(discovered, requested, flag) is Ok,
    ensures
        requested_models(discovered, requested, flag)->Ok_0.len() == requested.len(),
        table::distinct(requested_models(discovered, requested, flag)->Ok_0),
        forall|i: int|
            0 <= i < requested.len() ==> (#[trigger] requested_models(
                discovered,
                requested,
                flag,
            )->Ok_0[i]).0 == requested[i] && table::lookup(models_view(discovered), requested[i])
                == Some(requested_models(discovered, requested, flag)->Ok_0[i].1),
    decreases requested.len(),
{
    if requested.len() > 0 {
        let before = requested.drop_last();
        law_requested_models(discovered, before, flag);
        let list = requested_models(discovered, before, flag)->Ok_0;
        let all = requested_models(discovered, requested, flag)->Ok_0;
        assert forall|i: int, j: int| 0 <= i < j < all.len() implies all[i].0 != all[j].0 by {
            assert(all[i] == list[i]);
            assert(before[i] == list[i].0);
            if j < list.len() {
                assert(all[j] == list[j]);
            }
        }
        assert forall|i: int| 0 <= i < requested.len() implies (#[trigger] all[i]).0 == requested[i]
            && table::lookup(models_view(discovered), requested[i]) == Some(all[i].1) by {
            if i < list.len() {
                assert(all[i] == list[i]);
                assert(before[i] == requested[i]);
            }
        }
    }
}

/// A model type, or the message of the error.
pub open spec fn type_view(r: Result<ModelType, String>) -> Result<ModelType, Seq<char>> {
    match r {
        Ok(model_type) => Ok(model_type),
        Err(message) => Err(message@),
    }
}

/// The TTS model type of a model; an auto-detected ASR type is refused.
pub open spec fn tts_type(
    model_type: ModelType,
    path: Seq<char>,
    probed: Option<ModelType>,
) -> Result<ModelType, Seq<char>> {
    let detected = detected_type(path, probed);
    if model_type != ModelType::Auto {
        Ok(model_type)
    } else if detected.listens() {
        Err(
            "auto-detected '"@ + path + "' as ASR model type '"@ + detected.shown()
                + "', but a TTS model was expected"@,
        )
    } else {
        Ok(detected)
    }
}

/// The ASR model type of a model; an auto-detected TTS type is refused.
pub open spec fn asr_type(
    model_type: ModelType,
    path: Seq<char>,
    probed: Option<ModelType>,
) -> Result<ModelType, Seq<char>> {
    let detected = detected_type(path, probed);
    if model_type != ModelType::Auto {
        Ok(model_type)
    } else if detected.speaks() {
        Err(
            "auto-detected '"@ + path + "' as TTS model type '"@ + detected.shown()
                + "', but an ASR model was expected"@,
        )
    } else {
        Ok(detected)
    }
}

/// Resolves `ModelType::Auto` to a concrete TTS type, given what
/// [`probe_model_type`] found in the model's directory.
///
/// If `model_type` isn't `Auto`, it's returned unchanged; [`create_tts`]
/// checks the family.
pub fn resolve_tts(model_type: ModelType, model_path: &str, probed: Option<ModelType>) -> (r:
    Result<ModelType, String>)
    ensures
        type_view(r) == tts_type(model_type, model_path@, probed),
        !(model_type is Auto) ==> r == Ok::<ModelType, String>(model_type),
        model_type is Auto ==> ({
            let detected = detected_type(model_path@, probed);
            if detected is Qwen3ASR {
                r matches Err(e) && e@ == "auto-detected '"@ + model_path@
                    + "' as ASR model type '"@ + detected.shown()
                    + "', but a TTS model was expected"@
            } else {
                r == Ok::<ModelType, String>(detected)
            }
        }),
{
    if model_type != ModelType::Auto {
        return Ok(model_type);
    }
    let detected = detect_model_type(model_path, probed);
    if detected.is_asr() {
        let mut r = String::new();
        r.append("auto-detected '");
        r.append(model_path);
        r.append("' as ASR model type '");
        r.append(detected.display_name());
        r.append("', but a TTS model was expected");
        return Err(r);
    }
    Ok(detected)
}

/// Resolves `ModelType::Auto` to a concrete ASR type; otherwise as
/// [`resolve_tts`].
pub fn resolve_asr(model_type: ModelType, model_path: &str, probed: Option<ModelType>) -> (r:
    Result<ModelType, String>)
    ensures
        type_view(r) == asr_type(model_type, model_path@, probed),
        !(model_type is Auto) ==> r == Ok::<ModelType, String>(model_type),
        model_type is Auto ==> ({
            let detected = detected_type(model_path@, probed);
            if detected is Qwen3TTS || detected is VoxtralTTS {
                r matches Err(e) && e@ == "auto-detected '"@ + model_path@
                    + "' as TTS model type '"@ + detected.shown()
                    + "', but an ASR model was expected"@
            } else {
                r == Ok::<ModelType, String>(detected)
            }
        }),
{
    if model_type != ModelType::Auto {
        return Ok(model_type);
    }
    let detected = detect_model_type(model_path, probed);
    if detected.is_tts() {
        let mut r = String::new();
        r.append("auto-detected '");
        r.append(model_path);
        r.append("' as TTS model type '");
        r.append(detected.display_name());
        r.append("', but an ASR model was expected");
        return Err(r);
    }
    Ok(detected)
}

/// The TTS architectures that can be constructed.
#[derive(Debug, Clone, Copy, PartialEq, Eq, Structural)]
pub enum TtsArchitecture {
    /// Qwen3-TTS.
    Qwen3,
    /// Voxtral-4B-TTS.
    Voxtral,
}

/// The ASR architectures that can be constructed.
#[derive(Debug, Clone, Copy, PartialEq, Eq, Structural)]
pub enum AsrArchitecture {
    /// Qwen3-ASR.
    Qwen3,
}

/// The architecture to construct for a TTS model type.
pub open spec fn tts_architecture(model_type: ModelType) -> Result<TtsArchitecture, Seq<char>> {
    match model_type {
        ModelType::Qwen3TTS => Ok(TtsArchitecture::Qwen3),
        ModelType::VoxtralTTS => Ok(TtsArchitecture::Voxtral),
        ModelType::Auto => Err("ModelType::Auto must be resolved before create_tts()"@),
        ModelType::Qwen3ASR => Err(
            "ModelType::"@ + model_type.shown()
                + " is an ASR model type; use create_asr() instead of create_tts()"@,
        ),
    }
}

/// The architecture to construct for an ASR model type.
pub open spec fn asr_architecture(model_type: ModelType) -> Result<AsrArchitecture, Seq<char>> {
    match model_type {
        ModelType::Qwen3ASR => Ok(AsrArchitecture::Qwen3),
        ModelType::Auto => Err("ModelType::Auto must be resolved before create_asr()"@),
        _ => Err(
            "ModelType::"@ + model_type.shown()
                + " is a TTS model type; use create_tts() instead of create_asr()"@,
        ),
    }
}

/// Picks the architecture to construct for a resolved TTS model type.
pub fn create_tts(model_type: ModelType) -> (r: Result<TtsArchitecture, String>)
    ensures
        match r {
            Ok(a) => tts_architecture(model_type) == Ok::<TtsArchitecture, Seq<char>>(a),
            Err(e) => tts_architecture(model_type) == Err::<TtsArchitecture, Seq<char>>(e@),
        },
        model_type is Qwen3TTS <==> r matches Ok(TtsArchitecture::Qwen3),
        model_type is VoxtralTTS <==> r matches Ok(TtsArchitecture::Voxtral),
        r matches Err(e) ==> e@ == (if model_type is Auto {
            "ModelType::Auto must be resolved before create_tts()"@
        } else {
            "ModelType::"@ + "qwen3_asr"@
                + " is an ASR model type; use create_asr() instead of create_tts()"@
        }),
{
    match model_type {
        ModelType::Qwen3TTS => Ok(TtsArchitecture::Qwen3),
        ModelType::VoxtralTTS => Ok(TtsArchitecture::Voxtral),
        ModelType::Auto => Err(
            String::from_str("ModelType::Auto must be resolved before create_tts()"),
        ),
        ModelType::Qwen3ASR => {
            let mut r = String::from_str("ModelType::");
            r.append(model_type.display_name());
            r.append(" is an ASR model type; use create_asr() instead of create_tts()");
            Err(r)
        },
    }
}

/// Picks the architecture to construct for a resolved ASR model type.
pub fn create_asr(model_type: ModelType) -> (r: Result<AsrArchitecture, String>)
    ensures
        match r {
            Ok(a) => asr_architecture(model_type) == Ok::<AsrArchitecture, Seq<char>>(a),
            Err(e) => asr_architecture(model_type) == Err::<AsrArchitecture, Seq<char>>(e@),
        },
        model_type is Qwen3ASR <==> r is Ok,
        r matches Err(e) ==> e@ == (if model_type is Auto {
            "ModelType::Auto must be resolved before create_asr()"@
        } else {
            "ModelType::"@ + (if model_type is Qwen3TTS {
                "qwen3_tts"@
            } else {
                "voxtral_tts"@
            }) + " is a TTS model type; use create_tts() instead of create_asr()"@
        }),
{
    match model_type {
        ModelType::Qwen3ASR => Ok(AsrArchitecture::Qwen3),
        ModelType::Auto => Err(
            String::from_str("ModelType::Auto must be resolved before create_asr()"),
        ),
        _ => {
            let mut r = String::from_str("ModelType::");
            r.append(model_type.display_name());
            r.append(" is a TTS model type; use create_tts() instead of create_asr()");
            Err(r)
        },
    }
}

/// What a `config.json` tells, by the names of its entries: its `model_type`
/// decides if it names a model type that is known, and else its `architectures`
/// do. An entry of the wrong type makes it tell nothing.
pub proof fn law_config_told(fields: Seq<(Seq<char>, JsonView)>)
    ensures
        ({
            let told = config_type(JsonView::Object(fields));
            let listed = json::member(fields, "architectures"@);
            let readable = listed is None || listed == Some(JsonView::Null) || (
            listed matches Some(JsonView::Array(items)) && forall|i: int|
                0 <= i < items.len() ==> (#[trigger] items[i]) is Text);
            let by_architectures = match listed {
                Some(JsonView::Array(items)) => architectures_type(
                    items.map_values(|v: JsonView| v->Text_0),
                ),
                _ => None,
            };
            &&& !readable ==> told is None
            &&& readable ==> (match json::member(fields, "model_type"@) {
                Some(JsonView::Text(name)) => {
                    let name = text::lowered(name);
                    if name == "qwen3_tts"@ || name == "qwen3tts"@ {
                        told == Some(ModelType::Qwen3TTS)
                    } else if name == "qwen3_asr"@ || name == "qwen3asr"@ {
                        told == Some(ModelType::Qwen3ASR)
                    } else {
                        told == by_architectures
                    }
                },
                Some(JsonView::Null) => told == by_architectures,
                None => told == by_architectures,
                _ => told is None,
            })
        }),
{
}

/// The first architecture that is known decides: the name of Qwen3-TTS or of
/// Qwen3-ASR has to occur in it, in whatever case.
pub proof fn law_first_architecture(before: Seq<Seq<char>>, name: Seq<char>, after: Seq<Seq<char>>)
    requires
        forall|i: int|
            0 <= i < before.len() ==> ({
                let other = text::lowered(#[trigger] before[i]);
                !text::holds_text(other, "qwen3ttsforconditional"@) && !text::holds_text(
                    other,
                    "qwen3_tts"@,
                ) && !text::holds_text(other, "qwen3asrforconditional"@) && !text::holds_text(
                    other,
                    "qwen3_asr"@,
                )
            }),
    ensures
        architectures_type(before) is None,
        text::holds_text(text::lowered(name), "qwen3ttsforconditional"@) || text::holds_text(
            text::lowered(name),
            "qwen3_tts"@,
        ) ==> architectures_type(before + seq![name] + after) == Some(ModelType::Qwen3TTS),
        (text::holds_text(text::lowered(name), "qwen3asrforconditional"@) || text::holds_text(
            text::lowered(name),
            "qwen3_asr"@,
        )) && !text::holds_text(text::lowered(name), "qwen3ttsforconditional"@)
            && !text::holds_text(text::lowered(name), "qwen3_tts"@) ==> architectures_type(
            before + seq![name] + after,
        ) == Some(ModelType::Qwen3ASR),
    decreases before.len(),
{
    let all = before + seq![name] + after;
    if before.len() > 0 {
        assert(all[0] == before[0]);
        assert(all.drop_first() == before.drop_first() + seq![name] + after);
        assert forall|i: int| 0 <= i < before.drop_first().len() implies ({
            let other = text::lowered(#[trigger] before.drop_first()[i]);
            !text::holds_text(other, "qwen3ttsforconditional"@) && !text::holds_text(
                other,
                "qwen3_tts"@,
            ) && !text::holds_text(other, "qwen3asrforconditional"@) && !text::holds_text(
                other,
                "qwen3_asr"@,
            )
        }) by {
            assert(before.drop_first()[i] == before[i + 1]);
        }
        law_first_architecture(before.drop_first(), name, after);
    } else {
        assert(all[0] == name);
    }
}

/// A `params.json` tells Voxtral-TTS by its `model_type`, spelled exactly, and
/// nothing else.
pub proof fn law_params_told(fields: Seq<(Seq<char>, JsonView)>)
    ensures
        params_type(JsonView::Object(fields)) == (if json::member(fields, "model_type"@) == Some(
            JsonView::Text("voxtral_tts"@),
        ) {
            Some(ModelType::VoxtralTTS)
        } else {
            None
        }),
{
}

/// A `config.json` that tells a model type is believed; `params.json` is asked
/// only where it does not.
pub proof fn law_config_first(config: Seq<u8>, params: Option<Seq<u8>>)
    ensures
        match json::record_of(config, seq!["model_type"@, "architectures"@]) {
            Some(value) => config_type(value) is Some ==> probed_type(Some(config), params)
                == config_type(value),
            None => probed_type(Some(config), params) == probed_type(None, params),
        },
        probed_type(Some(config), None) is None ==> probed_type(Some(config), params)
            == probed_type(None, params),
        params matches Some(content) ==> (match json::record_of(content, seq!["model_type"@]) {
            Some(value) => probed_type(None, params) == params_type(value),
            None => probed_type(None, params) is None,
        }),
        probed_type(None, None) is None,
{
}

/// A model is called after the last component of its path; slashes after it make
/// no difference.
pub proof fn law_path_name(
    directory: Seq<char>,
    name: Seq<char>,
    slashes: Seq<char>,
    fallback: Seq<char>,
)
    requires
        name.len() > 0,
        !name.contains('/'),
        name != "."@,
        name != ".."@,
        directory.len() > 0 ==> directory.last() == '/',
        forall|i: int| 0 <= i < slashes.len() ==> slashes[i] == '/',
    ensures
        path_name(directory + name + slashes, fallback) == name,
        path_name(slashes, fallback) == fallback,
    decreases slashes.len(),
{
    let path = directory + name + slashes;
    if slashes.len() > 0 {
        let fewer = slashes.drop_last();
        assert(path.last() == slashes[slashes.len() - 1]);
        assert(path.drop_last() == directory + name + fewer);
        assert(slashes.last() == '/');
        law_path_name(directory, name, fewer, fallback);
    } else {
        assert(path == directory + name);
        assert(name.contains(name.last()));
        assert(path.last() == name.last());
        lemma_after_last_slash(path);
        let start = after_last_slash(path);
        let n = directory.len() as int;
        assert(start <= n) by {
            if start > n {
                assert(path[start - 1] == name[start - 1 - n]);
                assert(name.contains(name[start - 1 - n]));
            }
        }
        assert(start >= n) by {
            if start < n {
                assert(path[n - 1] == directory.last());
            }
        }
        assert(path.skip(n) == name);
    }
}

/// Every subdirectory in which a model of the family was found is among the
/// models, in order, under the name of its path, and no other is.
pub proof fn law_models_found(subdirectories: Seq<Subdirectory>)
    ensures
        found_models(subdirectories, Family::Tts) == subdirectories.filter_map(
            |d: Subdirectory|
                match d.probed {
                    Some(ModelType::Qwen3TTS) => Some(
                        (path_name(d.path@, "tts"@), (d.path@, ModelType::Qwen3TTS)),
                    ),
                    Some(ModelType::VoxtralTTS) => Some(
                        (path_name(d.path@, "tts"@), (d.path@, ModelType::VoxtralTTS)),
                    ),
                    _ => None,
                },
        ),
        found_models(subdirectories, Family::Asr) == subdirectories.filter_map(
            |d: Subdirectory|
                match d.probed {
                    Some(ModelType::Qwen3ASR) => Some(
                        (path_name(d.path@, "asr"@), (d.path@, ModelType::Qwen3ASR)),
                    ),
                    _ => None,
                },
        ),
    decreases subdirectories.len(),
{
    if subdirectories.len() > 0 {
        law_models_found(subdirectories.drop_last());
    }
}

/// Without a request all models are loaded, in the order in which they are
/// listed.
pub proof fn law_all_loaded(discovered: Seq<DiscoveredModel>, flag: Seq<char>)
    ensures
        models_to_load(discovered, Seq::empty(), flag) matches Ok(models) && models.len()
            == discovered.len() && forall|i: int|
            0 <= i < models.len() ==> (#[trigger] models[i]).0 == discovered[i].name@
                && models[i].1.0 == discovered[i].path@ && models[i].1.1
                == discovered[i].model_type,
{
}

/// A request is refused for the first name in it that was given before or that no
/// model has, with a message about that name; and for nothing else.
pub proof fn law_request_refused(
    discovered: Seq<DiscoveredModel>,
    before: Seq<Seq<char>>,
    name: Seq<char>,
    after: Seq<Seq<char>>,
    flag: Seq<char>,
)
    requires
        requested_models(discovered, before, flag) is Ok,
    ensures
        before.contains(name) ==> models_to_load(discovered, before + seq![name] + after, flag)
            == Err::<Seq<(Seq<char>, (Seq<char>, ModelType))>, Seq<char>>(
            "model '"@ + name + "' specified more than once in "@ + flag,
        ),
        !before.contains(name) && (forall|k: int|
            0 <= k < discovered.len() ==> (#[trigger] discovered[k]).name@ != name)
            ==> models_to_load(discovered, before + seq![name] + after, flag) == Err::<
            Seq<(Seq<char>, (Seq<char>, ModelType))>,
            Seq<char>,
        >(
            "model '"@ + name + "' not found; available: "@ + text::joined(
                discovered.map_values(|m: DiscoveredModel| m.name@),
                ", "@,
            ),
        ),
        !before.contains(name) && (exists|k: int|
            0 <= k < discovered.len() && (#[trigger] discovered[k]).name@ == name)
            ==> requested_models(discovered, before + seq![name], flag) is Ok,
{
    let some = before + seq![name];
    let all = some + after;
    let entries = models_view(discovered);
    assert(some.drop_last() == before);
    assert(some.last() == name);
    assert(all.take(some.len() as int) == some);
    table::lemma_index(entries, name);
    let p = table::index_in(entries, name);
    if exists|k: int| 0 <= k < discovered.len() && (#[trigger] discovered[k]).name@ == name {
        let k = choose|k: int|
            0 <= k < discovered.len() && (#[trigger] discovered[k]).name@ == name;
        assert(entries[k].0 == name);
        assert(p < entries.len());
    }
    if p < entries.len() {
        assert(entries[p].0 == discovered[p].name@);
    }
    if requested_models(discovered, some, flag) is Err {
        lemma_first_error(discovered, all, flag, some.len() as int);
    }
}

/// With a request, what is loaded are the models that it names, in its order, each
/// as it was found.
pub proof fn law_requested_loaded(
    discovered: Seq<DiscoveredModel>,
    requested: Seq<Seq<char>>,
    flag: Seq<char>,
    i: int,
)
    requires
        models_to_load(discovered, requested, flag) is Ok,
        0 <= i < requested.len(),
    ensures
        ({
            let models = models_to_load(discovered, requested, flag)->Ok_0;
            &&& models.len() == requested.len()
            &&& models[i].0 == requested[i]
            &&& exists|k: int|
                0 <= k < discovered.len() && (#[trigger] discovered[k]).name@ == requested[i]
                    && discovered[k].path@ == models[i].1.0 && discovered[k].model_type
                    == models[i].1.1
        }),
{
    law_requested_models(discovered, requested, flag);
    let models = requested_models(discovered, requested, flag)->Ok_0;
    let entries = models_view(discovered);
    assert(models[i].0 == requested[i]);
    table::lemma_index(entries, requested[i]);
    let p = table::index_in(entries, requested[i]);
    assert(entries[p] == (discovered[p].name@, (discovered[p].path@, discovered[p].model_type)));
    assert(discovered[p].name@ == requested[i]);
}

} // verus!
