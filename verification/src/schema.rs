//! The fields that a record of JSON has to have, and why a value is no such
//! record.

use vstd::prelude::*;
use vstd::string::*;
use crate::event;
use crate::json;
use crate::json::{Json, JsonView};
use crate::text;

verus! {

/// What a field holds.
#[derive(Debug, Clone, Copy, PartialEq, Eq, Structural)]
pub enum Kind {
    /// An integer that fits in a `u32`.
    U32,
    /// An integer that fits in a `u16`.
    U16,
    /// An integer that fits in a `u64`, or nothing.
    OptionalU64,
    /// A text.
    Text,
    /// A text, or nothing.
    OptionalText,
    /// A voice, or nothing.
    OptionalVoice,
    /// A list, which is empty where it is left out.
    List,
}

impl Kind {
    /// A field that has to be given.
    pub open spec fn required(self) -> bool {
        self is U32 || self is U16 || self is Text
    }

    /// Tells whether a field has to be given.
    fn is_required(self) -> (r: bool)
        ensures
            r == self.required(),
    {
        match self {
            Kind::U32 | Kind::U16 | Kind::Text => true,
            _ => false,
        }
    }
}

/// The fields of a record, in order, and what the record is called.
pub struct Schema {
    /// What the record is called.
    pub title: &'static str,
    /// The names of the fields, and what they hold.
    pub fields: Vec<(&'static str, Kind)>,
}

/// The content of a [`Schema`].
pub struct SchemaView {
    pub title: Seq<char>,
    pub fields: Seq<(Seq<char>, Kind)>,
}

impl View for Schema {
    type V = SchemaView;

    open spec fn view(&self) -> SchemaView {
        SchemaView {
            title: self.title@,
            fields: self.fields@.map_values(|f: (&'static str, Kind)| (f.0@, f.1)),
        }
    }
}

/// The fields of a voice.
pub open spec fn voice_schema() -> SchemaView {
    SchemaView {
        title: "struct SynthesizeVoice"@,
        fields: seq![
            ("name"@, Kind::OptionalText),
            ("language"@, Kind::OptionalText),
            ("speaker"@, Kind::OptionalText),
        ],
    }
}

/// The decimal digits of an integer, after a minus sign if it is below zero.
pub open spec fn signed_decimal(n: int) -> Seq<char> {
    if n < 0 {
        "-"@ + text::decimal((-n) as nat)
    } else {
        text::decimal(n as nat)
    }
}

/// The message about an integer that does not fit.
pub open spec fn out_of_range(n: int, expected: Seq<char>) -> Seq<char> {
    "invalid value: integer `"@ + signed_decimal(n) + "`, expected "@ + expected
}

/// Why a value is no integer of at most `max`, if it is none.
pub open spec fn integer_refused(value: JsonView, max: int, expected: Seq<char>) -> Option<
    Seq<char>,
> {
    match value {
        JsonView::Unsigned(n) => if n <= max {
            None
        } else {
            Some(out_of_range(n as int, expected))
        },
        JsonView::Negative(n) => Some(out_of_range(n as int, expected)),
        other => Some(json::json_type_error(other, expected)),
    }
}

/// Why a value does not suit a field, if it does not. Records are told apart
/// down to `nested` levels.
pub open spec fn value_refused(kind: Kind, value: JsonView, nested: nat) -> Option<Seq<char>>
    decreases nested, 0nat, 0nat,
{
    match kind {
        Kind::U32 => integer_refused(value, u32::MAX as int, "u32"@),
        Kind::U16 => integer_refused(value, u16::MAX as int, "u16"@),
        Kind::OptionalU64 => if value is Null {
            None
        } else {
            integer_refused(value, u64::MAX as int, "u64"@)
        },
        Kind::Text => if value is Text {
            None
        } else {
            Some(json::json_type_error(value, "a string"@))
        },
        Kind::OptionalText => if value is Null || value is Text {
            None
        } else {
            Some(json::json_type_error(value, "a string"@))
        },
        Kind::OptionalVoice => if value is Null || nested == 0 {
            None
        } else {
            record_refused(value, voice_schema(), (nested - 1) as nat)
        },
        Kind::List => if value is Array {
            None
        } else {
            Some(json::json_type_error(value, "a sequence"@))
        },
    }
}

/// What the field called `name` holds, from the `k`th field on.
pub open spec fn kind_of(fields: Seq<(Seq<char>, Kind)>, name: Seq<char>, k: int) -> Option<Kind>
    decreases fields.len() - k,
{
    if k < 0 || k >= fields.len() {
        None
    } else if fields[k].0 == name {
        Some(fields[k].1)
    } else {
        kind_of(fields, name, k + 1)
    }
}

/// Why the first unsuitable member, from the `i`th on, does not suit its field.
pub open spec fn members_refused(
    members: Seq<(Seq<char>, JsonView)>,
    schema: SchemaView,
    nested: nat,
    i: int,
) -> Option<Seq<char>>
    decreases nested, 1nat, members.len() - i,
{
    if i < 0 || i >= members.len() {
        None
    } else {
        match kind_of(schema.fields, members[i].0, 0) {
            Some(kind) if value_refused(kind, members[i].1, nested) is Some => value_refused(
                kind,
                members[i].1,
                nested,
            ),
            _ => members_refused(members, schema, nested, i + 1),
        }
    }
}

/// The message about the first field that is missing, from the `k`th on.
pub open spec fn missing(
    members: Seq<(Seq<char>, JsonView)>,
    fields: Seq<(Seq<char>, Kind)>,
    k: int,
) -> Option<Seq<char>>
    decreases fields.len() - k,
{
    if k < 0 || k >= fields.len() {
        None
    } else if fields[k].1.required() && json::member(members, fields[k].0) is None {
        Some(missing_field(fields[k].0))
    } else {
        missing(members, fields, k + 1)
    }
}

/// The message about a field that is missing.
pub open spec fn missing_field(name: Seq<char>) -> Seq<char> {
    "missing field `"@ + name + "`"@
}

/// What a record of all the fields is called.
pub open spec fn full_title(schema: SchemaView) -> Seq<char> {
    if schema.fields.len() == 1 {
        schema.title + " with 1 element"@
    } else {
        schema.title + " with "@ + text::decimal(schema.fields.len()) + " elements"@
    }
}

/// The message about a list of the wrong length.
pub open spec fn wrong_length(n: nat, expected: Seq<char>) -> Seq<char> {
    "invalid length "@ + text::decimal(n) + ", expected "@ + expected
}

/// Why a list does not give the fields from the `k`th on, if it does not.
pub open spec fn items_refused(
    items: Seq<JsonView>,
    schema: SchemaView,
    nested: nat,
    k: int,
) -> Option<Seq<char>>
    decreases nested, 1nat, schema.fields.len() - k,
{
    if k < 0 || k >= schema.fields.len() {
        if items.len() > schema.fields.len() {
            Some(wrong_length(items.len(), "fewer elements in array"@))
        } else {
            None
        }
    } else if k < items.len() && value_refused(schema.fields[k].1, items[k], nested) is Some {
        value_refused(schema.fields[k].1, items[k], nested)
    } else if k >= items.len() && schema.fields[k].1.required() {
        Some(wrong_length(k as nat, full_title(schema)))
    } else {
        items_refused(items, schema, nested, k + 1)
    }
}

/// Why a value is no record of the given fields, if it is none: the first member
/// that does not suit its field, or else the first field that is missing. A list
/// gives the fields in order.
pub open spec fn record_refused(value: JsonView, schema: SchemaView, nested: nat) -> Option<
    Seq<char>,
>
    decreases nested, 2nat, 0nat,
{
    match value {
        JsonView::Object(members) => if members_refused(members, schema, nested, 0) is Some {
            members_refused(members, schema, nested, 0)
        } else {
            missing(members, schema.fields, 0)
        },
        JsonView::Array(items) => items_refused(items, schema, nested, 0),
        other => Some(json::json_type_error(other, schema.title)),
    }
}

/// Where no member from the `i`th on is refused, each suits its field.
proof fn lemma_members(
    members: Seq<(Seq<char>, JsonView)>,
    schema: SchemaView,
    nested: nat,
    i: int,
    p: int,
)
    requires
        0 <= i <= p < members.len(),
        members_refused(members, schema, nested, i) is None,
    ensures
        kind_of(schema.fields, members[p].0, 0) matches Some(kind) ==> value_refused(
            kind,
            members[p].1,
            nested,
        ) is None,
    decreases p - i,
{
    if i < p {
        lemma_members(members, schema, nested, i + 1, p);
    }
}

/// Where no field from the `i`th on is missing, each that has to be is given.
proof fn lemma_given(
    members: Seq<(Seq<char>, JsonView)>,
    fields: Seq<(Seq<char>, Kind)>,
    i: int,
    k: int,
)
    requires
        0 <= i <= k < fields.len(),
        missing(members, fields, i) is None,
    ensures
        fields[k].1.required() ==> json::member(members, fields[k].0) is Some,
    decreases k - i,
{
    if i < k {
        lemma_given(members, fields, i + 1, k);
    }
}

/// Where a list is not refused from the `i`th field on, it is not too long, and
/// its items suit their fields.
proof fn lemma_items(items: Seq<JsonView>, schema: SchemaView, nested: nat, i: int, k: int)
    requires
        0 <= i <= k < schema.fields.len(),
        items_refused(items, schema, nested, i) is None,
    ensures
        items.len() <= schema.fields.len(),
        k < items.len() ==> value_refused(schema.fields[k].1, items[k], nested) is None,
        k >= items.len() ==> !schema.fields[k].1.required(),
    decreases schema.fields.len() - i,
{
    if i < k {
        lemma_items(items, schema, nested, i + 1, k);
    } else if k + 1 < schema.fields.len() {
        lemma_items(items, schema, nested, i + 1, k + 1);
    } else {
        assert(items_refused(items, schema, nested, k + 1) is None);
    }
}

/// A value that is not refused is a record, and the `k`th field suits it.
pub proof fn lemma_suits(value: JsonView, schema: SchemaView, nested: nat, k: int)
    requires
        record_refused(value, schema, nested) is None,
        0 <= k < schema.fields.len(),
        kind_of(schema.fields, schema.fields[k].0, 0) == Some(schema.fields[k].1),
    ensures
        event::is_record(value, schema.fields.len() as int),
        match event::slot(value, k, schema.fields[k].0) {
            Some(v) => value_refused(schema.fields[k].1, v, nested) is None,
            None => !schema.fields[k].1.required(),
        },
{
    let (name, kind) = schema.fields[k];
    match value {
        JsonView::Object(members) => {
            json::lemma_position(members, name);
            let p = json::position(members, name);
            if p < members.len() {
                lemma_members(members, schema, nested, 0, p);
            }
            lemma_given(members, schema.fields, 0, k);
        },
        JsonView::Array(items) => {
            lemma_items(items, schema, nested, 0, k);
        },
        _ => {},
    }
}

/// The decimal digits of an integer below zero, after a minus sign.
fn negative_decimal(n: i64) -> (r: String)
    ensures
        r@ == signed_decimal(n as int),
{
    if n >= 0 {
        return text::to_decimal(n as u64);
    }
    let size: u64 = (-(n as i128)) as u64;
    let mut r = String::from_str("-");
    r.append(text::to_decimal(size).as_str());
    r
}

/// Gives the message about an integer that does not fit.
fn range_error(n: &str, expected: &str) -> (r: String)
    ensures
        r@ == "invalid value: integer `"@ + n@ + "`, expected "@ + expected@,
{
    let mut r = String::from_str("invalid value: integer `");
    r.append(n);
    r.append("`, expected ");
    r.append(expected);
    r
}

/// Tells why a value is no integer of at most `max`.
fn integer_error(value: &Json, max: u64, expected: &str) -> (r: Option<String>)
    ensures
        text::opt_text(r) == integer_refused(value@, max as int, expected@),
{
    match value {
        Json::Unsigned(n) => if *n <= max {
            None
        } else {
            Some(range_error(text::to_decimal(*n).as_str(), expected))
        },
        Json::Negative(n) => Some(range_error(negative_decimal(*n).as_str(), expected)),
        other => Some(json::type_error(other, expected)),
    }
}

/// The fields of a voice.
fn voice_fields() -> (r: Schema)
    ensures
        r@ == voice_schema(),
{
    let r = Schema {
        title: "struct SynthesizeVoice",
        fields: vec![
            ("name", Kind::OptionalText),
            ("language", Kind::OptionalText),
            ("speaker", Kind::OptionalText),
        ],
    };
    proof {
        assert(r@.fields == voice_schema().fields);
    }
    r
}

/// Tells why a value does not suit a field.
fn value_error(kind: Kind, value: &Json, nested: u64) -> (r: Option<String>)
    ensures
        text::opt_text(r) == value_refused(kind, value@, nested as nat),
    decreases nested, 0nat,
{
    match kind {
        Kind::U32 => integer_error(value, u32::MAX as u64, "u32"),
        Kind::U16 => integer_error(value, u16::MAX as u64, "u16"),
        Kind::OptionalU64 => match value {
            Json::Null => None,
            other => integer_error(other, u64::MAX, "u64"),
        },
        Kind::Text => match value {
            Json::Text(_) => None,
            other => Some(json::type_error(other, "a string")),
        },
        Kind::OptionalText => match value {
            Json::Null => None,
            Json::Text(_) => None,
            other => Some(json::type_error(other, "a string")),
        },
        Kind::OptionalVoice => {
            if nested == 0 {
                return None;
            }
            match value {
                Json::Null => None,
                other => record_error(other, &voice_fields(), nested - 1),
            }
        },
        Kind::List => match value {
            Json::Array(_) => None,
            other => Some(json::type_error(other, "a sequence")),
        },
    }
}

/// Finds what the field called `name` holds.
fn find_kind(schema: &Schema, name: &str) -> (r: Option<Kind>)
    ensures
        r == kind_of(schema@.fields, name@, 0),
{
    let mut k: usize = 0;
    while k < schema.fields.len()
        invariant
            k <= schema.fields@.len(),
            kind_of(schema@.fields, name@, 0) == kind_of(schema@.fields, name@, k as int),
        decreases schema.fields@.len() - k,
    {
        if text::same(schema.fields[k].0, name) {
            return Some(schema.fields[k].1);
        }
        k = k + 1;
    }
    None
}

/// Gives the message about the first field that is missing.
fn missing_error(members: &Vec<(String, Json)>, schema: &Schema) -> (r: Option<String>)
    ensures
        text::opt_text(r) == missing(json::fields_view(members@), schema@.fields, 0),
{
    let ghost all = json::fields_view(members@);
    let mut k: usize = 0;
    while k < schema.fields.len()
        invariant
            k <= schema.fields@.len(),
            all == json::fields_view(members@),
            missing(all, schema@.fields, 0) == missing(all, schema@.fields, k as int),
        decreases schema.fields@.len() - k,
    {
        let (name, kind) = schema.fields[k];
        proof {
            assert(schema@.fields[k as int] == (name@, kind));
        }
        if kind.is_required() && json::find(members, name).is_none() {
            let mut r = String::from_str("missing field `");
            r.append(name);
            r.append("`");
            return Some(r);
        }
        k = k + 1;
    }
    None
}

/// Gives the message about a list of the wrong length.
pub(crate) fn length_error(n: usize, expected: &str) -> (r: String)
    ensures
        r@ == wrong_length(n as nat, expected@),
{
    let mut r = String::from_str("invalid length ");
    r.append(text::to_decimal(n as u64).as_str());
    r.append(", expected ");
    r.append(expected);
    r
}

/// Gives what a record of all the fields is called.
fn long_title(schema: &Schema) -> (r: String)
    ensures
        r@ == full_title(schema@),
{
    let mut r = String::from_str(schema.title);
    if schema.fields.len() == 1 {
        r.append(" with 1 element");
    } else {
        r.append(" with ");
        r.append(text::to_decimal(schema.fields.len() as u64).as_str());
        r.append(" elements");
    }
    r
}

/// Tells why a value is no record of the given fields.
pub fn record_error(value: &Json, schema: &Schema, nested: u64) -> (r: Option<String>)
    ensures
        text::opt_text(r) == record_refused(value@, schema@, nested as nat),
    decreases nested, 1nat,
{
    broadcast use {json::lemma_array_view, json::lemma_object_view};

    match value {
        Json::Object(members) => {
            let ghost all = json::fields_view(members@);
            let mut i: usize = 0;
            while i < members.len()
                invariant
                    i <= members@.len(),
                    all == json::fields_view(members@),
                    value@ == JsonView::Object(all),
                    members_refused(all, schema@, nested as nat, 0) == members_refused(
                        all,
                        schema@,
                        nested as nat,
                        i as int,
                    ),
                decreases members@.len() - i,
            {
                proof {
                    assert(all[i as int] == (members@[i as int].0@, members@[i as int].1@));
                }
                if let Some(kind) = find_kind(schema, members[i].0.as_str()) {
                    let error = value_error(kind, &members[i].1, nested);
                    if error.is_some() {
                        return error;
                    }
                }
                i = i + 1;
            }
            missing_error(members, schema)
        },
        Json::Array(items) => {
            let ghost all = json::items_view(items@);
            let mut k: usize = 0;
            while k < schema.fields.len()
                invariant
                    k <= schema.fields@.len(),
                    all == json::items_view(items@),
                    value@ == JsonView::Array(all),
                    items_refused(all, schema@, nested as nat, 0) == items_refused(
                        all,
                        schema@,
                        nested as nat,
                        k as int,
                    ),
                decreases schema.fields@.len() - k,
            {
                let kind = schema.fields[k].1;
                proof {
                    assert(schema@.fields[k as int].1 == kind);
                }
                if k < items.len() {
                    proof {
                        assert(all[k as int] == items@[k as int]@);
                    }
                    let error = value_error(kind, &items[k], nested);
                    if error.is_some() {
                        return error;
                    }
                } else if kind.is_required() {
                    return Some(length_error(k, long_title(schema).as_str()));
                }
                k = k + 1;
            }
            if items.len() > schema.fields.len() {
                Some(length_error(items.len(), "fewer elements in array"))
            } else {
                None
            }
        },
        other => Some(json::type_error(other, schema.title)),
    }
}

/// The first required field that is not given is the one that is reported as
/// missing, where what is given suits its fields.
pub proof fn law_missing_field(
    members: Seq<(Seq<char>, JsonView)>,
    schema: SchemaView,
    nested: nat,
    k: int,
)
    requires
        forall|i: int|
            0 <= i < members.len() ==> (kind_of(schema.fields, (#[trigger] members[i]).0, 0) matches Some(
                kind,
            ) ==> value_refused(kind, members[i].1, nested) is None),
        0 <= k < schema.fields.len(),
        schema.fields[k].1.required(),
        json::member(members, schema.fields[k].0) is None,
        forall|j: int|
            0 <= j < k && (#[trigger] schema.fields[j]).1.required() ==> json::member(
                members,
                schema.fields[j].0,
            ) is Some,
    ensures
        record_refused(JsonView::Object(members), schema, nested) == Some(
            "missing field `"@ + schema.fields[k].0 + "`"@,
        ),
{
    lemma_no_member_refused(members, schema, nested, 0);
    lemma_first_missing(members, schema.fields, 0, k);
}

/// Members that suit their fields are not refused.
proof fn lemma_no_member_refused(
    members: Seq<(Seq<char>, JsonView)>,
    schema: SchemaView,
    nested: nat,
    i: int,
)
    requires
        0 <= i <= members.len(),
        forall|i: int|
            0 <= i < members.len() ==> (kind_of(schema.fields, (#[trigger] members[i]).0, 0) matches Some(
                kind,
            ) ==> value_refused(kind, members[i].1, nested) is None),
    ensures
        members_refused(members, schema, nested, i) is None,
    decreases members.len() - i,
{
    if i < members.len() {
        assert(kind_of(schema.fields, members[i].0, 0) matches Some(kind) ==> value_refused(
            kind,
            members[i].1,
            nested,
        ) is None);
        lemma_no_member_refused(members, schema, nested, i + 1);
    }
}

/// The first field that is missing is reported.
proof fn lemma_first_missing(
    members: Seq<(Seq<char>, JsonView)>,
    fields: Seq<(Seq<char>, Kind)>,
    i: int,
    k: int,
)
    requires
        0 <= i <= k < fields.len(),
        fields[k].1.required(),
        json::member(members, fields[k].0) is None,
        forall|j: int|
            0 <= j < k && (#[trigger] fields[j]).1.required() ==> json::member(
                members,
                fields[j].0,
            ) is Some,
    ensures
        missing(members, fields, i) == Some(missing_field(fields[k].0)),
    decreases k - i,
{
    if i < k {
        assert(fields[i].1.required() ==> json::member(members, fields[i].0) is Some);
        lemma_first_missing(members, fields, i + 1, k);
    }
}

/// The first member that does not suit its field is the one that is reported,
/// before any field that is missing.
pub proof fn law_bad_member(
    members: Seq<(Seq<char>, JsonView)>,
    schema: SchemaView,
    nested: nat,
    kind: Kind,
    reason: Seq<char>,
    i: int,
    k: int,
)
    requires
        0 <= i <= k < members.len(),
        kind_of(schema.fields, members[k].0, 0) == Some(kind),
        value_refused(kind, members[k].1, nested) == Some(reason),
        forall|j: int|
            i <= j < k ==> (kind_of(schema.fields, (#[trigger] members[j]).0, 0) matches Some(
                other,
            ) ==> value_refused(other, members[j].1, nested) is None),
    ensures
        members_refused(members, schema, nested, i) == Some(reason),
        i == 0 ==> record_refused(JsonView::Object(members), schema, nested) == Some(reason),
    decreases k - i,
{
    if i < k {
        assert(kind_of(schema.fields, members[i].0, 0) matches Some(other) ==> value_refused(
            other,
            members[i].1,
            nested,
        ) is None);
        law_bad_member(members, schema, nested, kind, reason, i + 1, k);
    }
}

/// Which values suit a field: a number within the range of its type, a text, a
/// list; `null` suits a field that may be left unset.
pub proof fn law_value_suits(value: JsonView, nested: nat)
    ensures
        value_refused(Kind::U32, value, nested) is None <==> (value matches JsonView::Unsigned(n)
            && n <= 0xffff_ffff),
        value_refused(Kind::U16, value, nested) is None <==> (value matches JsonView::Unsigned(n)
            && n <= 0xffff),
        value_refused(Kind::OptionalU64, value, nested) is None <==> value is Null
            || value is Unsigned,
        value_refused(Kind::Text, value, nested) is None <==> value is Text,
        value_refused(Kind::OptionalText, value, nested) is None <==> value is Null || value is Text,
        value_refused(Kind::List, value, nested) is None <==> value is Array,
        value matches JsonView::Unsigned(n) ==> n > 0xffff_ffff ==> value_refused(
            Kind::U32,
            value,
            nested,
        ) == Some("invalid value: integer `"@ + text::decimal(n as nat) + "`, expected "@ + "u32"@),
        value matches JsonView::Unsigned(n) ==> n > 0xffff ==> value_refused(
            Kind::U16,
            value,
            nested,
        ) == Some("invalid value: integer `"@ + text::decimal(n as nat) + "`, expected "@ + "u16"@),
        !(value is Text) ==> value_refused(Kind::Text, value, nested) == Some(
            json::json_type_error(value, "a string"@),
        ),
        !(value is Array) ==> value_refused(Kind::List, value, nested) == Some(
            json::json_type_error(value, "a sequence"@),
        ),
{
}

/// A list that ends before a field that must be given is of a wrong length, and
/// so is one that goes on after the last field.
pub proof fn law_list_length(items: Seq<JsonView>, schema: SchemaView, nested: nat, k: int)
    requires
        0 <= k <= schema.fields.len(),
        forall|j: int|
            0 <= j < k ==> (if j < items.len() {
                value_refused((#[trigger] schema.fields[j]).1, items[j], nested) is None
            } else {
                !schema.fields[j].1.required()
            }),
    ensures
        k < schema.fields.len() && items.len() <= k && schema.fields[k].1.required()
            ==> record_refused(JsonView::Array(items), schema, nested) == Some(
            "invalid length "@ + text::decimal(k as nat) + ", expected "@ + schema.title + (
            if schema.fields.len() == 1 {
                " with 1 element"@
            } else {
                " with "@ + text::decimal(schema.fields.len()) + " elements"@
            }),
        ),
        k == schema.fields.len() && items.len() > k ==> record_refused(
            JsonView::Array(items),
            schema,
            nested,
        ) == Some(
            "invalid length "@ + text::decimal(items.len()) + ", expected "@
                + "fewer elements in array"@,
        ),
        k == schema.fields.len() && items.len() <= k ==> record_refused(
            JsonView::Array(items),
            schema,
            nested,
        ) is None,
{
    lemma_items_pass(items, schema, nested, 0, k);
    assert("invalid length "@ + text::decimal(k as nat) + ", expected "@ + schema.title + (
    " with "@ + text::decimal(schema.fields.len()) + " elements"@) == "invalid length "@
        + text::decimal(k as nat) + ", expected "@ + (schema.title + " with "@ + text::decimal(
        schema.fields.len(),
    ) + " elements"@));
    assert("invalid length "@ + text::decimal(k as nat) + ", expected "@ + schema.title
        + " with 1 element"@ == "invalid length "@ + text::decimal(k as nat) + ", expected "@ + (
    schema.title + " with 1 element"@));
}

/// Fields that are given as they must be, or need not be given, are passed over.
proof fn lemma_items_pass(items: Seq<JsonView>, schema: SchemaView, nested: nat, i: int, k: int)
    requires
        0 <= i <= k <= schema.fields.len(),
        forall|j: int|
            i <= j < k ==> (if j < items.len() {
                value_refused((#[trigger] schema.fields[j]).1, items[j], nested) is None
            } else {
                !schema.fields[j].1.required()
            }),
    ensures
        items_refused(items, schema, nested, i) == items_refused(items, schema, nested, k),
    decreases k - i,
{
    if i < k {
        assert(schema.fields[i].1 == schema.fields[i].1);
        lemma_items_pass(items, schema, nested, i + 1, k);
    }
}

/// A timestamp is a number from zero on, and a voice is given by its name, its
/// language and its speaker.
pub proof fn law_optional_told(value: JsonView, nested: nat)
    requires
        nested > 0,
    ensures
        value matches JsonView::Negative(n) ==> n < 0 ==> value_refused(
            Kind::OptionalU64,
            value,
            nested,
        ) == Some(
            "invalid value: integer `"@ + ("-"@ + text::decimal((-n) as nat)) + "`, expected "@
                + "u64"@,
        ),
        value is Text || value is Bool ==> value_refused(Kind::OptionalU64, value, nested)
            == Some(json::json_type_error(value, "u64"@)) && value_refused(
            Kind::OptionalVoice,
            value,
            nested,
        ) == Some(json::json_type_error(value, "struct SynthesizeVoice"@)),
        value is Null ==> value_refused(Kind::OptionalVoice, value, nested) is None,
{
}

} // verus!
