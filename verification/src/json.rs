//! JSON values, and their text as `serde_json` reads and writes it.

use std::collections::BTreeMap;
use serde::de::{Deserialize, IgnoredAny, Unexpected};
use vstd::prelude::*;
use vstd::string::*;
use vstd::utf8::*;
use crate::bytes;
use crate::text;

verus! {

/// `serde_json`'s own value tree.
#[verifier::external_type_specification]
#[verifier::external_body]
pub struct ExJsonValue(serde_json::Value);

/// A number as `serde_json` holds it.
#[verifier::external_type_specification]
#[verifier::external_body]
pub struct ExJsonNumber(serde_json::Number);

/// `Number::clone` hands back an equal number.
pub assume_specification[ <serde_json::Number as Clone>::clone ](n: &serde_json::Number) -> (r:
    serde_json::Number)
    ensures
        r == *n,
;

/// A JSON value. Objects keep their members in order.
#[derive(Debug, PartialEq)]
pub enum Json {
    /// `null`.
    Null,
    /// `true` or `false`.
    Bool(bool),
    /// An integer from zero up.
    Unsigned(u64),
    /// An integer below zero.
    Negative(i64),
    /// Any other number.
    Decimal(serde_json::Number),
    /// A string.
    Text(String),
    /// An array.
    Array(Vec<Json>),
    /// An object.
    Object(Vec<(String, Json)>),
}

/// The mathematical content of a [`Json`] value.
pub enum JsonView {
    Null,
    Bool(bool),
    Unsigned(u64),
    Negative(i64),
    Decimal(serde_json::Number),
    Text(Seq<char>),
    Array(Seq<JsonView>),
    Object(Seq<(Seq<char>, JsonView)>),
}

/// The content of a JSON value.
pub open spec fn json_view(j: Json) -> JsonView
    decreases j,
{
    match j {
        Json::Null => JsonView::Null,
        Json::Bool(b) => JsonView::Bool(b),
        Json::Unsigned(n) => JsonView::Unsigned(n),
        Json::Negative(n) => JsonView::Negative(n),
        Json::Decimal(n) => JsonView::Decimal(n),
        Json::Text(s) => JsonView::Text(s@),
        Json::Array(items) => JsonView::Array(
            Seq::new(
                items@.len(),
                |i: int|
                    if 0 <= i < items@.len() {
                        json_view(items@[i])
                    } else {
                        JsonView::Null
                    },
            ),
        ),
        Json::Object(fields) => JsonView::Object(
            Seq::new(
                fields@.len(),
                |i: int|
                    if 0 <= i < fields@.len() {
                        (fields@[i].0@, json_view(fields@[i].1))
                    } else {
                        (Seq::empty(), JsonView::Null)
                    },
            ),
        ),
    }
}

impl View for Json {
    type V = JsonView;

    open spec fn view(&self) -> JsonView {
        json_view(*self)
    }
}

impl Clone for Json {
    fn clone(&self) -> (r: Json)
        ensures
            r@ == self@,
        decreases self,
    {
        match self {
            Json::Null => Json::Null,
            Json::Bool(b) => Json::Bool(*b),
            Json::Unsigned(n) => Json::Unsigned(*n),
            Json::Negative(n) => Json::Negative(*n),
            Json::Decimal(n) => Json::Decimal(n.clone()),
            Json::Text(s) => Json::Text(s.clone()),
            Json::Array(items) => {
                let mut copy: Vec<Json> = Vec::new();
                let mut i: usize = 0;
                while i < items.len()
                    invariant
                        i <= items@.len(),
                        *self == Json::Array(*items),
                        copy@.len() == i,
                        forall|k: int| 0 <= k < i ==> (#[trigger] copy@[k])@ == items@[k]@,
                    decreases items@.len() - i,
                {
                    proof {
                        assert(decreases_to!(self => self->Array_0@[i as int]));
                    }
                    let item: Json = items[i].clone();
                    copy.push(item);
                    i = i + 1;
                }
                let r = Json::Array(copy);
                proof {
                    assert(r@->Array_0 =~= self@->Array_0);
                }
                r
            },
            Json::Object(fields) => {
                let mut copy: Vec<(String, Json)> = Vec::new();
                let mut i: usize = 0;
                while i < fields.len()
                    invariant
                        i <= fields@.len(),
                        *self == Json::Object(*fields),
                        copy@.len() == i,
                        forall|k: int|
                            0 <= k < i ==> (#[trigger] copy@[k]).0@ == fields@[k].0@
                                && copy@[k].1@ == fields@[k].1@,
                    decreases fields@.len() - i,
                {
                    proof {
                        assert(decreases_to!(self => self->Object_0@[i as int].1));
                    }
                    let name = fields[i].0.clone();
                    let value: Json = fields[i].1.clone();
                    copy.push((name, value));
                    i = i + 1;
                }
                let r = Json::Object(copy);
                proof {
                    assert(r@->Object_0 =~= self@->Object_0);
                }
                r
            },
        }
    }
}

/// The contents of a list of JSON values.
pub open spec fn items_view(items: Seq<Json>) -> Seq<JsonView> {
    items.map_values(|j: Json| j@)
}

/// The contents of the members of an object.
pub open spec fn fields_view(fields: Seq<(String, Json)>) -> Seq<(Seq<char>, JsonView)> {
    fields.map_values(|f: (String, Json)| (f.0@, f.1@))
}

/// The content of an array is that of its items, in order.
pub broadcast proof fn lemma_array_view(items: Vec<Json>)
    ensures
        #[trigger] json_view(Json::Array(items)) == JsonView::Array(items_view(items@)),
{
    assert(json_view(Json::Array(items))->Array_0 =~= items_view(items@));
}

/// The content of an object is that of its members, in order.
pub broadcast proof fn lemma_object_view(fields: Vec<(String, Json)>)
    ensures
        #[trigger] json_view(Json::Object(fields)) == JsonView::Object(fields_view(fields@)),
{
    assert(json_view(Json::Object(fields))->Object_0 =~= fields_view(fields@));
}

/// The position of the first member called `name`, or the number of members.
pub open spec fn position(fields: Seq<(Seq<char>, JsonView)>, name: Seq<char>) -> int
    decreases fields.len(),
{
    if fields.len() == 0 || fields[0].0 == name {
        0
    } else {
        1 + position(fields.drop_first(), name)
    }
}

/// The value of the first member called `name`.
pub open spec fn member(fields: Seq<(Seq<char>, JsonView)>, name: Seq<char>) -> Option<JsonView> {
    if position(fields, name) < fields.len() {
        Some(fields[position(fields, name)].1)
    } else {
        None
    }
}

/// `fields` with the member called `name` set to `value`: in place where there
/// is one, else at the end.
pub open spec fn with_member(
    fields: Seq<(Seq<char>, JsonView)>,
    name: Seq<char>,
    value: JsonView,
) -> Seq<(Seq<char>, JsonView)> {
    if position(fields, name) < fields.len() {
        fields.update(position(fields, name), (name, value))
    } else {
        fields.push((name, value))
    }
}

/// `base` with every member of `over` set on top of it, in order.
pub open spec fn merged(
    base: Seq<(Seq<char>, JsonView)>,
    over: Seq<(Seq<char>, JsonView)>,
) -> Seq<(Seq<char>, JsonView)>
    decreases over.len(),
{
    if over.len() == 0 {
        base
    } else {
        with_member(merged(base, over.drop_last()), over.last().0, over.last().1)
    }
}

/// No two members have the same name.
pub open spec fn distinct_names(fields: Seq<(Seq<char>, JsonView)>) -> bool {
    forall|i: int, j: int| 0 <= i < j < fields.len() ==> fields[i].0 != fields[j].0
}

/// The position that [`position`] gives is the first at which the name stands.
pub proof fn lemma_position(fields: Seq<(Seq<char>, JsonView)>, name: Seq<char>)
    ensures
        0 <= position(fields, name) <= fields.len(),
        forall|k: int| 0 <= k < position(fields, name) ==> fields[k].0 != name,
        position(fields, name) < fields.len() ==> fields[position(fields, name)].0 == name,
    decreases fields.len(),
{
    if fields.len() > 0 && fields[0].0 != name {
        let rest = fields.drop_first();
        lemma_position(rest, name);
        assert forall|k: int| 0 <= k < position(fields, name) implies fields[k].0 != name by {
            if k > 0 {
                assert(fields[k] == rest[k - 1]);
            }
        }
        if position(fields, name) < fields.len() {
            assert(fields[position(fields, name)] == rest[position(rest, name)]);
        }
    }
}

/// A position at which the name first stands is the one [`position`] gives.
pub proof fn lemma_position_is(fields: Seq<(Seq<char>, JsonView)>, name: Seq<char>, n: int)
    requires
        0 <= n <= fields.len(),
        forall|k: int| 0 <= k < n ==> fields[k].0 != name,
        n < fields.len() ==> fields[n].0 == name,
    ensures
        position(fields, name) == n,
{
    lemma_position(fields, name);
    let p = position(fields, name);
    if p < n {
        assert(fields[p].0 != name);
    }
}

/// Setting a member makes it readable under its name and leaves every other
/// member as it was.
pub proof fn law_with_member(
    fields: Seq<(Seq<char>, JsonView)>,
    name: Seq<char>,
    value: JsonView,
    other: Seq<char>,
)
    ensures
        member(with_member(fields, name, value), name) == Some(value),
        other != name ==> member(with_member(fields, name, value), other) == member(fields, other),
        distinct_names(fields) ==> distinct_names(with_member(fields, name, value)),
{
    let p = position(fields, name);
    let after = with_member(fields, name, value);
    lemma_position(fields, name);
    lemma_position(fields, other);
    lemma_position_is(after, name, p);
    if other != name {
        let q = position(fields, other);
        if q < fields.len() {
            lemma_position_is(after, other, q);
        } else {
            lemma_position_is(after, other, after.len() as int);
        }
    }
}

/// Merging keeps what only `base` has and takes everything else from `over`.
pub proof fn law_merged(
    base: Seq<(Seq<char>, JsonView)>,
    over: Seq<(Seq<char>, JsonView)>,
    name: Seq<char>,
)
    requires
        distinct_names(over),
    ensures
        member(merged(base, over), name) == (match member(over, name) {
            Some(value) => Some(value),
            None => member(base, name),
        }),
        distinct_names(base) ==> distinct_names(merged(base, over)),
    decreases over.len(),
{
    if over.len() > 0 {
        let rest = over.drop_last();
        law_merged(base, rest, name);
        law_with_member(merged(base, rest), over.last().0, over.last().1, name);
        lemma_position(over, name);
        lemma_position(rest, name);
        if over.last().0 == name {
            lemma_position_is(over, name, over.len() - 1);
        } else {
            let q = position(rest, name);
            if q < rest.len() {
                lemma_position_is(over, name, q);
            } else {
                assert forall|k: int| 0 <= k < over.len() implies over[k].0 != name by {
                    if k < rest.len() {
                        assert(rest[k] == over[k]);
                    }
                }
                lemma_position_is(over, name, over.len() as int);
            }
        }
    }
}

/// Setting every member of a list with distinct names on nothing gives the list.
pub proof fn lemma_merged_empty(over: Seq<(Seq<char>, JsonView)>)
    requires
        distinct_names(over),
    ensures
        merged(Seq::empty(), over) == over,
    decreases over.len(),
{
    if over.len() > 0 {
        let rest = over.drop_last();
        lemma_merged_empty(rest);
        lemma_position_is(rest, over.last().0, rest.len() as int);
        assert(rest.push(over.last()) == over);
    }
}

/// The member of `fields` called `name`.
pub fn find<'a>(fields: &'a Vec<(String, Json)>, name: &str) -> (r: Option<&'a Json>)
    ensures
        match r {
            Some(value) => member(fields_view(fields@), name@) == Some(value@),
            None => member(fields_view(fields@), name@) is None,
        },
{
    let mut i: usize = 0;
    while i < fields.len()
        invariant
            i <= fields@.len(),
            forall|k: int| 0 <= k < i ==> fields_view(fields@)[k].0 != name@,
        decreases fields@.len() - i,
    {
        if text::same(fields[i].0.as_str(), name) {
            proof {
                lemma_position_is(fields_view(fields@), name@, i as int);
            }
            return Some(&fields[i].1);
        }
        i = i + 1;
    }
    proof {
        lemma_position_is(fields_view(fields@), name@, fields@.len() as int);
    }
    None
}

/// Sets the member called `name` to `value`.
pub fn insert(fields: &mut Vec<(String, Json)>, name: String, value: Json)
    ensures
        fields_view(final(fields)@) == with_member(fields_view(old(fields)@), name@, value@),
{
    let mut i: usize = 0;
    while i < fields.len()
        invariant
            i <= fields@.len(),
            fields@ == old(fields)@,
            forall|k: int| 0 <= k < i ==> fields_view(fields@)[k].0 != name@,
        decreases fields@.len() - i,
    {
        if text::same(fields[i].0.as_str(), name.as_str()) {
            proof {
                lemma_position_is(fields_view(fields@), name@, i as int);
            }
            fields.set(i, (name, value));
            proof {
                assert(fields_view(fields@) == with_member(
                    fields_view(old(fields)@),
                    name@,
                    value@,
                ));
            }
            return ;
        }
        i = i + 1;
    }
    proof {
        lemma_position_is(fields_view(fields@), name@, fields@.len() as int);
    }
    fields.push((name, value));
    proof {
        assert(fields_view(fields@) == with_member(fields_view(old(fields)@), name@, value@));
    }
}

/// Sets every member of `over` on `base`.
pub fn merge(base: &mut Vec<(String, Json)>, over: Vec<(String, Json)>)
    ensures
        fields_view(final(base)@) == merged(fields_view(old(base)@), fields_view(over@)),
{
    let ghost goal = fields_view(over@);
    let mut i: usize = 0;
    proof {
        assert(goal.take(0) == Seq::<(Seq<char>, JsonView)>::empty());
    }
    while i < over.len()
        invariant
            i <= over@.len(),
            goal == fields_view(over@),
            fields_view(base@) == merged(fields_view(old(base)@), goal.take(i as int)),
        decreases over@.len() - i,
    {
        let name = over[i].0.clone();
        let value = over[i].1.clone();
        insert(base, name, value);
        proof {
            let t = goal.take(i + 1);
            assert(t.drop_last() == goal.take(i as int));
            assert(t.last() == goal[i as int]);
        }
        i = i + 1;
    }
    proof {
        assert(goal.take(goal.len() as int) == goal);
    }
}

/// A single member.
pub open spec fn one(name: Seq<char>, value: JsonView) -> Seq<(Seq<char>, JsonView)> {
    seq![(name, value)]
}

/// A member that is left out where there is no value.
pub open spec fn maybe(name: Seq<char>, value: Option<JsonView>) -> Seq<(Seq<char>, JsonView)> {
    match value {
        Some(v) => one(name, v),
        None => Seq::empty(),
    }
}

/// Looking a name up in two lists of members one after the other.
pub broadcast proof fn lemma_member_concat(
    a: Seq<(Seq<char>, JsonView)>,
    b: Seq<(Seq<char>, JsonView)>,
    name: Seq<char>,
)
    ensures
        #[trigger] member(a + b, name) == (match member(a, name) {
            Some(value) => Some(value),
            None => member(b, name),
        }),
{
    lemma_position(a, name);
    lemma_position(b, name);
    if position(a, name) < a.len() {
        lemma_position_is(a + b, name, position(a, name));
    } else {
        assert forall|k: int| 0 <= k < a.len() + position(b, name) implies (a + b)[k].0 != name by {
            if k >= a.len() {
                assert((a + b)[k] == b[k - a.len()]);
            }
        }
        lemma_position_is(a + b, name, a.len() + position(b, name));
    }
}

/// Looking a name up in a single member.
pub broadcast proof fn lemma_member_one(name: Seq<char>, value: JsonView, query: Seq<char>)
    ensures
        #[trigger] member(one(name, value), query) == (if query == name {
            Some(value)
        } else {
            None
        }),
{
    lemma_position(one(name, value), query);
}

/// Looking a name up in a member that may be left out.
pub broadcast proof fn lemma_member_maybe(
    name: Seq<char>,
    value: Option<JsonView>,
    query: Seq<char>,
)
    ensures
        #[trigger] member(maybe(name, value), query) == (if query == name {
            value
        } else {
            None
        }),
{
    lemma_position(maybe(name, value), query);
}

pub broadcast group group_member {
    lemma_member_concat,
    lemma_member_one,
    lemma_member_maybe,
}

/// Adding a member under a new name keeps the names distinct.
pub proof fn lemma_distinct_one(
    fields: Seq<(Seq<char>, JsonView)>,
    name: Seq<char>,
    value: JsonView,
)
    requires
        distinct_names(fields),
        member(fields, name) is None,
    ensures
        distinct_names(fields + one(name, value)),
{
    lemma_position(fields, name);
}

/// Adding a member that may be left out, under a new name, keeps the names
/// distinct.
pub proof fn lemma_distinct_maybe(
    fields: Seq<(Seq<char>, JsonView)>,
    name: Seq<char>,
    value: Option<JsonView>,
)
    requires
        distinct_names(fields),
        member(fields, name) is None,
    ensures
        distinct_names(fields + maybe(name, value)),
{
    lemma_position(fields, name);
}

/// Adds a member at the end.
pub fn put(fields: &mut Vec<(String, Json)>, name: &str, value: Json)
    ensures
        fields_view(final(fields)@) == fields_view(old(fields)@) + one(name@, value@),
{
    let key = String::from_str(name);
    fields.push((key, value));
    proof {
        assert(fields_view(fields@) == fields_view(old(fields)@) + one(name@, value@));
    }
}

/// The JSON value for an optional text.
pub open spec fn text_value(o: Option<Seq<char>>) -> Option<JsonView> {
    match o {
        Some(s) => Some(JsonView::Text(s)),
        None => None,
    }
}

/// Adds a text member at the end, if there is a text.
pub fn put_text(fields: &mut Vec<(String, Json)>, name: &str, value: &Option<String>)
    ensures
        fields_view(final(fields)@) == fields_view(old(fields)@) + maybe(
            name@,
            text_value(text::opt_text(*value)),
        ),
{
    if let Some(s) = value {
        put(fields, name, Json::Text(s.clone()));
    }
    proof {
        if value is None {
            assert(fields_view(fields@) == fields_view(old(fields)@) + maybe(name@, None));
        }
    }
}

/// `v` is a value whose text reads back as `v`: no number other than an
/// integer, no object with a repeated name, and at most `nesting` arrays and
/// objects around any part of it.
pub open spec fn exact(v: JsonView, nesting: nat) -> bool
    decreases v,
{
    match v {
        JsonView::Negative(n) => n < 0,
        JsonView::Decimal(_) => false,
        JsonView::Array(items) => nesting > 0 && forall|i: int|
            0 <= i < items.len() ==> exact(#[trigger] items[i], (nesting - 1) as nat),
        JsonView::Object(fields) => nesting > 0 && distinct_names(fields) && forall|i: int|
            0 <= i < fields.len() ==> exact((#[trigger] fields[i]).1, (nesting - 1) as nat),
        _ => true,
    }
}

/// How many arrays and objects may stand around a value for `serde_json` to
/// read it.
pub const MAX_NESTING: u64 = 127;

/// What `serde_json::from_slice` reads from `text` as a value, or the message of
/// the error that it reports.
pub uninterp spec fn json_parsed(text: Seq<u8>) -> Result<JsonView, Seq<char>>;

/// The names that `serde_json::from_slice` reads from `text` as an object whose
/// values it skips, in order and each once; or the message, the line and the
/// column of the error that it reports.
pub uninterp spec fn json_keys(text: Seq<u8>) -> Result<Seq<Seq<char>>, (Seq<char>, int, int)>;

/// What `serde_json::to_vec` writes for a value.
pub uninterp spec fn json_text(value: JsonView) -> Seq<u8>;

/// How far the members of the outermost object of a JSON text have been told
/// apart.
pub struct Cut {
    /// How many brackets are open.
    pub depth: nat,
    /// Whether a string is open.
    pub quoted: bool,
    /// Whether the last byte was a backslash that escapes the next one.
    pub escaped: bool,
    /// The text of the member at hand, so far.
    pub current: Seq<u8>,
    /// The texts of the members before it.
    pub done: Seq<Seq<u8>>,
}

/// `cut` after one more byte of the text.
pub open spec fn cut_step(cut: Cut, b: u8) -> Cut {
    let longer = cut.current.push(b);
    if cut.quoted {
        Cut {
            quoted: cut.escaped || b != 34,
            escaped: !cut.escaped && b == 92,
            current: longer,
            ..cut
        }
    } else if b == 34 {
        Cut { quoted: true, current: longer, ..cut }
    } else if b == 123 || b == 91 {
        Cut {
            depth: cut.depth + 1,
            current: if cut.depth == 0 {
                Seq::empty()
            } else {
                longer
            },
            ..cut
        }
    } else if cut.depth == 1 && (b == 44 || b == 125 || b == 93) {
        Cut {
            depth: if b == 44 {
                1
            } else {
                0
            },
            current: Seq::empty(),
            done: cut.done.push(cut.current),
            ..cut
        }
    } else if cut.depth > 0 && (b == 125 || b == 93) {
        Cut { depth: (cut.depth - 1) as nat, current: longer, ..cut }
    } else {
        Cut { current: longer, ..cut }
    }
}

/// The members of the outermost object of a JSON text, told apart: they are
/// set off from one another by the commas that stand in no string and in no
/// inner array or object.
pub open spec fn cut(text: Seq<u8>) -> Cut
    decreases text.len(),
{
    if text.len() == 0 {
        Cut {
            depth: 0,
            quoted: false,
            escaped: false,
            current: Seq::empty(),
            done: Seq::empty(),
        }
    } else {
        cut_step(cut(text.drop_last()), text.last())
    }
}

/// `text` is read as `value`.
pub open spec fn reads_as(text: Seq<u8>, value: JsonView) -> bool {
    json_parsed(text) == Ok::<JsonView, Seq<char>>(value)
}

/// The member at hand stands behind the bracket or comma before it.
pub proof fn lemma_current_length(text: Seq<u8>)
    ensures
        cut(text).depth > 0 ==> cut(text).current.len() < text.len(),
        cut(text).current.len() <= text.len(),
    decreases text.len(),
{
    if text.len() > 0 {
        lemma_current_length(text.drop_last());
    }
}

/// The text of an object with a single member.
pub open spec fn alone(member: Seq<u8>) -> Seq<u8> {
    seq![123u8] + member + seq![125u8]
}

/// The field that a member gives, for a reader that knows the fields called
/// `known`: none for a member of another name, which is skipped whatever its
/// value is. A field with a malformed value is no member at all.
pub open spec fn field_of(member: Seq<u8>, known: Seq<Seq<char>>) -> Option<
    Option<(Seq<char>, JsonView)>,
> {
    match json_keys(alone(member)) {
        Ok(names) if names.len() == 1 && known.contains(names[0]) => match json_parsed(
            alone(member),
        ) {
            Ok(JsonView::Object(fields)) if fields.len() == 1 => Some(Some(fields[0])),
            _ => None,
        },
        _ => Some(None),
    }
}

/// The fields that some members give, for a reader that knows those called
/// `known`, if they are well-formed.
pub open spec fn fields_of(members: Seq<Seq<u8>>, known: Seq<Seq<char>>) -> Option<
    Seq<(Seq<char>, JsonView)>,
>
    decreases members.len(),
{
    if members.len() == 0 {
        Some(Seq::empty())
    } else {
        match (fields_of(members.drop_last(), known), field_of(members.last(), known)) {
            (Some(fields), Some(Some(field))) => Some(fields.push(field)),
            (Some(fields), Some(None)) => Some(fields),
            _ => None,
        }
    }
}

/// What a reader that knows the fields called `known` reads from a JSON text: an
/// object of those that are given, none of them twice; or an array, in which
/// fields go by their position. Other members of an object are skipped.
pub open spec fn record_of(text: Seq<u8>, known: Seq<Seq<char>>) -> Option<JsonView> {
    match json_keys(text) {
        Ok(_) => match fields_of(cut(text).done, known) {
            Some(fields) if distinct_names(fields) => Some(JsonView::Object(fields)),
            _ => None,
        },
        Err(_) => match json_parsed(text) {
            Ok(JsonView::Array(items)) => Some(JsonView::Array(items)),
            _ => None,
        },
    }
}

/// The contents of some byte strings.
pub open spec fn byte_strings(list: Seq<Vec<u8>>) -> Seq<Seq<u8>> {
    list.map_values(|b: Vec<u8>| b@)
}

/// The contents of some names.
pub open spec fn names_view(list: Seq<&str>) -> Seq<Seq<char>> {
    list.map_values(|s: &str| s@)
}

/// `value` is an object all of whose names are among those listed.
pub open spec fn all_known(value: JsonView, known: Seq<Seq<char>>) -> bool {
    value matches JsonView::Object(fields) && forall|i: int|
        0 <= i < fields.len() ==> known.contains((#[trigger] fields[i]).0)
}

/// Tells the members of the outermost object of a JSON text apart, byte by byte.
pub struct Cutter {
    /// How many brackets are open.
    pub depth: usize,
    /// Whether a string is open.
    pub quoted: bool,
    /// Whether the last byte was a backslash that escapes the next one.
    pub escaped: bool,
    /// The text of the member at hand, so far.
    pub current: Vec<u8>,
    /// The texts of the members before it.
    pub done: Vec<Vec<u8>>,
}

impl View for Cutter {
    type V = Cut;

    open spec fn view(&self) -> Cut {
        Cut {
            depth: self.depth as nat,
            quoted: self.quoted,
            escaped: self.escaped,
            current: self.current@,
            done: byte_strings(self.done@),
        }
    }
}

impl Cutter {
    /// Begins a text.
    pub fn new() -> (r: Self)
        ensures
            r@ == cut(Seq::empty()),
            r.depth == 0,
    {
        let r = Cutter {
            depth: 0,
            quoted: false,
            escaped: false,
            current: Vec::new(),
            done: Vec::new(),
        };
        proof {
            assert(r@.done == Seq::<Seq<u8>>::empty());
        }
        r
    }

    /// Takes the next byte.
    pub fn step(&mut self, b: u8)
        requires
            old(self).depth < usize::MAX,
        ensures
            final(self)@ == cut_step(old(self)@, b),
            final(self).depth <= old(self).depth + 1,
    {
        if self.quoted {
            self.quoted = self.escaped || b != 34;
            self.escaped = !self.escaped && b == 92;
            self.current.push(b);
        } else if b == 34 {
            self.quoted = true;
            self.current.push(b);
        } else if b == 123 || b == 91 {
            if self.depth == 0 {
                self.current = Vec::new();
            } else {
                self.current.push(b);
            }
            self.depth = self.depth + 1;
        } else if self.depth == 1 && (b == 44 || b == 125 || b == 93) {
            let ghost listed = byte_strings(self.done@);
            let mut member: Vec<u8> = Vec::new();
            member.append(&mut self.current);
            let ghost content = member@;
            self.done.push(member);
            proof {
                assert(byte_strings(self.done@) == listed.push(content));
            }
            if b != 44 {
                self.depth = 0;
            }
        } else {
            if self.depth > 0 && (b == 125 || b == 93) {
                self.depth = self.depth - 1;
            }
            self.current.push(b);
        }
        proof {
            assert(self@ == cut_step(old(self)@, b));
        }
    }
}

/// Tells the members of the outermost object of a JSON text apart.
fn members_of(text: &[u8]) -> (r: Vec<Vec<u8>>)
    ensures
        byte_strings(r@) == cut(text@).done,
{
    let mut cutter = Cutter::new();
    let mut i: usize = 0;
    proof {
        assert(text@.take(0) == Seq::<u8>::empty());
    }
    while i < text.len()
        invariant
            i <= text@.len(),
            cutter.depth <= i,
            cutter@ == cut(text@.take(i as int)),
        decreases text@.len() - i,
    {
        proof {
            assert(text@.take(i + 1).drop_last() == text@.take(i as int));
        }
        cutter.step(text[i]);
        i = i + 1;
    }
    proof {
        assert(text@.take(i as int) == text@);
    }
    cutter.done
}

/// Whether a name is one of those listed.
fn is_known(known: &Vec<&str>, name: &str) -> (r: bool)
    ensures
        r == names_view(known@).contains(name@),
{
    let mut i: usize = 0;
    while i < known.len()
        invariant
            i <= known@.len(),
            forall|k: int| 0 <= k < i ==> names_view(known@)[k] != name@,
        decreases known@.len() - i,
    {
        if text::same(known[i], name) {
            proof {
                assert(names_view(known@)[i as int] == name@);
            }
            return true;
        }
        i = i + 1;
    }
    false
}

/// Reads the field that a member gives.
fn read_field(member: &Vec<u8>, known: &Vec<&str>) -> (r: Option<Option<(String, Json)>>)
    ensures
        match r {
            Some(Some(field)) => field_of(member@, names_view(known@)) == Some(
                Some((field.0@, field.1@)),
            ),
            Some(None) => field_of(member@, names_view(known@)) == Some(
                None::<(Seq<char>, JsonView)>,
            ),
            None => field_of(member@, names_view(known@)) is None,
        },
{
    let mut whole: Vec<u8> = Vec::new();
    whole.push(123);
    bytes::put_bytes(&mut whole, member.as_slice());
    whole.push(125);
    proof {
        assert(whole@ == alone(member@));
    }
    match keys(whole.as_slice()) {
        Ok(names) => {
            if names.len() != 1 || !is_known(known, names[0].as_str()) {
                return Some(None);
            }
        },
        Err(_) => {
            return Some(None);
        },
    }
    match parse(whole.as_slice()) {
        Ok(Json::Object(fields)) => {
            if fields.len() != 1 {
                return None;
            }
            proof {
                assert(fields_view(fields@)[0] == (fields@[0].0@, fields@[0].1@));
            }
            Some(Some((fields[0].0.clone(), fields[0].1.clone())))
        },
        _ => None,
    }
}

/// Whether no two members have the same name.
fn names_differ(fields: &Vec<(String, Json)>) -> (r: bool)
    ensures
        r == distinct_names(fields_view(fields@)),
{
    let ghost all = fields_view(fields@);
    let mut j: usize = 0;
    while j < fields.len()
        invariant
            j <= fields@.len(),
            all == fields_view(fields@),
            forall|i: int, k: int| 0 <= i < k < j ==> all[i].0 != all[k].0,
        decreases fields@.len() - j,
    {
        let mut i: usize = 0;
        while i < j
            invariant
                i <= j < fields@.len(),
                all == fields_view(fields@),
                forall|k: int| 0 <= k < i ==> all[k].0 != all[j as int].0,
            decreases j - i,
        {
            if text::same(fields[i].0.as_str(), fields[j].0.as_str()) {
                proof {
                    assert(all[i as int].0 == all[j as int].0);
                }
                return false;
            }
            i = i + 1;
        }
        j = j + 1;
    }
    true
}

/// Reads a JSON text as a reader does that knows the fields called `known`.
pub fn read_record(text: &[u8], known: &Vec<&str>) -> (r: Option<Json>)
    ensures
        match r {
            Some(value) => record_of(text@, names_view(known@)) == Some(value@),
            None => record_of(text@, names_view(known@)) is None,
        },
{
    if keys(text).is_err() {
        return match parse(text) {
            Ok(Json::Array(items)) => Some(Json::Array(items)),
            _ => None,
        };
    }
    let members = members_of(text);
    let ghost all = cut(text@).done;
    let ghost names = names_view(known@);
    let mut fields: Vec<(String, Json)> = Vec::new();
    let mut whole: bool = true;
    let mut i: usize = 0;
    proof {
        assert(fields_view(fields@) == Seq::<(Seq<char>, JsonView)>::empty());
    }
    while i < members.len()
        invariant
            i <= members@.len(),
            all == byte_strings(members@),
            names == names_view(known@),
            fields_of(all.take(i as int), names) == (if whole {
                Some(fields_view(fields@))
            } else {
                None
            }),
        decreases members@.len() - i,
    {
        proof {
            assert(all.take(i + 1).drop_last() == all.take(i as int));
            assert(all.take(i + 1).last() == members@[i as int]@);
        }
        let ghost before = fields_view(fields@);
        match read_field(&members[i], known) {
            Some(Some(field)) => {
                let ghost view = (field.0@, field.1@);
                fields.push(field);
                proof {
                    assert(fields_view(fields@) == before.push(view));
                }
            },
            Some(None) => {},
            None => {
                whole = false;
            },
        }
        i = i + 1;
    }
    proof {
        assert(all.take(i as int) == all);
    }
    if whole && names_differ(&fields) {
        proof {
            lemma_object_view(fields);
        }
        Some(Json::Object(fields))
    } else {
        None
    }
}

/// At most how many bytes the text of a value takes that is no array, no object
/// and no decimal number: up to six for a character, and up to twenty for an
/// integer.
pub open spec fn plain_size(v: JsonView) -> Option<int> {
    match v {
        JsonView::Null | JsonView::Bool(_) => Some(5),
        JsonView::Unsigned(_) | JsonView::Negative(_) => Some(20),
        JsonView::Text(s) => Some(6 * s.len() as int + 2),
        _ => None,
    }
}

/// Every member is a plain value.
pub open spec fn all_plain(fields: Seq<(Seq<char>, JsonView)>) -> bool {
    forall|i: int| 0 <= i < fields.len() ==> plain_size((#[trigger] fields[i]).1) is Some
}

/// At most how many bytes the text of an object of plain values takes: its
/// braces, and the name, the value and the punctuation of each member.
pub open spec fn object_size(fields: Seq<(Seq<char>, JsonView)>) -> int
    decreases fields.len(),
{
    if fields.len() == 0 {
        2
    } else {
        object_size(fields.drop_last()) + 6 * fields.last().0.len() + plain_size(fields.last().1)->0
            + 4
    }
}

/// The message of the error that `serde_json` reports for a value of a type other
/// than `expected`.
pub uninterp spec fn json_type_error(found: JsonView, expected: Seq<char>) -> Seq<char>;

/// Converts `serde_json`'s value tree, variant by variant. It makes no claim
/// of its own; [`parse`] says what comes out of reading a text.
#[verifier::external_body]
fn from_value(value: serde_json::Value) -> Json {
    match value {
        serde_json::Value::Null => Json::Null,
        serde_json::Value::Bool(b) => Json::Bool(b),
        serde_json::Value::Number(n) => match (n.as_u64(), n.as_i64()) {
            (Some(u), _) => Json::Unsigned(u),
            (None, Some(i)) => Json::Negative(i),
            (None, None) => Json::Decimal(n),
        },
        serde_json::Value::String(s) => Json::Text(s),
        serde_json::Value::Array(a) => Json::Array(a.into_iter().map(from_value).collect()),
        serde_json::Value::Object(m) => Json::Object(
            m.into_iter().map(|(k, v)| (k, from_value(v))).collect(),
        ),
    }
}

/// Converts to `serde_json`'s value tree, variant by variant. It makes no
/// claim of its own; [`serialize`] says what is written for a value.
#[verifier::external_body]
fn to_value(value: &Json) -> serde_json::Value {
    match value {
        Json::Null => serde_json::Value::Null,
        Json::Bool(b) => serde_json::Value::Bool(*b),
        Json::Unsigned(n) => serde_json::Value::Number((*n).into()),
        Json::Negative(n) => serde_json::Value::Number((*n).into()),
        Json::Decimal(n) => serde_json::Value::Number(n.clone()),
        Json::Text(s) => serde_json::Value::String(s.clone()),
        Json::Array(a) => serde_json::Value::Array(a.iter().map(to_value).collect()),
        Json::Object(m) => serde_json::Value::Object(
            m.iter().map(|(k, v)| (k.clone(), to_value(v))).collect(),
        ),
    }
}

/// `serde_json::from_slice` into a value. What it reads, or the message of its
/// error, is a function of the text alone. A repeated name in an object counts
/// once, with the last value given for it, so the names of the outermost object
/// are distinct.
#[verifier::external_body]
pub(crate) fn parse(text: &[u8]) -> (r: Result<Json, String>)
    ensures
        match r {
            Ok(value) => json_parsed(text@) == Ok::<JsonView, Seq<char>>(value@),
            Err(e) => json_parsed(text@) == Err::<JsonView, Seq<char>>(e@),
        },
        r matches Ok(value) ==> (value@ matches JsonView::Object(fields) ==> distinct_names(fields)),
{
    serde_json::from_slice(text).map(from_value).map_err(|e| e.to_string())
}

/// `serde_json::from_slice` into a map of names to `serde::de::IgnoredAny`, which
/// skips a value of any kind. What names it reads, or what its error says, is a
/// function of the text alone.
#[verifier::external_body]
pub(crate) fn keys(text: &[u8]) -> (r: Result<Vec<String>, (String, usize, usize)>)
    ensures
        match r {
            Ok(names) => json_keys(text@) == Ok::<Seq<Seq<char>>, (Seq<char>, int, int)>(
                text::texts(names@),
            ),
            Err(e) => json_keys(text@) == Err::<Seq<Seq<char>>, (Seq<char>, int, int)>(
                (e.0@, e.1 as int, e.2 as int),
            ),
        },
{
    serde_json::from_slice::<BTreeMap<String, IgnoredAny>>(text).map(
        |map| map.into_keys().collect(),
    ).map_err(|e| (e.to_string(), e.line(), e.column()))
}

/// The message of the error that `serde_json` reports for reading a string at the
/// front of `text`, if it reports one.
pub uninterp spec fn json_string_error(text: Seq<u8>) -> Option<Seq<char>>;

/// The message of the error that `serde_json` reports for reading a `usize` at the
/// front of `text`, if it reports one.
pub uninterp spec fn json_size_error(text: Seq<u8>) -> Option<Seq<char>>;

/// The message of the error that `serde_json` reports for reading `text` as a list
/// of exactly five values that it skips, if it reports one.
pub uninterp spec fn json_five_error(text: Seq<u8>) -> Option<Seq<char>>;

/// `serde_json::from_slice` into five times `serde::de::IgnoredAny`: the message
/// of its error is a function of the text alone.
#[verifier::external_body]
pub(crate) fn five_error(text: &[u8]) -> (r: Option<String>)
    ensures
        text::opt_text(r) == json_five_error(text@),
{
    serde_json::from_slice::<(IgnoredAny, IgnoredAny, IgnoredAny, IgnoredAny, IgnoredAny)>(
        text,
    ).err().map(|e| e.to_string())
}

/// `String::deserialize` from `serde_json::Deserializer::from_slice`, which reads
/// one value and nothing after it: the message of its error is a function of the
/// text alone.
#[verifier::external_body]
pub(crate) fn string_error(text: &[u8]) -> (r: Option<String>)
    ensures
        text::opt_text(r) == json_string_error(text@),
{
    String::deserialize(&mut serde_json::Deserializer::from_slice(text)).err().map(
        |e| e.to_string(),
    )
}

/// As [`string_error`], for `usize::deserialize`.
#[verifier::external_body]
pub(crate) fn size_error(text: &[u8]) -> (r: Option<String>)
    ensures
        text::opt_text(r) == json_size_error(text@),
{
    usize::deserialize(&mut serde_json::Deserializer::from_slice(text)).err().map(
        |e| e.to_string(),
    )
}

/// `serde::de::Error::invalid_type` for `serde_json`'s error: the message about a
/// value of a type other than `expected`, which is a function of these two.
#[verifier::external_body]
pub(crate) fn type_error(found: &Json, expected: &str) -> (r: String)
    ensures
        r@ == json_type_error(found@, expected@),
{
    let unexpected = match found {
        Json::Null => Unexpected::Unit,
        Json::Bool(b) => Unexpected::Bool(*b),
        Json::Unsigned(n) => Unexpected::Unsigned(*n),
        Json::Negative(n) => Unexpected::Signed(*n),
        Json::Decimal(n) => n.as_f64().map_or(Unexpected::Other("number"), Unexpected::Float),
        Json::Text(s) => Unexpected::Str(s),
        Json::Array(_) => Unexpected::Seq,
        Json::Object(_) => Unexpected::Map,
    };
    <serde_json::Error as serde::de::Error>::invalid_type(unexpected, &expected).to_string()
}

/// `serde_json::to_vec` of a value. It always succeeds, and what it writes is a
/// function of the value: compact UTF-8 text without a newline, never empty, and
/// ending in `}` for an object. No byte is spent on an object of plain values
/// beyond [`object_size`]. Reading the text gives the value back, provided the
/// value is [`exact`] within [`MAX_NESTING`]; and so does reading it field by
/// field, for a reader that knows all the names of an object.
#[verifier::external_body]
pub(crate) fn serialize(value: &Json) -> (r: Result<Vec<u8>, String>)
    ensures
        r is Ok,
        r->Ok_0@ == json_text(value@),
        valid_utf8(r->Ok_0@),
        !r->Ok_0@.contains(10u8),
        r->Ok_0@.len() > 0,
        value@ is Object ==> r->Ok_0@.last() == 125u8,
        value@ matches JsonView::Object(fields) ==> all_plain(fields) ==> r->Ok_0@.len()
            <= object_size(fields),
        exact(value@, MAX_NESTING as nat) ==> reads_as(r->Ok_0@, value@),
        exact(value@, MAX_NESTING as nat) ==> forall|known: Seq<Seq<char>>|
            all_known(value@, known) ==> #[trigger] record_of(r->Ok_0@, known) == Some(value@),
{
    serde_json::to_vec(&to_value(value)).map_err(|e| e.to_string())
}

/// How far the members have been told apart after `text`, from `start` on.
pub open spec fn cut_on(start: Cut, text: Seq<u8>) -> Cut
    decreases text.len(),
{
    if text.len() == 0 {
        start
    } else {
        cut_step(cut_on(start, text.drop_last()), text.last())
    }
}

/// A text may be told apart in two parts, one after the other.
pub proof fn law_cut_parts(start: Cut, a: Seq<u8>, b: Seq<u8>)
    ensures
        cut_on(start, a + b) == cut_on(cut_on(start, a), b),
        cut(a + b) == cut_on(cut(a), b),
    decreases b.len(),
{
    if b.len() == 0 {
        assert(a + b == a);
    } else {
        law_cut_parts(start, a, b.drop_last());
        assert((a + b).drop_last() == a + b.drop_last());
    }
}

/// Whether `piece` is a byte of a string that ends nothing, or a backslash with
/// the byte that it escapes.
pub open spec fn string_piece(piece: Seq<u8>) -> bool {
    (piece.len() == 1 && piece[0] != 34 && piece[0] != 92) || (piece.len() == 2 && piece[0] == 92)
}

/// What stands in a string tells nothing apart, be it a comma, a bracket or a
/// quotation mark that is escaped: a string is taken over as it is.
pub proof fn law_string_taken_over(start: Cut, pieces: Seq<Seq<u8>>)
    requires
        !start.quoted,
        !start.escaped,
        forall|i: int| 0 <= i < pieces.len() ==> string_piece(#[trigger] pieces[i]),
    ensures
        cut_on(start, seq![34u8] + pieces.flatten() + seq![34u8]) == (Cut {
            current: start.current + (seq![34u8] + pieces.flatten() + seq![34u8]),
            ..start
        }),
{
    let open = seq![34u8] + pieces.flatten();
    lemma_string_open(start, pieces);
    let all = open + seq![34u8];
    assert(all.drop_last() == open);
    assert((start.current + open).push(34u8) == start.current + all);
}

/// The state within a string.
proof fn lemma_string_open(start: Cut, pieces: Seq<Seq<u8>>)
    requires
        !start.quoted,
        !start.escaped,
        forall|i: int| 0 <= i < pieces.len() ==> string_piece(#[trigger] pieces[i]),
    ensures
        cut_on(start, seq![34u8] + pieces.flatten()) == (Cut {
            quoted: true,
            current: start.current + (seq![34u8] + pieces.flatten()),
            ..start
        }),
    decreases pieces.len(),
{
    let text = seq![34u8] + pieces.flatten();
    if pieces.len() == 0 {
        assert(pieces.flatten() == Seq::<u8>::empty());
        assert(text == seq![34u8]);
        assert(text.drop_last() == Seq::<u8>::empty());
        assert(cut_on(start, Seq::empty()) == start);
        assert(start.current.push(34u8) == start.current + text);
    } else {
        let before = pieces.drop_last();
        let last = pieces.last();
        assert forall|i: int| 0 <= i < before.len() implies string_piece(#[trigger] before[i]) by {
            assert(before[i] == pieces[i]);
        }
        assert(string_piece(pieces[pieces.len() - 1]));
        lemma_string_open(start, before);
        before.lemma_flatten_push(last);
        assert(before.push(last) == pieces);
        let shorter = seq![34u8] + before.flatten();
        assert(text == shorter + last);
        if last.len() == 1 {
            assert(text.drop_last() == shorter);
            assert((start.current + shorter).push(last[0]) == start.current + text);
        } else {
            let half = shorter.push(last[0]);
            assert(text.drop_last() == half);
            assert(half.drop_last() == shorter);
            assert((start.current + shorter).push(last[0]) == start.current + half);
            assert(cut_on(start, half) == (Cut {
                quoted: true,
                escaped: true,
                current: start.current + half,
                ..start
            }));
            assert(text.last() == last[1]);
            assert((start.current + half).push(last[1]) == start.current + text);
        }
    }
}

/// A list or an object within a member belongs to it whole: inside it nothing is
/// told apart, and after it the member goes on.
pub proof fn law_inner_brackets(start: Cut, inner: Seq<u8>)
    requires
        start.depth >= 1,
        !start.quoted,
        !start.escaped,
        forall|i: int|
            0 <= i < inner.len() ==> (#[trigger] inner[i]) != 34 && inner[i] != 91 && inner[i] != 93
                && inner[i] != 123 && inner[i] != 125,
    ensures
        cut_on(start, seq![91u8] + inner + seq![93u8]) == (Cut {
            current: start.current + (seq![91u8] + inner + seq![93u8]),
            ..start
        }),
        cut_on(start, seq![123u8] + inner + seq![125u8]) == (Cut {
            current: start.current + (seq![123u8] + inner + seq![125u8]),
            ..start
        }),
{
    lemma_inner_open(start, 91, inner);
    lemma_inner_open(start, 123, inner);
    let list = seq![91u8] + inner + seq![93u8];
    let object = seq![123u8] + inner + seq![125u8];
    assert(list.drop_last() == seq![91u8] + inner);
    assert(object.drop_last() == seq![123u8] + inner);
    assert((start.current + (seq![91u8] + inner)).push(93u8) == start.current + list);
    assert((start.current + (seq![123u8] + inner)).push(125u8) == start.current + object);
}

/// The state within inner brackets.
proof fn lemma_inner_open(start: Cut, open: u8, inner: Seq<u8>)
    requires
        start.depth >= 1,
        !start.quoted,
        !start.escaped,
        open == 91 || open == 123,
        forall|i: int|
            0 <= i < inner.len() ==> (#[trigger] inner[i]) != 34 && inner[i] != 91 && inner[i] != 93
                && inner[i] != 123 && inner[i] != 125,
    ensures
        cut_on(start, seq![open] + inner) == (Cut {
            depth: start.depth + 1,
            current: start.current + (seq![open] + inner),
            ..start
        }),
    decreases inner.len(),
{
    let text = seq![open] + inner;
    if inner.len() == 0 {
        assert(text == seq![open]);
        assert(text.drop_last() == Seq::<u8>::empty());
        assert(cut_on(start, Seq::empty()) == start);
        assert(start.current.push(open) == start.current + text);
    } else {
        let before = inner.drop_last();
        let last = inner[inner.len() - 1];
        assert forall|i: int| 0 <= i < before.len() implies (#[trigger] before[i]) != 34
            && before[i] != 91 && before[i] != 93 && before[i] != 123 && before[i] != 125 by {
            assert(before[i] == inner[i]);
        }
        lemma_inner_open(start, open, before);
        assert(text.drop_last() == seq![open] + before);
        assert(text.last() == last);
        assert((start.current + (seq![open] + before)).push(last) == start.current + text);
    }
}

/// A comma in the outermost brackets ends a member and begins the next; the
/// closing bracket ends the last one.
pub proof fn law_members_apart(start: Cut, member: Seq<u8>)
    requires
        start.depth == 1,
        !start.quoted,
        !start.escaped,
        start.current.len() == 0,
        cut_on(start, member) == (Cut { current: member, ..start }),
    ensures
        cut_on(start, member + seq![44u8]) == (Cut {
            current: Seq::empty(),
            done: start.done.push(member),
            ..start
        }),
        cut_on(start, member + seq![125u8]) == (Cut {
            depth: 0,
            current: Seq::empty(),
            done: start.done.push(member),
            ..start
        }),
        cut(seq![123u8]) == (Cut {
            depth: 1,
            quoted: false,
            escaped: false,
            current: Seq::empty(),
            done: Seq::empty(),
        }),
{
    assert((member + seq![44u8]).drop_last() == member);
    assert((member + seq![125u8]).drop_last() == member);
    let empty = Seq::<u8>::empty();
    assert(seq![123u8].drop_last() == empty);
    assert(cut(empty).depth == 0);
}

/// What a reader makes of an object: of the members that it knows none may be
/// given twice, and a member that it does not know makes no difference.
pub proof fn law_unknown_skipped(
    members: Seq<Seq<u8>>,
    known: Seq<Seq<char>>,
    name: Seq<char>,
    member: Seq<u8>,
)
    requires
        json_keys(alone(member)) == Ok::<Seq<Seq<char>>, (Seq<char>, int, int)>(seq![name]),
    ensures
        !known.contains(name) ==> fields_of(members.push(member), known) == fields_of(
            members,
            known,
        ),
        known.contains(name) ==> (match json_parsed(alone(member)) {
            Ok(JsonView::Object(fields)) => fields.len() == 1 ==> fields_of(
                members.push(member),
                known,
            ) == (match fields_of(members, known) {
                Some(before) => Some(before.push(fields[0])),
                None => None,
            }),
            _ => fields_of(members.push(member), known) is None,
        }),
{
    assert(members.push(member).drop_last() == members);
}

/// What a reader reads from an object are the fields of its members, as long as
/// none is given twice.
pub proof fn law_record_read(text: Seq<u8>, known: Seq<Seq<char>>)
    requires
        json_keys(text) is Ok,
    ensures
        match record_of(text, known) {
            Some(JsonView::Object(fields)) => fields_of(cut(text).done, known) == Some(fields)
                && forall|i: int, j: int|
                0 <= i < j < fields.len() ==> (#[trigger] fields[i]).0 != (#[trigger] fields[j]).0,
            Some(_) => false,
            None => fields_of(cut(text).done, known) matches Some(fields) ==> exists|i: int, j: int|
                0 <= i < j < fields.len() && (#[trigger] fields[i]).0 == (#[trigger] fields[j]).0,
        },
{
}

/// The value of a member is that of the first member of its name, and there is
/// none where no member has the name.
pub proof fn law_member(fields: Seq<(Seq<char>, JsonView)>, name: Seq<char>, k: int)
    requires
        0 <= k <= fields.len(),
        forall|j: int| 0 <= j < k ==> (#[trigger] fields[j]).0 != name,
    ensures
        k < fields.len() && fields[k].0 == name ==> member(fields, name) == Some(fields[k].1),
        k == fields.len() ==> member(fields, name) is None,
{
    if k == fields.len() || fields[k].0 == name {
        lemma_position_is(fields, name, k);
    }
}

} // verus!
