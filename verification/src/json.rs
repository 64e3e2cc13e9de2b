//! JSON documents: a value type of plain values, reading of its members, and parsing.

use vstd::prelude::*;

use crate::scan::same_str;

verus! {

/// A JSON value.
pub enum Json {
    Null,
    Bool(bool),
    /// A number; its value where it is an unsigned integer of 64 bits.
    Number(Option<u64>),
    Text(String),
    List(Vec<Json>),
    /// The members of an object, with their keys.
    Object(Vec<(String, Json)>),
}

/// The mathematical reading of a JSON value.
pub enum JsonView {
    Null,
    Bool(bool),
    Number(Option<u64>),
    Text(Seq<char>),
    List(Seq<JsonView>),
    Object(Seq<(Seq<char>, JsonView)>),
}

impl View for Json {
    type V = JsonView;

    open spec fn view(&self) -> JsonView {
        self.model()
    }
}

impl Json {
    /// The mathematical reading of the value.
    pub open spec fn model(self) -> JsonView
        decreases self,
    {
        match self {
            Json::Null => JsonView::Null,
            Json::Bool(b) => JsonView::Bool(b),
            Json::Number(n) => JsonView::Number(n),
            Json::Text(s) => JsonView::Text(s@),
            Json::List(items) => JsonView::List(
                Seq::new(
                    items@.len(),
                    |i: int|
                        if 0 <= i < items@.len() {
                            items@[i].model()
                        } else {
                            JsonView::Null
                        },
                ),
            ),
            Json::Object(members) => JsonView::Object(
                Seq::new(
                    members@.len(),
                    |i: int|
                        if 0 <= i < members@.len() {
                            (members@[i].0@, members@[i].1.model())
                        } else {
                            (Seq::empty(), JsonView::Null)
                        },
                ),
            ),
        }
    }
}

/// The value of the first member with the given key, from position `from` on.
pub open spec fn lookup(members: Seq<(Seq<char>, JsonView)>, key: Seq<char>, from: int) -> JsonView
    decreases members.len() - from,
{
    if from < 0 || from >= members.len() {
        JsonView::Null
    } else if members[from].0 == key {
        members[from].1
    } else {
        lookup(members, key, from + 1)
    }
}

impl JsonView {
    /// The member with the given key; null where there is none, or where this is no object.
    pub open spec fn member(self, key: Seq<char>) -> JsonView {
        match self {
            JsonView::Object(members) => lookup(members, key, 0),
            _ => JsonView::Null,
        }
    }

    /// The text, where this is one.
    pub open spec fn text(self) -> Option<Seq<char>> {
        match self {
            JsonView::Text(s) => Some(s),
            _ => None,
        }
    }

    /// The unsigned number, where this is one of 64 bits.
    pub open spec fn unsigned(self) -> Option<u64> {
        match self {
            JsonView::Number(n) => n,
            _ => None,
        }
    }

    /// Whether this is the given text.
    pub open spec fn is_text(self, s: Seq<char>) -> bool {
        self == JsonView::Text(s)
    }
}

/// The readings of a list of values.
pub open spec fn json_views(values: Seq<Json>) -> Seq<JsonView> {
    Seq::new(values.len(), |i: int| values[i]@)
}

/// The readings of the members of an object.
pub open spec fn member_views(members: Seq<(String, Json)>) -> Seq<(Seq<char>, JsonView)> {
    Seq::new(members.len(), |i: int| (members[i].0@, members[i].1@))
}

proof fn lemma_object_view(members: Vec<(String, Json)>)
    ensures
        Json::Object(members)@ == JsonView::Object(member_views(members@)),
{
    reveal_with_fuel(Json::model, 2);
    assert(Json::Object(members)@->Object_0 =~= member_views(members@));
}

/// The value that is held, or null where nothing is.
pub open spec fn held(value: Option<&Json>) -> JsonView {
    match value {
        Some(v) => v@,
        None => JsonView::Null,
    }
}

impl Json {
    /// Finds the member with the given key; nothing stands for null.
    pub fn get(&self, key: &str) -> (r: Option<&Json>)
        ensures
            held(r) == self@.member(key@),
    {
        match self {
            Json::Object(members) => {
                proof {
                    lemma_object_view(*members);
                }
                let ghost all = member_views(members@);
                let mut i: usize = 0;
                while i < members.len()
                    invariant
                        i <= members@.len(),
                        all == member_views(members@),
                        self@ == JsonView::Object(all),
                        lookup(all, key@, 0) == lookup(all, key@, i as int),
                    decreases members@.len() - i,
                {
                    if same_str(members[i].0.as_str(), key) {
                        return Some(&members[i].1);
                    }
                    i += 1;
                }
                None
            },
            _ => None,
        }
    }
}

/// Finds the member with the given key of a value that may be missing.
pub fn member_of<'a>(value: Option<&'a Json>, key: &str) -> (r: Option<&'a Json>)
    ensures
        held(r) == held(value).member(key@),
{
    match value {
        Some(v) => v.get(key),
        None => None,
    }
}

/// The text of a value that may be missing.
pub fn text_of(value: Option<&Json>) -> (r: Option<&str>)
    ensures
        match r {
            Some(s) => held(value).text() == Some(s@),
            None => held(value).text() is None,
        },
{
    match value {
        Some(Json::Text(s)) => Some(s.as_str()),
        _ => None,
    }
}

/// The unsigned number of a value that may be missing.
pub fn unsigned_of(value: Option<&Json>) -> (r: Option<u64>)
    ensures
        r == held(value).unsigned(),
{
    match value {
        Some(Json::Number(n)) => *n,
        _ => None,
    }
}

/// Tests whether a value that may be missing is the given text.
pub fn is_text(value: Option<&Json>, s: &str) -> (r: bool)
    ensures
        r == held(value).is_text(s@),
{
    match text_of(value) {
        Some(t) => same_str(t, s),
        None => false,
    }
}

/// The value type of `serde_json`.
#[verifier::external_type_specification]
#[verifier::external_body]
pub struct ExValue(serde_json::Value);

/// What a `serde_json::Value` holds.
pub uninterp spec fn value_view(value: serde_json::Value) -> JsonView;

/// What a list of `serde_json::Value` holds.
pub open spec fn value_views(values: Seq<serde_json::Value>) -> Seq<JsonView> {
    Seq::new(values.len(), |i: int| value_view(values[i]))
}

/// What keyed `serde_json::Value`s hold.
pub open spec fn keyed_views(members: Seq<(String, serde_json::Value)>) -> Seq<
    (Seq<char>, JsonView),
> {
    Seq::new(members.len(), |i: int| (members[i].0@, value_view(members[i].1)))
}

/// What `serde_json::from_slice` makes of the bytes of a JSON array: its items, or the text of
/// its error.
pub uninterp spec fn json_items(bytes: Seq<u8>) -> Result<Seq<JsonView>, Seq<char>>;

/// `serde_json::from_slice::<Vec<Value>>`: what it returns depends on the bytes alone. Nothing is
/// said of which bytes are JSON, nor of what they spell.
#[verifier::external_body]
fn read_values(bytes: &[u8]) -> (r: Result<Vec<serde_json::Value>, String>)
    ensures
        match r {
            Ok(values) => json_items(bytes@) == Ok::<Seq<JsonView>, Seq<char>>(
                value_views(values@),
            ),
            Err(e) => json_items(bytes@) == Err::<Seq<JsonView>, Seq<char>>(e@),
        },
{
    serde_json::from_slice::<Vec<serde_json::Value>>(bytes).map_err(|e| e.to_string())
}

/// One level of a `serde_json::Value`.
enum Shape {
    Null,
    Bool(bool),
    Number(Option<u64>),
    Text(String),
    List(Vec<serde_json::Value>),
    Object(Vec<(String, serde_json::Value)>),
}

/// Takes one level of a `serde_json::Value` apart, variant by variant; of a number,
/// `Number::as_u64`.
#[verifier::external_body]
fn shape_of(value: serde_json::Value) -> (r: Shape)
    ensures
        value_view(value) == match r {
            Shape::Null => JsonView::Null,
            Shape::Bool(b) => JsonView::Bool(b),
            Shape::Number(n) => JsonView::Number(n),
            Shape::Text(s) => JsonView::Text(s@),
            Shape::List(items) => JsonView::List(value_views(items@)),
            Shape::Object(members) => JsonView::Object(keyed_views(members@)),
        },
{
    match value {
        serde_json::Value::Null => Shape::Null,
        serde_json::Value::Bool(b) => Shape::Bool(b),
        serde_json::Value::Number(n) => Shape::Number(n.as_u64()),
        serde_json::Value::String(s) => Shape::Text(s),
        serde_json::Value::Array(items) => Shape::List(items),
        serde_json::Value::Object(members) => Shape::Object(members.into_iter().collect()),
    }
}

proof fn lemma_list_view(items: Vec<Json>)
    ensures
        Json::List(items)@ == JsonView::List(json_views(items@)),
{
    reveal_with_fuel(Json::model, 2);
    assert(Json::List(items)@->List_0 =~= json_views(items@));
}

/// Makes a `serde_json::Value` a value of plain values.
fn json_of(value: serde_json::Value) -> (r: Json)
    ensures
        r@ == value_view(value),
    decreases value_view(value),
{
    match shape_of(value) {
        Shape::Null => Json::Null,
        Shape::Bool(b) => Json::Bool(b),
        Shape::Number(n) => Json::Number(n),
        Shape::Text(s) => Json::Text(s),
        Shape::List(items) => {
            let mut out: Vec<Json> = Vec::new();
            let ghost all = items@;
            for v in it: items
                invariant
                    it.seq() == all,
                    out@.len() == it.index(),
                    value_view(value) == JsonView::List(value_views(all)),
                    forall|k: int|
                        0 <= k < out@.len() ==> (#[trigger] out@[k])@ == value_view(all[k]),
            {
                proof {
                    let items = value_view(value)->List_0;
                    assert(items[it.index() as int] == value_view(v));
                    assert(decreases_to!(value_view(value) => items));
                    assert(decreases_to!(items => items[it.index() as int]));
                }
                out.push(json_of(v));
            }
            proof {
                lemma_list_view(out);
                assert(json_views(out@) =~= value_views(all));
            }
            Json::List(out)
        },
        Shape::Object(members) => {
            let mut out: Vec<(String, Json)> = Vec::new();
            let ghost all = members@;
            for m in it: members
                invariant
                    it.seq() == all,
                    out@.len() == it.index(),
                    value_view(value) == JsonView::Object(keyed_views(all)),
                    forall|k: int|
                        0 <= k < out@.len() ==> (#[trigger] out@[k]).0@ == all[k].0@
                            && out@[k].1@ == value_view(all[k].1),
            {
                proof {
                    let members = value_view(value)->Object_0;
                    let member = members[it.index() as int];
                    assert(member == (m.0@, value_view(m.1)));
                    assert(decreases_to!(value_view(value) => members));
                    assert(decreases_to!(members => members[it.index() as int]));
                    assert(decreases_to!(member => member.1));
                }
                let (key, inner) = m;
                out.push((key, json_of(inner)));
            }
            proof {
                lemma_object_view(out);
                assert(member_views(out@) =~= keyed_views(all));
            }
            Json::Object(out)
        },
    }
}

/// Parses the bytes of a JSON array into its items; the error is the text of what is wrong.
pub fn parse_items(bytes: &[u8]) -> (r: Result<Vec<Json>, String>)
    ensures
        match r {
            Ok(items) => json_items(bytes@) == Ok::<Seq<JsonView>, Seq<char>>(
                json_views(items@),
            ),
            Err(e) => json_items(bytes@) == Err::<Seq<JsonView>, Seq<char>>(e@),
        },
{
    match read_values(bytes) {
        Err(e) => Err(e),
        Ok(values) => {
            let mut out: Vec<Json> = Vec::new();
            let ghost all = values@;
            for v in it: values
                invariant
                    it.seq() == all,
                    out@.len() == it.index(),
                    forall|k: int|
                        0 <= k < out@.len() ==> (#[trigger] out@[k])@ == value_view(all[k]),
            {
                out.push(json_of(v));
            }
            assert(json_views(out@) =~= value_views(all));
            Ok(out)
        },
    }
}

proof fn lemma_lookup(members: Seq<(Seq<char>, JsonView)>, key: Seq<char>, from: int, at: int)
    requires
        0 <= from <= at <= members.len(),
        forall|j: int| from <= j < at ==> (#[trigger] members[j]).0 != key,
        at < members.len() ==> members[at].0 == key,
    ensures
        lookup(members, key, from) == if at < members.len() {
            members[at].1
        } else {
            JsonView::Null
        },
    decreases at - from,
{
    if from < at {
        assert(members[from].0 != key);
        lemma_lookup(members, key, from + 1, at);
    }
}

/// Of an object the first member with a key is taken; where there is none, and of anything else,
/// the member is null.
pub proof fn law_first_member(members: Seq<(Seq<char>, JsonView)>, key: Seq<char>, at: int)
    requires
        0 <= at <= members.len(),
        forall|j: int| 0 <= j < at ==> (#[trigger] members[j]).0 != key,
        at < members.len() ==> members[at].0 == key,
    ensures
        JsonView::Object(members).member(key) == if at < members.len() {
            members[at].1
        } else {
            JsonView::Null
        },
{
    lemma_lookup(members, key, 0, at);
}

/// Only an object has members, only a text is a text, and only a number is a number.
pub proof fn law_values_are_told_apart(value: JsonView, key: Seq<char>, s: Seq<char>)
    ensures
        value !is Object ==> value.member(key) is Null,
        value.text() == Some(s) <==> value == JsonView::Text(s),
        value.text() is Some <==> value is Text,
        value.is_text(s) <==> value == JsonView::Text(s),
        value.unsigned() is Some <==> (value matches JsonView::Number(n) && n is Some),
        value.unsigned() matches Some(n) ==> value == JsonView::Number(Some(n)),
{
}

/// A value is read as it is, down to the last item and member.
pub proof fn law_values_are_read(
    value: Json,
    items: Vec<Json>,
    members: Vec<(String, Json)>,
    text: String,
    number: Option<u64>,
    i: int,
)
    ensures
        Json::Number(number)@ == JsonView::Number(number),
        held(Some(&value)) == value@,
        Json::Null@ is Null,
        Json::Bool(true)@ == JsonView::Bool(true),
        Json::Bool(false)@ == JsonView::Bool(false),
        Json::Text(text)@ == JsonView::Text(text@),
        Json::List(items)@ matches JsonView::List(list) && list.len() == items@.len(),
        0 <= i < items@.len() ==> Json::List(items)@->List_0[i] == items@[i]@,
        Json::Object(members)@ matches JsonView::Object(all) && all.len() == members@.len(),
        0 <= i < members@.len() ==> Json::Object(members)@->Object_0[i] == (
            members@[i].0@,
            members@[i].1@,
        ),
        json_views(items@).len() == items@.len(),
        0 <= i < items@.len() ==> json_views(items@)[i] == items@[i]@,
        held(None) is Null,
{
    lemma_list_view(items);
    lemma_object_view(members);
}

} // verus!
