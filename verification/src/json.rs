//! JSON values: the form in which requests, replies, events and stored transcripts travel.

use vstd::prelude::*;
use vstd::string::*;

use serde_json::Value;

use crate::letters::{comes_before, precedes};
use crate::text::same;

verus! {

// ---------------------------------------------------------------- values

/// A number that is not a whole number from -2^63 to 2^64 - 1. It is held as the parser gave it
/// and nothing reads what is inside; only this module makes one.
#[derive(Debug, PartialEq)]
pub struct OtherNumber {
    inner: serde_json::Number,
}

/// A JSON number: a whole number from 0 up, one below 0, or another. A number from 0 up that is
/// held as a signed one counts as the same number.
#[derive(Debug, PartialEq)]
pub enum JsonNumber {
    Natural(u64),
    Negative(i64),
    Other(OtherNumber),
}

/// A JSON value. Where an object lists a key twice, the later entry counts. The functions here
/// keep the entries of an object in the order of their keys, each key once.
#[derive(Debug, PartialEq)]
pub enum Json {
    Null,
    Bool(bool),
    Number(JsonNumber),
    Str(String),
    Array(Vec<Json>),
    Object(Vec<(String, Json)>),
}

/// What a JSON value means: an object is a map from keys to values.
#[verifier::ext_equal]
pub enum JsonView {
    Null,
    Bool(bool),
    Number(JsonNumber),
    Str(Seq<char>),
    Array(Seq<JsonView>),
    Object(Map<Seq<char>, JsonView>),
}

impl View for Json {
    type V = JsonView;

    open spec fn view(&self) -> JsonView
        decreases self,
    {
        match self {
            Json::Null => JsonView::Null,
            Json::Bool(b) => JsonView::Bool(*b),
            Json::Number(n) => JsonView::Number(usual(*n)),
            Json::Str(s) => JsonView::Str(s@),
            Json::Array(items) => JsonView::Array(views(items@)),
            Json::Object(fields) => JsonView::Object(entries(fields@)),
        }
    }
}

/// A number in its usual form, in which only numbers below 0 are held as signed ones.
pub open spec fn usual(n: JsonNumber) -> JsonNumber {
    match n {
        JsonNumber::Negative(signed) => if signed >= 0 {
            JsonNumber::Natural(signed as u64)
        } else {
            n
        },
        _ => n,
    }
}

/// The views of a list of values.
pub open spec fn views(items: Seq<Json>) -> Seq<JsonView>
    decreases items,
{
    Seq::new(
        items.len(),
        |i: int|
            if 0 <= i < items.len() {
                items[i].view()
            } else {
                JsonView::Null
            },
    )
}

/// The map that a list of entries denotes: a later entry for a key replaces an earlier one.
pub open spec fn entries(fields: Seq<(String, Json)>) -> Map<Seq<char>, JsonView>
    decreases fields,
{
    if fields.len() == 0 {
        Map::empty()
    } else {
        let last = fields[fields.len() - 1];
        entries(fields.drop_last()).insert(last.0@, last.1.view())
    }
}

impl JsonView {
    /// The object without entries.
    pub open spec fn object() -> JsonView {
        JsonView::Object(Map::empty())
    }

    /// This object with one entry set.
    pub open spec fn with(self, key: Seq<char>, value: JsonView) -> JsonView {
        match self {
            JsonView::Object(map) => JsonView::Object(map.insert(key, value)),
            _ => self,
        }
    }

    /// This object with one entry set, where there is a value for it.
    pub open spec fn with_some(self, key: Seq<char>, value: Option<JsonView>) -> JsonView {
        match value {
            Some(value) => self.with(key, value),
            None => self,
        }
    }

    /// The entry of an object under a key, where there is one.
    pub open spec fn field(self, key: Seq<char>) -> Option<JsonView> {
        match self {
            JsonView::Object(map) => if map.contains_key(key) {
                Some(map[key])
            } else {
                None
            },
            _ => None,
        }
    }

    /// The entry of an object under a key; null where there is none.
    pub open spec fn at(self, key: Seq<char>) -> JsonView {
        match self.field(key) {
            Some(value) => value,
            None => JsonView::Null,
        }
    }

    /// The characters of a string value.
    pub open spec fn text(self) -> Option<Seq<char>> {
        match self {
            JsonView::Str(s) => Some(s),
            _ => None,
        }
    }

    /// The characters of a string value; none where it is another kind of value.
    pub open spec fn text_or_empty(self) -> Seq<char> {
        match self {
            JsonView::Str(s) => s,
            _ => Seq::empty(),
        }
    }

    /// The items of an array.
    pub open spec fn items(self) -> Option<Seq<JsonView>> {
        match self {
            JsonView::Array(items) => Some(items),
            _ => None,
        }
    }

    /// The items of an array; none where it is another kind of value.
    pub open spec fn items_or_empty(self) -> Seq<JsonView> {
        match self {
            JsonView::Array(items) => items,
            _ => Seq::empty(),
        }
    }

    /// The whole number from 0 to 2^64 - 1 that this value is.
    pub open spec fn natural(self) -> Option<u64> {
        match self {
            JsonView::Number(JsonNumber::Natural(n)) => Some(n),
            _ => None,
        }
    }

    /// A whole number, or null where there is none.
    pub open spec fn natural_or_null(n: Option<u64>) -> JsonView {
        match n {
            Some(n) => JsonView::Number(JsonNumber::Natural(n)),
            None => JsonView::Null,
        }
    }

    /// A whole number of either sign.
    pub open spec fn integer(n: i64) -> JsonView {
        if n >= 0 {
            JsonView::Number(JsonNumber::Natural(n as u64))
        } else {
            JsonView::Number(JsonNumber::Negative(n))
        }
    }

    /// Whether this is the string `s`.
    pub open spec fn is_text(self, s: Seq<char>) -> bool {
        self == JsonView::Str(s)
    }
}

// ---------------------------------------------------------------- copying

/// `serde_json::Number::clone` returns an equal number.
pub assume_specification[ <serde_json::Number as Clone>::clone ](
    n: &serde_json::Number,
) -> (r: serde_json::Number)
    ensures
        r == *n,
;

/// The number type of `serde_json`, carried without being read.
#[verifier::external_type_specification]
#[verifier::external_body]
pub struct ExNumber(serde_json::Number);

impl Clone for JsonNumber {
    fn clone(&self) -> (r: Self)
        ensures
            r == *self,
    {
        match self {
            JsonNumber::Natural(n) => JsonNumber::Natural(*n),
            JsonNumber::Negative(n) => JsonNumber::Negative(*n),
            JsonNumber::Other(other) => JsonNumber::Other(OtherNumber { inner: other.inner.clone() }),
        }
    }
}

/// Adding a value to a list adds its view.
pub proof fn views_push(items: Seq<Json>, item: Json)
    ensures
        views(items.push(item)) == views(items).push(item@),
{
    assert(views(items.push(item)) =~= views(items).push(item@));
}

/// The last entry of a list counts over those before it.
pub proof fn entries_last(fields: Seq<(String, Json)>)
    requires
        fields.len() > 0,
    ensures
        entries(fields) == entries(fields.drop_last()).insert(fields.last().0@, fields.last().1@),
{
}

proof fn lemma_entries_push(fields: Seq<(String, Json)>, key: String, value: Json)
    ensures
        entries(fields.push((key, value))) == entries(fields).insert(key@, value@),
{
    assert(fields.push((key, value)).drop_last() =~= fields);
}

impl Clone for Json {
    fn clone(&self) -> (r: Self)
        ensures
            r@ == self@,
        decreases self,
    {
        match self {
            Json::Null => Json::Null,
            Json::Bool(b) => Json::Bool(*b),
            Json::Number(n) => Json::Number(n.clone()),
            Json::Str(s) => Json::Str(s.clone()),
            Json::Array(items) => {
                let mut out: Vec<Json> = Vec::new();
                for i in 0..items.len()
                    invariant
                        views(out@) == views(items@.take(i as int)),
                        self matches Json::Array(own) && own == items,
                {
                    assert(decreases_to!(self => items@[i as int]));
                    let item = items[i].clone();
                    proof {
                        views_push(out@, item);
                        views_push(items@.take(i as int), items@[i as int]);
                        assert(items@.take(i as int).push(items@[i as int]) =~= items@.take(i + 1));
                    }
                    out.push(item);
                }
                assert(items@.take(items@.len() as int) =~= items@);
                Json::Array(out)
            },
            Json::Object(fields) => {
                let mut out: Vec<(String, Json)> = Vec::new();
                for i in 0..fields.len()
                    invariant
                        entries(out@) == entries(fields@.take(i as int)),
                        self matches Json::Object(own) && own == fields,
                {
                    assert(decreases_to!(self => fields@[i as int].1));
                    let key = fields[i].0.clone();
                    let value = fields[i].1.clone();
                    proof {
                        lemma_entries_push(out@, key, value);
                        lemma_entries_push(
                            fields@.take(i as int),
                            fields@[i as int].0,
                            fields@[i as int].1,
                        );
                        assert(fields@.take(i as int).push(
                            (fields@[i as int].0, fields@[i as int].1),
                        ) =~= fields@.take(i + 1));
                    }
                    out.push((key, value));
                }
                assert(fields@.take(fields@.len() as int) =~= fields@);
                Json::Object(out)
            },
        }
    }
}

/// Copies a list of values.
pub fn copy_all(items: &Vec<Json>) -> (r: Vec<Json>)
    ensures
        views(r@) == views(items@),
{
    let mut out: Vec<Json> = Vec::new();
    for i in 0..items.len()
        invariant
            views(out@) == views(items@.take(i as int)),
    {
        let item = items[i].clone();
        proof {
            views_push(out@, item);
            views_push(items@.take(i as int), items@[i as int]);
            assert(items@.take(i as int).push(items@[i as int]) =~= items@.take(i + 1));
        }
        out.push(item);
    }
    assert(items@.take(items@.len() as int) =~= items@);
    out
}

// ---------------------------------------------------------------- reading

/// The last entry for a key decides.
proof fn lemma_entries_at(fields: Seq<(String, Json)>, key: Seq<char>, i: int)
    requires
        0 <= i < fields.len(),
        fields[i].0@ == key,
        forall|j: int| i < j < fields.len() ==> (#[trigger] fields[j]).0@ != key,
    ensures
        entries(fields).contains_key(key),
        entries(fields)[key] == fields[i].1@,
    decreases fields.len(),
{
    let last = fields[fields.len() - 1];
    entries_last(fields);
    if i < fields.len() - 1 {
        assert(last.0@ != key);
        let rest = fields.drop_last();
        assert forall|j: int| i < j < rest.len() implies (#[trigger] rest[j]).0@ != key by {
            assert(rest[j] == fields[j]);
        }
        lemma_entries_at(rest, key, i);
    }
}

proof fn lemma_entries_absent(fields: Seq<(String, Json)>, key: Seq<char>)
    requires
        forall|j: int| 0 <= j < fields.len() ==> (#[trigger] fields[j]).0@ != key,
    ensures
        !entries(fields).contains_key(key),
    decreases fields.len(),
{
    if fields.len() > 0 {
        entries_last(fields);
        let rest = fields.drop_last();
        assert forall|j: int| 0 <= j < rest.len() implies (#[trigger] rest[j]).0@ != key by {
            assert(rest[j] == fields[j]);
        }
        assert(fields[fields.len() - 1].0@ != key);
        lemma_entries_absent(rest, key);
    }
}

fn find_entry(fields: &Vec<(String, Json)>, key: &str) -> (r: Option<usize>)
    ensures
        match r {
            Some(i) => {
                &&& i < fields@.len()
                &&& fields@[i as int].0@ == key@
                &&& forall|j: int| i < j < fields@.len() ==> (#[trigger] fields@[j]).0@ != key@
                &&& entries(fields@).contains_key(key@)
                &&& entries(fields@)[key@] == fields@[i as int].1@
            },
            None => {
                &&& !entries(fields@).contains_key(key@)
                &&& forall|j: int| 0 <= j < fields@.len() ==> (#[trigger] fields@[j]).0@ != key@
            },
        },
{
    let mut i: usize = fields.len();
    while i > 0
        invariant
            i <= fields@.len(),
            forall|j: int| i <= j < fields@.len() ==> (#[trigger] fields@[j]).0@ != key@,
        decreases i,
    {
        i = i - 1;
        if same(fields[i].0.as_str(), key) {
            proof {
                lemma_entries_at(fields@, key@, i as int);
            }
            return Some(i);
        }
    }
    proof {
        lemma_entries_absent(fields@, key@);
    }
    None
}

/// Setting the entry that counts for a key sets the key.
proof fn lemma_entries_update(fields: Seq<(String, Json)>, i: int, key: String, value: Json)
    requires
        0 <= i < fields.len(),
        fields[i].0@ == key@,
        forall|j: int| i < j < fields.len() ==> (#[trigger] fields[j]).0@ != key@,
    ensures
        entries(fields.update(i, (key, value))) == entries(fields).insert(key@, value@),
    decreases fields.len(),
{
    let after = fields.update(i, (key, value));
    let last = fields[fields.len() - 1];
    entries_last(fields);
    entries_last(after);
    if i == fields.len() - 1 {
        assert(after.drop_last() =~= fields.drop_last());
        assert(entries(after) =~= entries(fields).insert(key@, value@));
    } else {
        let rest = fields.drop_last();
        assert(last.0@ != key@);
        assert forall|j: int| i < j < rest.len() implies (#[trigger] rest[j]).0@ != key@ by {
            assert(rest[j] == fields[j]);
        }
        lemma_entries_update(rest, i, key, value);
        assert(after.drop_last() =~= rest.update(i, (key, value)));
        assert(entries(after) =~= entries(fields).insert(key@, value@));
    }
}

/// An entry with a new key may be put anywhere.
proof fn lemma_entries_insert(fields: Seq<(String, Json)>, i: int, key: String, value: Json)
    requires
        0 <= i <= fields.len(),
        forall|j: int| 0 <= j < fields.len() ==> (#[trigger] fields[j]).0@ != key@,
    ensures
        entries(fields.insert(i, (key, value))) == entries(fields).insert(key@, value@),
    decreases fields.len(),
{
    let after = fields.insert(i, (key, value));
    if i == fields.len() {
        assert(after =~= fields.push((key, value)));
        lemma_entries_push(fields, key, value);
    } else {
        let rest = fields.drop_last();
        let last = fields[fields.len() - 1];
        assert forall|j: int| 0 <= j < rest.len() implies (#[trigger] rest[j]).0@ != key@ by {
            assert(rest[j] == fields[j]);
        }
        lemma_entries_insert(rest, i, key, value);
        entries_last(fields);
        entries_last(after);
        assert(after.drop_last() =~= rest.insert(i, (key, value)));
        assert(last.0@ != key@);
        assert(entries(after) =~= entries(fields).insert(key@, value@));
    }
}

/// The place of a new entry: directly behind the last entry whose key comes before its own, and
/// the front where there is no such entry.
fn find_place(fields: &Vec<(String, Json)>, key: &str) -> (r: usize)
    ensures
        r <= fields@.len(),
        r > 0 ==> precedes(fields@[r - 1].0@, key@),
        forall|j: int| r <= j < fields@.len() ==> !precedes((#[trigger] fields@[j]).0@, key@),
{
    let mut i: usize = fields.len();
    while i > 0 && !comes_before(fields[i - 1].0.as_str(), key)
        invariant
            i <= fields@.len(),
            forall|j: int| i <= j < fields@.len() ==> !precedes((#[trigger] fields@[j]).0@, key@),
        decreases i,
    {
        i = i - 1;
    }
    i
}

impl Json {
    /// The entry of an object under a key, where there is one.
    pub fn field(&self, key: &str) -> (r: Option<&Json>)
        ensures
            match r {
                Some(value) => self@.field(key@) == Some(value@),
                None => self@.field(key@) is None,
            },
    {
        match self {
            Json::Object(fields) => match find_entry(fields, key) {
                Some(i) => Some(&fields[i].1),
                None => None,
            },
            _ => None,
        }
    }

    /// The entry of an object under a key; null where there is none.
    pub fn at(&self, key: &str) -> (r: &Json)
        ensures
            r@ == self@.at(key@),
    {
        match self.field(key) {
            Some(value) => value,
            None => &Json::Null,
        }
    }

    /// The characters of a string value.
    pub fn as_str(&self) -> (r: Option<&str>)
        ensures
            match r {
                Some(s) => self@.text() == Some(s@),
                None => self@.text() is None,
            },
    {
        match self {
            Json::Str(s) => Some(s.as_str()),
            _ => None,
        }
    }

    /// The characters of a string value; the empty string where it is another kind of value.
    pub fn str_or_empty(&self) -> (r: &str)
        ensures
            r@ == self@.text_or_empty(),
    {
        match self {
            Json::Str(s) => s.as_str(),
            _ => {
                proof {
                    reveal_strlit("");
                    assert(""@ =~= Seq::empty());
                }
                ""
            },
        }
    }

    /// The items of an array.
    pub fn as_array(&self) -> (r: Option<&Vec<Json>>)
        ensures
            match r {
                Some(items) => self@.items() == Some(views(items@)),
                None => self@.items() is None,
            },
    {
        match self {
            Json::Array(items) => Some(items),
            _ => None,
        }
    }

    /// The whole number from 0 to 2^64 - 1 that this value is.
    pub fn as_u64(&self) -> (r: Option<u64>)
        ensures
            r == self@.natural(),
    {
        match self {
            Json::Number(JsonNumber::Natural(n)) => Some(*n),
            Json::Number(JsonNumber::Negative(n)) => if *n >= 0 {
                Some(*n as u64)
            } else {
                None
            },
            _ => None,
        }
    }

    /// Whether this is the string `s`.
    pub fn is_str(&self, s: &str) -> (r: bool)
        ensures
            r == self@.is_text(s@),
    {
        match self {
            Json::Str(own) => same(own.as_str(), s),
            _ => false,
        }
    }

    /// Whether this is null.
    pub fn is_null(&self) -> (r: bool)
        ensures
            r == (self@ is Null),
    {
        match self {
            Json::Null => true,
            _ => false,
        }
    }

    /// Whether this is an object.
    pub fn is_object(&self) -> (r: bool)
        ensures
            r == (self@ is Object),
    {
        match self {
            Json::Object(_) => true,
            _ => false,
        }
    }

    // ------------------------------------------------------------ building

    /// The object without entries.
    pub fn object() -> (r: Json)
        ensures
            r@ == JsonView::object(),
    {
        Json::Object(Vec::new())
    }

    /// A string value.
    pub fn text(s: &str) -> (r: Json)
        ensures
            r@ == JsonView::Str(s@),
    {
        Json::Str(s.to_owned())
    }

    /// A whole number.
    pub fn natural(n: u64) -> (r: Json)
        ensures
            r@ == JsonView::Number(JsonNumber::Natural(n)),
    {
        Json::Number(JsonNumber::Natural(n))
    }

    /// A whole number of either sign.
    pub fn integer(n: i64) -> (r: Json)
        ensures
            r@ == JsonView::integer(n),
    {
        if n >= 0 {
            Json::Number(JsonNumber::Natural(n as u64))
        } else {
            Json::Number(JsonNumber::Negative(n))
        }
    }

    /// A whole number, or null where there is none.
    pub fn natural_or_null(n: Option<u64>) -> (r: Json)
        ensures
            r@ == JsonView::natural_or_null(n),
    {
        match n {
            Some(n) => Json::natural(n),
            None => Json::Null,
        }
    }

    /// An array of one item.
    pub fn list1(a: Json) -> (r: Json)
        ensures
            r@ == JsonView::Array(seq![a@]),
    {
        let mut items: Vec<Json> = Vec::new();
        items.push(a);
        assert(views(items@) =~= seq![a@]);
        Json::Array(items)
    }

    /// An array of two items.
    pub fn list2(a: Json, b: Json) -> (r: Json)
        ensures
            r@ == JsonView::Array(seq![a@, b@]),
    {
        let mut items: Vec<Json> = Vec::new();
        items.push(a);
        items.push(b);
        assert(views(items@) =~= seq![a@, b@]);
        Json::Array(items)
    }

    /// Sets one entry of an object. A new entry goes behind those whose keys come before its own.
    pub fn set(&mut self, key: &str, value: Json)
        requires
            old(self)@ is Object,
        ensures
            final(self)@ == old(self)@.with(key@, value@),
    {
        if let Json::Object(fields) = self {
            let name = key.to_owned();
            match find_entry(fields, key) {
                Some(i) => {
                    proof {
                        lemma_entries_update(fields@, i as int, name, value);
                    }
                    fields.set(i, (name, value));
                },
                None => {
                    let at = find_place(fields, key);
                    proof {
                        lemma_entries_insert(fields@, at as int, name, value);
                    }
                    fields.insert(at, (name, value));
                },
            }
        }
    }

    /// This object with one entry set.
    pub fn with(self, key: &str, value: Json) -> (r: Json)
        requires
            self@ is Object,
        ensures
            r@ == self@.with(key@, value@),
            r@ is Object,
    {
        let mut this = self;
        this.set(key, value);
        this
    }
}

// ---------------------------------------------------------------- text form

/// A value of `serde_json`.
#[verifier::external_type_specification]
#[verifier::external_body]
pub struct ExValue(serde_json::Value);

/// What a value of `serde_json` holds.
pub uninterp spec fn value_content(value: serde_json::Value) -> JsonView;

/// What `serde_json::from_str` reads from a text: a value, or none where the text is not JSON.
pub uninterp spec fn parsed_json(text: Seq<char>) -> Option<JsonView>;

/// What `serde_json` writes for a value, compactly and with the keys of objects in order.
pub uninterp spec fn json_text(value: JsonView) -> Seq<char>;

/// Takes a `serde_json::Value` apart, one variant each.
#[verifier::external_body]
fn json_of_value(value: Value) -> (r: Json)
    ensures
        r@ == value_content(value),
{
    match value {
        Value::Null => Json::Null,
        Value::Bool(b) => Json::Bool(b),
        Value::Number(n) => Json::Number(match (n.as_u64(), n.as_i64()) {
            (Some(natural), _) => JsonNumber::Natural(natural),
            (None, Some(negative)) => JsonNumber::Negative(negative),
            (None, None) => JsonNumber::Other(OtherNumber { inner: n }),
        }),
        Value::String(s) => Json::Str(s),
        Value::Array(items) => Json::Array(items.into_iter().map(json_of_value).collect()),
        Value::Object(fields) => Json::Object(
            fields.into_iter().map(|(key, value)| (key, json_of_value(value))).collect(),
        ),
    }
}

/// Builds the `serde_json::Value` that holds the same; a later entry for a key replaces an
/// earlier one, as `serde_json::Map::insert` does.
#[verifier::external_body]
fn value_of_json(json: &Json) -> (r: Value)
    ensures
        value_content(r) == json@,
{
    match json {
        Json::Null => Value::Null,
        Json::Bool(b) => Value::Bool(*b),
        Json::Number(JsonNumber::Natural(n)) => Value::Number((*n).into()),
        Json::Number(JsonNumber::Negative(n)) => Value::Number((*n).into()),
        Json::Number(JsonNumber::Other(n)) => Value::Number(n.inner.clone()),
        Json::Str(s) => Value::String(s.clone()),
        Json::Array(items) => Value::Array(items.iter().map(value_of_json).collect()),
        Json::Object(fields) => Value::Object(
            fields.iter().map(|(key, value)| (key.clone(), value_of_json(value))).collect(),
        ),
    }
}

/// Calls `serde_json::from_str` for a value; what it reads is named, and so is its refusal.
#[verifier::external_body]
fn parse_value(text: &str) -> (r: Option<Value>)
    ensures
        match r {
            Some(value) => parsed_json(text@) == Some(value_content(value)),
            None => parsed_json(text@) is None,
        },
{
    serde_json::from_str::<Value>(text).ok()
}

/// Calls `to_string` of a `serde_json::Value`; the text depends on what the value holds alone.
#[verifier::external_body]
fn print_value(value: &Value) -> (r: String)
    ensures
        r@ == json_text(value_content(*value)),
{
    value.to_string()
}

impl Json {
    /// The value that a `serde_json::Value` holds.
    pub fn from_value(value: Value) -> (r: Json)
        ensures
            r@ == value_content(value),
    {
        json_of_value(value)
    }

    /// The `serde_json::Value` that holds this value.
    pub fn to_value(&self) -> (r: Value)
        ensures
            value_content(r) == self@,
    {
        value_of_json(self)
    }

    /// Reads a value from its text form.
    pub fn parse(text: &str) -> (r: Option<Json>)
        ensures
            match r {
                Some(json) => parsed_json(text@) == Some(json@),
                None => parsed_json(text@) is None,
            },
    {
        match parse_value(text) {
            Some(value) => Some(json_of_value(value)),
            None => None,
        }
    }

    /// The text form of a value.
    pub fn print(&self) -> (r: String)
        ensures
            r@ == json_text(self@),
    {
        print_value(&value_of_json(self))
    }
}

/// An entry holds what was put there last, and putting it there changes no other.
pub proof fn entries_are_kept_apart(
    object: JsonView,
    key: Seq<char>,
    value: JsonView,
    other: Seq<char>,
)
    requires
        object is Object,
    ensures
        object.with(key, value).at(key) == value,
        object.with(key, value).field(key) == Some(value),
        other != key ==> object.with(key, value).field(other) == object.field(other),
        JsonView::object().field(key) is None,
        object.with_some(key, None) == object,
        object.with_some(key, Some(value)).at(key) == value,
{
}

/// A number has one form: one that is not negative counts as natural however it is held, and a
/// negative one stays as it is.
pub proof fn numbers_have_one_form(n: i64, m: u64)
    ensures
        n >= 0 ==> usual(JsonNumber::Negative(n)) == JsonNumber::Natural(n as u64),
        n < 0 ==> usual(JsonNumber::Negative(n)) == JsonNumber::Negative(n),
        usual(JsonNumber::Natural(m)) == JsonNumber::Natural(m),
        n >= 0 ==> JsonView::integer(n).natural() == Some(n as u64),
        n < 0 ==> JsonView::integer(n).natural() is None,
{
}

} // verus!
