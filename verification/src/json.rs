//! JSON values as plain trees, and the bridge from `serde_json`.

use vstd::prelude::*;

verus! {

/// A JSON value held as plain data.
///
/// A number that fits `i64` is an `Int`; any other number is a `Real` and
/// keeps its decimal text.
#[derive(Debug, PartialEq, Eq)]
pub enum Json {
    Null,
    Bool(bool),
    Int(i64),
    Real(String),
    Str(String),
    Arr(Vec<Json>),
    Obj(Vec<(String, Json)>),
}

/// The mathematical value of a [`Json`].
pub enum JsonValue {
    Null,
    Bool(bool),
    Int(i64),
    Real(Seq<char>),
    Str(Seq<char>),
    Arr(Seq<JsonValue>),
    Obj(Seq<Member>),
}

/// One entry of a JSON object: a key and the value under it.
pub struct Member {
    pub key: Seq<char>,
    pub value: JsonValue,
}

impl View for Json {
    type V = JsonValue;

    open spec fn view(&self) -> JsonValue {
        self.value()
    }
}

impl Json {
    /// The tree that this value stands for.
    pub open spec fn value(&self) -> JsonValue
        decreases self,
    {
        match self {
            Json::Null => JsonValue::Null,
            Json::Bool(b) => JsonValue::Bool(*b),
            Json::Int(i) => JsonValue::Int(*i),
            Json::Real(t) => JsonValue::Real(t@),
            Json::Str(s) => JsonValue::Str(s@),
            Json::Arr(items) => JsonValue::Arr(
                Seq::new(
                    items.len() as nat,
                    |i: int|
                        if 0 <= i < items.len() {
                            items[i].value()
                        } else {
                            JsonValue::Null
                        },
                ),
            ),
            Json::Obj(entries) => JsonValue::Obj(
                Seq::new(
                    entries.len() as nat,
                    |i: int|
                        if 0 <= i < entries.len() {
                            Member { key: entries[i].0@, value: entries[i].1.value() }
                        } else {
                            Member { key: Seq::empty(), value: JsonValue::Null }
                        },
                ),
            ),
        }
    }
}

/// The view of an array, item by item.
pub proof fn lemma_view_arr(items: Vec<Json>)
    ensures
        Json::Arr(items)@ is Arr,
        Json::Arr(items)@->Arr_0.len() == items.len(),
        forall|k: int| 0 <= k < items.len() ==> (#[trigger] Json::Arr(items)@->Arr_0[k]) == items[k]@,
{
    reveal_with_fuel(Json::value, 2);
}

/// The view of an object, entry by entry.
pub proof fn lemma_view_obj(entries: Vec<(String, Json)>)
    ensures
        Json::Obj(entries)@ is Obj,
        Json::Obj(entries)@->Obj_0.len() == entries.len(),
        forall|k: int| 0 <= k < entries.len() ==> (#[trigger] Json::Obj(entries)@->Obj_0[k]) == (Member {
            key: entries[k].0@,
            value: entries[k].1@,
        }),
{
    reveal_with_fuel(Json::value, 2);
}

/// The value of the first entry of `entries` at or after `from` whose key is
/// `key`.
pub open spec fn lookup_from(entries: Seq<Member>, key: Seq<char>, from: int) -> Option<JsonValue>
    decreases entries.len() - from,
{
    if from < 0 || from >= entries.len() {
        None
    } else if entries[from].key == key {
        Some(entries[from].value)
    } else {
        lookup_from(entries, key, from + 1)
    }
}

impl JsonValue {
    /// The member `key` of an object: the first entry with that key. `None`
    /// for a missing key and for a value that is no object.
    pub open spec fn member(self, key: Seq<char>) -> Option<JsonValue> {
        match self {
            JsonValue::Obj(entries) => lookup_from(entries, key, 0),
            _ => None,
        }
    }
}

/// Where `serde_json` stopped reading a text that is not JSON.
#[derive(Debug, Clone, Copy, PartialEq, Eq, Structural)]
pub struct SyntaxError {
    pub line: usize,
    pub column: usize,
}

/// `serde_json::Value`, of which nothing is seen here but what [`peel`]
/// hands out.
#[verifier::external_type_specification]
#[verifier::external_body]
pub struct ExValue(serde_json::Value);

/// The JSON tree that a `serde_json::Value` holds, object entries in the
/// order in which the value's map hands them out.
pub uninterp spec fn value_model(v: serde_json::Value) -> JsonValue;

/// What `serde_json::from_str` makes of a text: the tree it reads, or the
/// line and column at which it gives up.
pub uninterp spec fn text_model(text: Seq<char>) -> Result<JsonValue, SyntaxError>;

/// One level of a `serde_json::Value`, its children still unread.
enum Layer<'a> {
    Null,
    Bool(bool),
    /// A number: the integer that it is, if it is one that fits `i64`, and
    /// its decimal text.
    Number(Option<i64>, String),
    Str(&'a String),
    Arr(&'a Vec<serde_json::Value>),
    Obj(Vec<(&'a String, &'a serde_json::Value)>),
}

impl<'a> Layer<'a> {
    /// The tree that this level stands for, its children taken by
    /// [`value_model`].
    spec fn model(self) -> JsonValue {
        match self {
            Layer::Null => JsonValue::Null,
            Layer::Bool(b) => JsonValue::Bool(b),
            Layer::Number(Some(i), _) => JsonValue::Int(i),
            Layer::Number(None, t) => JsonValue::Real(t@),
            Layer::Str(s) => JsonValue::Str(s@),
            Layer::Arr(items) => JsonValue::Arr(
                Seq::new(items.len() as nat, |i: int| value_model(items[i])),
            ),
            Layer::Obj(entries) => JsonValue::Obj(
                Seq::new(
                    entries.len() as nat,
                    |i: int| Member { key: entries[i].0@, value: value_model(*entries[i].1) },
                ),
            ),
        }
    }
}

/// Calls `serde_json::from_str` for a `serde_json::Value`. The contract only
/// names the outcome: the tree of the value read, or the line and column that
/// the error reports.
#[verifier::external_body]
fn read_value(text: &str) -> (r: Result<serde_json::Value, SyntaxError>)
    ensures
        match r {
            Ok(v) => text_model(text@) == Ok::<JsonValue, SyntaxError>(value_model(v)),
            Err(e) => text_model(text@) == Err::<JsonValue, SyntaxError>(e),
        },
{
    match serde_json::from_str::<serde_json::Value>(text) {
        Ok(v) => Ok(v),
        Err(e) => Err(SyntaxError { line: e.line(), column: e.column() }),
    }
}

/// Takes one level off a `serde_json::Value`, variant by variant. A number
/// comes with what `Number::as_i64` gives and the text that the number's
/// `Display` writes; an object's entries come in the order of `Map::iter`.
/// The contract says that the level, with [`value_model`] of its children,
/// is [`value_model`] of the whole: a number is an `Int` where `as_i64`
/// gives one, else a `Real` with that text.
#[verifier::external_body]
fn peel<'a>(v: &'a serde_json::Value) -> (l: Layer<'a>)
    ensures
        l.model() == value_model(*v),
{
    match v {
        serde_json::Value::Null => Layer::Null,
        serde_json::Value::Bool(b) => Layer::Bool(*b),
        serde_json::Value::Number(n) => Layer::Number(n.as_i64(), n.to_string()),
        serde_json::Value::String(s) => Layer::Str(s),
        serde_json::Value::Array(items) => Layer::Arr(items),
        serde_json::Value::Object(map) => Layer::Obj(map.iter().collect()),
    }
}

/// Copies a `serde_json::Value` into a [`Json`].
fn json_of_value(v: &serde_json::Value) -> (j: Json)
    ensures
        j@ == value_model(*v),
    decreases value_model(*v),
{
    match peel(v) {
        Layer::Null => Json::Null,
        Layer::Bool(b) => Json::Bool(b),
        Layer::Number(Some(i), _) => Json::Int(i),
        Layer::Number(None, t) => Json::Real(t),
        Layer::Str(s) => Json::Str(s.clone()),
        Layer::Arr(items) => {
            let ghost whole = value_model(*v);
            let ghost models = Seq::new(items.len() as nat, |i: int| value_model(items[i]));
            let mut out: Vec<Json> = Vec::new();
            let mut i: usize = 0;
            while i < items.len()
                invariant
                    i <= items.len(),
                    out.len() == i,
                    whole == JsonValue::Arr(models),
                    whole == value_model(*v),
                    models == Seq::new(items.len() as nat, |k: int| value_model(items[k])),
                    forall|k: int| 0 <= k < i ==> out[k]@ == models[k],
                decreases items.len() - i,
            {
                assert(models[i as int] == value_model(items[i as int]));
                assert(whole->Arr_0 == models);
                assert(decreases_to!(whole => whole->Arr_0));
                assert(decreases_to!(models => models[i as int]));
                let child = json_of_value(&items[i]);
                out.push(child);
                i += 1;
            }
            let j = Json::Arr(out);
            proof {
                lemma_view_arr(out);
                assert(j@->Arr_0 =~= models);
            }
            j
        },
        Layer::Obj(entries) => {
            let ghost whole = value_model(*v);
            let ghost models = Seq::new(
                entries.len() as nat,
                |i: int| Member { key: entries[i].0@, value: value_model(*entries[i].1) },
            );
            let mut out: Vec<(String, Json)> = Vec::new();
            let mut i: usize = 0;
            while i < entries.len()
                invariant
                    i <= entries.len(),
                    out.len() == i,
                    whole == JsonValue::Obj(models),
                    whole == value_model(*v),
                    models == Seq::new(
                        entries.len() as nat,
                        |k: int| Member { key: entries[k].0@, value: value_model(*entries[k].1) },
                    ),
                    forall|k: int| 0 <= k < i ==> out[k].0@ == models[k].key && out[k].1@ == models[k].value,
                decreases entries.len() - i,
            {
                assert(models[i as int].value == value_model(*entries[i as int].1));
                assert(whole->Obj_0 == models);
                assert(decreases_to!(whole => whole->Obj_0));
                assert(decreases_to!(models => models[i as int]));
                assert(decreases_to!(models[i as int] => models[i as int].value));
                let key = entries[i].0.clone();
                let child = json_of_value(entries[i].1);
                out.push((key, child));
                i += 1;
            }
            let j = Json::Obj(out);
            proof {
                lemma_view_obj(out);
                assert(j@->Obj_0 =~= models);
            }
            j
        },
    }
}

/// Reads a JSON text.
///
/// The result is what `serde_json` makes of the text: its tree, or the place
/// of the first syntax error.
pub fn parse_json(text: &str) -> (r: Result<Json, SyntaxError>)
    ensures
        match r {
            Ok(j) => text_model(text@) == Ok::<JsonValue, SyntaxError>(j@),
            Err(e) => text_model(text@) == Err::<JsonValue, SyntaxError>(e),
        },
{
    match read_value(text) {
        Ok(v) => Ok(json_of_value(&v)),
        Err(e) => Err(e),
    }
}

} // verus!
