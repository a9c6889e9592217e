//! Reading typed fields out of JSON objects: the failures that can arise, the
//! `type` tag vocabulary, and decoders for the scalar and list fields.

use vstd::prelude::*;
use crate::json::{Json, JsonValue, Member, SyntaxError, lemma_view_arr, lemma_view_obj, lookup_from};
use crate::text::{lowercase, lowered, same_text};

verus! {

/// Why a document could not be read.
#[derive(Debug, Clone, Copy, PartialEq, Eq, Structural)]
pub enum ParseErrorKind {
    /// The text is not JSON.
    Syntax,
    /// A `type` tag that is not in the vocabulary, or not allowed where it stands.
    UnknownType,
    /// A value of the wrong shape for its place.
    ShapeMismatch,
    /// A mandatory field is absent.
    MissingField,
}

/// One step of the way from the document's root to a value.
#[derive(Debug, Clone, PartialEq, Eq)]
pub enum PathStep {
    Key(String),
    Index(usize),
}

/// The mathematical value of a [`PathStep`].
pub enum Step {
    Key(Seq<char>),
    Index(int),
}

impl DeepView for PathStep {
    type V = Step;

    open spec fn deep_view(&self) -> Step {
        match self {
            PathStep::Key(k) => Step::Key(k@),
            PathStep::Index(i) => Step::Index(*i as int),
        }
    }
}

/// A failure to read a document: what went wrong, the path of the offending
/// value from the root outwards in, and for a syntax error its place in the text.
#[derive(Debug, Clone, PartialEq, Eq)]
pub struct ParseError {
    pub kind: ParseErrorKind,
    pub path: Vec<PathStep>,
    pub position: Option<SyntaxError>,
}

/// The mathematical value of a [`ParseError`].
pub struct Failure {
    pub kind: ParseErrorKind,
    pub path: Seq<Step>,
    pub position: Option<SyntaxError>,
}

impl DeepView for ParseError {
    type V = Failure;

    open spec fn deep_view(&self) -> Failure {
        Failure { kind: self.kind, path: self.path.deep_view(), position: self.position }
    }
}

impl Failure {
    /// The same failure seen from one level further out.
    pub open spec fn under(self, step: Step) -> Failure {
        Failure { kind: self.kind, path: seq![step] + self.path, position: self.position }
    }
}

/// A value of the wrong shape, at the place being read.
pub open spec fn mismatch() -> Failure {
    Failure { kind: ParseErrorKind::ShapeMismatch, path: Seq::empty(), position: None }
}

/// The mandatory field `key` is absent.
pub open spec fn missing(key: Seq<char>) -> Failure {
    Failure { kind: ParseErrorKind::MissingField, path: seq![Step::Key(key)], position: None }
}

/// The `type` tag is not one that may stand here.
pub open spec fn unknown_type() -> Failure {
    Failure { kind: ParseErrorKind::UnknownType, path: seq![Step::Key("type"@)], position: None }
}

/// The outcome of a decoder, seen through the models of its value and error.
pub open spec fn outcome<T: DeepView>(r: Result<T, ParseError>) -> Result<T::V, Failure> {
    match r {
        Ok(v) => Ok(v.deep_view()),
        Err(e) => Err(e.deep_view()),
    }
}

/// A value of the wrong shape, at the place being read.
pub fn fail_mismatch() -> (e: ParseError)
    ensures
        e.deep_view() == mismatch(),
{
    let e = ParseError { kind: ParseErrorKind::ShapeMismatch, path: Vec::new(), position: None };
    assert(e.path.deep_view() =~= Seq::empty());
    e
}

/// The mandatory field `key` is absent.
pub fn fail_missing(key: &str) -> (e: ParseError)
    ensures
        e.deep_view() == missing(key@),
{
    let mut path: Vec<PathStep> = Vec::new();
    path.push(PathStep::Key(String::from_str(key)));
    let e = ParseError { kind: ParseErrorKind::MissingField, path, position: None };
    assert(e.path.deep_view() =~= seq![Step::Key(key@)]);
    e
}

/// The `type` tag is not one that may stand here.
pub fn fail_unknown_type() -> (e: ParseError)
    ensures
        e.deep_view() == unknown_type(),
{
    let mut path: Vec<PathStep> = Vec::new();
    path.push(PathStep::Key(String::from_str("type")));
    let e = ParseError { kind: ParseErrorKind::UnknownType, path, position: None };
    assert(e.path.deep_view() =~= seq![Step::Key("type"@)]);
    e
}

/// Puts `step` in front of the path of `e`.
pub fn under_step(e: ParseError, step: PathStep) -> (r: ParseError)
    ensures
        r.deep_view() == e.deep_view().under(step.deep_view()),
{
    let ghost before = e.path.deep_view();
    let ghost first = step.deep_view();
    let ParseError { kind, path, position } = e;
    let mut path = path;
    path.insert(0, step);
    let r = ParseError { kind, path, position };
    assert(r.path.deep_view() =~= seq![first] + before);
    r
}

/// Puts the key `key` in front of the path of `e`.
pub fn under_key(e: ParseError, key: &str) -> (r: ParseError)
    ensures
        r.deep_view() == e.deep_view().under(Step::Key(key@)),
{
    under_step(e, PathStep::Key(String::from_str(key)))
}

/// Puts the index `i` in front of the path of `e`.
pub fn under_index(e: ParseError, i: usize) -> (r: ParseError)
    ensures
        r.deep_view() == e.deep_view().under(Step::Index(i as int)),
{
    under_step(e, PathStep::Index(i))
}

/// The member `key` of `j`, where `j` is an object that has one.
pub fn find<'a>(j: &'a Json, key: &str) -> (r: Option<&'a Json>)
    ensures
        match r {
            Some(c) => j@.member(key@) == Some(c@),
            None => j@.member(key@) is None,
        },
{
    match j {
        Json::Obj(entries) => {
            proof {
                lemma_view_obj(*entries);
            }
            let mut i: usize = 0;
            while i < entries.len()
                invariant
                    i <= entries.len(),
                    j@ is Obj,
                    j@->Obj_0.len() == entries.len(),
                    forall|k: int| 0 <= k < entries.len() ==> (#[trigger] j@->Obj_0[k]) == (Member {
                        key: entries[k].0@,
                        value: entries[k].1@,
                    }),
                    lookup_from(j@->Obj_0, key@, 0) == lookup_from(j@->Obj_0, key@, i as int),
                decreases entries.len() - i,
            {
                assert(j@->Obj_0[i as int].key == entries[i as int].0@);
                if same_text(entries[i].0.as_str(), key) {
                    return Some(&entries[i].1);
                }
                i += 1;
            }
            None
        },
        _ => None,
    }
}

/// The value under `key`, or `Null` where there is none.
pub open spec fn child(j: JsonValue, key: Seq<char>) -> JsonValue {
    match j.member(key) {
        Some(c) => c,
        None => JsonValue::Null,
    }
}

/// A field that may be left out: absent or `null` it is `None`; otherwise it
/// is what `decoded` made of it, a failure being placed under `key`.
pub open spec fn optional_field<M>(j: JsonValue, key: Seq<char>, decoded: Result<M, Failure>) -> Result<Option<M>, Failure> {
    match j.member(key) {
        None => Ok(None),
        Some(JsonValue::Null) => Ok(None),
        Some(_) => match decoded {
            Ok(m) => Ok(Some(m)),
            Err(e) => Err(e.under(Step::Key(key))),
        },
    }
}

/// A field that must be there: absent it is a missing field; otherwise it is
/// what `decoded` made of it, a failure being placed under `key`.
pub open spec fn required_field<M>(j: JsonValue, key: Seq<char>, decoded: Result<M, Failure>) -> Result<M, Failure> {
    match j.member(key) {
        None => Err(missing(key)),
        Some(_) => match decoded {
            Ok(m) => Ok(m),
            Err(e) => Err(e.under(Step::Key(key))),
        },
    }
}

/// The member `key` of `j` unless it is absent or `null`.
pub fn present<'a>(j: &'a Json, key: &str) -> (r: Option<&'a Json>)
    ensures
        match r {
            Some(c) => j@.member(key@) == Some(c@) && c@ != JsonValue::Null,
            None => j@.member(key@) is None || j@.member(key@) == Some(JsonValue::Null),
        },
{
    match find(j, key) {
        None => None,
        Some(c) => match c {
            Json::Null => None,
            _ => Some(c),
        },
    }
}

/// The kinds that a `type` tag can name.
#[derive(Debug, Clone, Copy, PartialEq, Eq, Structural)]
pub enum Kind {
    Object,
    Array,
    String,
    Integer,
    Boolean,
    Bytes,
    CidLink,
    Blob,
    Ref,
    Union,
    Token,
    Record,
    Query,
    Procedure,
    Subscription,
    Unknown,
    Params,
}

impl DeepView for Kind {
    type V = Kind;

    open spec fn deep_view(&self) -> Kind {
        *self
    }
}

/// The word that names a kind in a `type` tag.
pub open spec fn kind_word(k: Kind) -> Seq<char> {
    match k {
        Kind::Object => "object"@,
        Kind::Array => "array"@,
        Kind::String => "string"@,
        Kind::Integer => "integer"@,
        Kind::Boolean => "boolean"@,
        Kind::Bytes => "bytes"@,
        Kind::CidLink => "cid-link"@,
        Kind::Blob => "blob"@,
        Kind::Ref => "ref"@,
        Kind::Union => "union"@,
        Kind::Token => "token"@,
        Kind::Record => "record"@,
        Kind::Query => "query"@,
        Kind::Procedure => "procedure"@,
        Kind::Subscription => "subscription"@,
        Kind::Unknown => "unknown"@,
        Kind::Params => "params"@,
    }
}

/// The kind that a lower-case word names, if it is in the vocabulary.
pub open spec fn word_kind(w: Seq<char>) -> Option<Kind> {
    if w == "object"@ {
        Some(Kind::Object)
    } else if w == "array"@ {
        Some(Kind::Array)
    } else if w == "string"@ {
        Some(Kind::String)
    } else if w == "integer"@ {
        Some(Kind::Integer)
    } else if w == "boolean"@ {
        Some(Kind::Boolean)
    } else if w == "bytes"@ {
        Some(Kind::Bytes)
    } else if w == "cid-link"@ {
        Some(Kind::CidLink)
    } else if w == "blob"@ {
        Some(Kind::Blob)
    } else if w == "ref"@ {
        Some(Kind::Ref)
    } else if w == "union"@ {
        Some(Kind::Union)
    } else if w == "token"@ {
        Some(Kind::Token)
    } else if w == "record"@ {
        Some(Kind::Record)
    } else if w == "query"@ {
        Some(Kind::Query)
    } else if w == "procedure"@ {
        Some(Kind::Procedure)
    } else if w == "subscription"@ {
        Some(Kind::Subscription)
    } else if w == "unknown"@ {
        Some(Kind::Unknown)
    } else if w == "params"@ {
        Some(Kind::Params)
    } else {
        None
    }
}

/// The kind that a `type` tag names. Capitals in the tag count as their
/// lower-case letters.
pub open spec fn tag_kind(tag: Seq<char>) -> Option<Kind> {
    word_kind(lowered(tag))
}

/// The kind named by the `type` tag of `j`.
pub open spec fn tag_of(j: JsonValue) -> Result<Kind, Failure> {
    match j {
        JsonValue::Obj(_) => match j.member("type"@) {
            None => Err(missing("type"@)),
            Some(JsonValue::Str(t)) => match tag_kind(t) {
                Some(k) => Ok(k),
                None => Err(unknown_type()),
            },
            Some(_) => Err(mismatch().under(Step::Key("type"@))),
        },
        _ => Err(mismatch()),
    }
}

/// What stands in the way of reading `j` as a value tagged `kind`, if
/// anything does.
pub open spec fn tagged(j: JsonValue, kind: Kind) -> Option<Failure> {
    match tag_of(j) {
        Err(e) => Some(e),
        Ok(k) => if k == kind {
            None
        } else {
            Some(unknown_type())
        },
    }
}

/// What stands in the way of reading `j` as an untagged record: it must be
/// an object.
pub open spec fn shaped(j: JsonValue) -> Option<Failure> {
    match j {
        JsonValue::Obj(_) => None,
        _ => Some(mismatch()),
    }
}

/// The kind that a `type` tag names.
pub fn classify(tag: &str) -> (r: Option<Kind>)
    ensures
        r == tag_kind(tag@),
{
    let low = lowercase(tag);
    let w = low.as_str();
    if same_text(w, "object") {
        Some(Kind::Object)
    } else if same_text(w, "array") {
        Some(Kind::Array)
    } else if same_text(w, "string") {
        Some(Kind::String)
    } else if same_text(w, "integer") {
        Some(Kind::Integer)
    } else if same_text(w, "boolean") {
        Some(Kind::Boolean)
    } else if same_text(w, "bytes") {
        Some(Kind::Bytes)
    } else if same_text(w, "cid-link") {
        Some(Kind::CidLink)
    } else if same_text(w, "blob") {
        Some(Kind::Blob)
    } else if same_text(w, "ref") {
        Some(Kind::Ref)
    } else if same_text(w, "union") {
        Some(Kind::Union)
    } else if same_text(w, "token") {
        Some(Kind::Token)
    } else if same_text(w, "record") {
        Some(Kind::Record)
    } else if same_text(w, "query") {
        Some(Kind::Query)
    } else if same_text(w, "procedure") {
        Some(Kind::Procedure)
    } else if same_text(w, "subscription") {
        Some(Kind::Subscription)
    } else if same_text(w, "unknown") {
        Some(Kind::Unknown)
    } else if same_text(w, "params") {
        Some(Kind::Params)
    } else {
        None
    }
}

/// Reads the `type` tag of `j`.
pub fn read_tag(j: &Json) -> (r: Result<Kind, ParseError>)
    ensures
        outcome(r) == tag_of(j@),
{
    match j {
        Json::Obj(_) => match find(j, "type") {
            None => Err(fail_missing("type")),
            Some(c) => match c {
                Json::Str(t) => match classify(t.as_str()) {
                    Some(k) => Ok(k),
                    None => Err(fail_unknown_type()),
                },
                _ => Err(under_key(fail_mismatch(), "type")),
            },
        },
        _ => Err(fail_mismatch()),
    }
}

/// What stands in the way of reading `j` as a value tagged `kind`.
pub fn check_tag(j: &Json, kind: Kind) -> (r: Option<ParseError>)
    ensures
        r.deep_view() == tagged(j@, kind),
{
    match read_tag(j) {
        Err(e) => Some(e),
        Ok(k) => if k == kind {
            None
        } else {
            Some(fail_unknown_type())
        },
    }
}

/// What stands in the way of reading `j` as an untagged record.
pub fn check_shape(j: &Json) -> (r: Option<ParseError>)
    ensures
        r.deep_view() == shaped(j@),
{
    match j {
        Json::Obj(_) => None,
        _ => Some(fail_mismatch()),
    }
}

/// The text that `j` is.
pub open spec fn text_of(j: JsonValue) -> Result<Seq<char>, Failure> {
    match j {
        JsonValue::Str(s) => Ok(s),
        _ => Err(mismatch()),
    }
}

/// The boolean that `j` is.
pub open spec fn bool_of(j: JsonValue) -> Result<bool, Failure> {
    match j {
        JsonValue::Bool(b) => Ok(b),
        _ => Err(mismatch()),
    }
}

/// The integer that `j` is.
pub open spec fn int_of(j: JsonValue) -> Result<i64, Failure> {
    match j {
        JsonValue::Int(i) => Ok(i),
        _ => Err(mismatch()),
    }
}

/// The first `n` items read as texts: the first failure among them, placed
/// under its index, or all of them.
pub open spec fn texts_upto(items: Seq<JsonValue>, n: int) -> Result<Seq<Seq<char>>, Failure>
    decreases n,
{
    if n <= 0 {
        Ok(Seq::empty())
    } else {
        match texts_upto(items, n - 1) {
            Err(e) => Err(e),
            Ok(before) => match text_of(items[n - 1]) {
                Err(e) => Err(e.under(Step::Index(n - 1))),
                Ok(t) => Ok(before.push(t)),
            },
        }
    }
}

/// The texts that `j` holds: an array of texts.
pub open spec fn texts_of(j: JsonValue) -> Result<Seq<Seq<char>>, Failure> {
    match j {
        JsonValue::Arr(items) => texts_upto(items, items.len() as int),
        _ => Err(mismatch()),
    }
}

/// A failure among the first items is the failure of the whole.
pub proof fn lemma_texts_upto_stays(items: Seq<JsonValue>, k: int, n: int)
    requires
        k <= n,
        texts_upto(items, k) is Err,
    ensures
        texts_upto(items, n) == texts_upto(items, k),
    decreases n,
{
    if k < n {
        lemma_texts_upto_stays(items, k, n - 1);
    }
}

/// The first `n` items read as integers: the first failure among them,
/// placed under its index, or all of them.
pub open spec fn ints_upto(items: Seq<JsonValue>, n: int) -> Result<Seq<i64>, Failure>
    decreases n,
{
    if n <= 0 {
        Ok(Seq::empty())
    } else {
        match ints_upto(items, n - 1) {
            Err(e) => Err(e),
            Ok(before) => match int_of(items[n - 1]) {
                Err(e) => Err(e.under(Step::Index(n - 1))),
                Ok(t) => Ok(before.push(t)),
            },
        }
    }
}

/// The integers that `j` holds: an array of integers.
pub open spec fn ints_of(j: JsonValue) -> Result<Seq<i64>, Failure> {
    match j {
        JsonValue::Arr(items) => ints_upto(items, items.len() as int),
        _ => Err(mismatch()),
    }
}

/// A failure among the first items is the failure of the whole.
pub proof fn lemma_ints_upto_stays(items: Seq<JsonValue>, k: int, n: int)
    requires
        k <= n,
        ints_upto(items, k) is Err,
    ensures
        ints_upto(items, n) == ints_upto(items, k),
    decreases n,
{
    if k < n {
        lemma_ints_upto_stays(items, k, n - 1);
    }
}

/// Reads a text.
pub fn decode_text(j: &Json) -> (r: Result<String, ParseError>)
    ensures
        outcome(r) == text_of(j@),
{
    match j {
        Json::Str(s) => Ok(s.clone()),
        _ => Err(fail_mismatch()),
    }
}

/// Reads a boolean.
pub fn decode_bool(j: &Json) -> (r: Result<bool, ParseError>)
    ensures
        outcome(r) == bool_of(j@),
{
    match j {
        Json::Bool(b) => Ok(*b),
        _ => Err(fail_mismatch()),
    }
}

/// Reads an integer.
pub fn decode_int(j: &Json) -> (r: Result<i64, ParseError>)
    ensures
        outcome(r) == int_of(j@),
{
    match j {
        Json::Int(i) => Ok(*i),
        _ => Err(fail_mismatch()),
    }
}

/// Reads an array of texts.
pub fn decode_texts(j: &Json) -> (r: Result<Vec<String>, ParseError>)
    ensures
        outcome(r) == texts_of(j@),
{
    match j {
        Json::Arr(items) => {
            proof {
                lemma_view_arr(*items);
            }
            let ghost models = j@->Arr_0;
            let mut out: Vec<String> = Vec::new();
            assert(out.deep_view() =~= Seq::empty());
            let mut i: usize = 0;
            while i < items.len()
                invariant
                    i <= items.len(),
                    j@ == JsonValue::Arr(models),
                    models.len() == items.len(),
                    forall|k: int| 0 <= k < items.len() ==> (#[trigger] models[k]) == items[k]@,
                    texts_upto(models, i as int) == Ok::<Seq<Seq<char>>, Failure>(out.deep_view()),
                decreases items.len() - i,
            {
                match decode_text(&items[i]) {
                    Err(e) => {
                        proof {
                            assert(models[i as int] == items[i as int]@);
                            assert(texts_upto(models, i + 1) is Err);
                            lemma_texts_upto_stays(models, i + 1, models.len() as int);
                        }
                        return Err(under_index(e, i));
                    },
                    Ok(t) => {
                        assert(models[i as int] == items[i as int]@);
                        let ghost before = out.deep_view();
                        out.push(t);
                        assert(out.deep_view() =~= before.push(t@));
                    },
                }
                i += 1;
            }
            Ok(out)
        },
        _ => Err(fail_mismatch()),
    }
}

/// Reads an array of integers.
pub fn decode_ints(j: &Json) -> (r: Result<Vec<i64>, ParseError>)
    ensures
        outcome(r) == ints_of(j@),
{
    match j {
        Json::Arr(items) => {
            proof {
                lemma_view_arr(*items);
            }
            let ghost models = j@->Arr_0;
            let mut out: Vec<i64> = Vec::new();
            assert(out.deep_view() =~= Seq::empty());
            let mut i: usize = 0;
            while i < items.len()
                invariant
                    i <= items.len(),
                    j@ == JsonValue::Arr(models),
                    models.len() == items.len(),
                    forall|k: int| 0 <= k < items.len() ==> (#[trigger] models[k]) == items[k]@,
                    ints_upto(models, i as int) == Ok::<Seq<i64>, Failure>(out.deep_view()),
                decreases items.len() - i,
            {
                match decode_int(&items[i]) {
                    Err(e) => {
                        proof {
                            assert(models[i as int] == items[i as int]@);
                            assert(ints_upto(models, i + 1) is Err);
                            lemma_ints_upto_stays(models, i + 1, models.len() as int);
                        }
                        return Err(under_index(e, i));
                    },
                    Ok(t) => {
                        assert(models[i as int] == items[i as int]@);
                        let ghost before = out.deep_view();
                        out.push(t);
                        assert(out.deep_view() =~= before.push(t));
                    },
                }
                i += 1;
            }
            Ok(out)
        },
        _ => Err(fail_mismatch()),
    }
}

/// Reads a text that may be left out.
pub fn opt_text_field(j: &Json, key: &str) -> (r: Result<Option<String>, ParseError>)
    ensures
        outcome(r) == optional_field(j@, key@, text_of(child(j@, key@))),
{
    match present(j, key) {
        None => Ok(None),
        Some(c) => match decode_text(c) {
            Ok(v) => Ok(Some(v)),
            Err(e) => Err(under_key(e, key)),
        },
    }
}

/// Reads a text that must be there.
pub fn req_text_field(j: &Json, key: &str) -> (r: Result<String, ParseError>)
    ensures
        outcome(r) == required_field(j@, key@, text_of(child(j@, key@))),
{
    match find(j, key) {
        None => Err(fail_missing(key)),
        Some(c) => match decode_text(c) {
            Ok(v) => Ok(v),
            Err(e) => Err(under_key(e, key)),
        },
    }
}

/// Reads a boolean that may be left out.
pub fn opt_bool_field(j: &Json, key: &str) -> (r: Result<Option<bool>, ParseError>)
    ensures
        outcome(r) == optional_field(j@, key@, bool_of(child(j@, key@))),
{
    match present(j, key) {
        None => Ok(None),
        Some(c) => match decode_bool(c) {
            Ok(v) => Ok(Some(v)),
            Err(e) => Err(under_key(e, key)),
        },
    }
}

/// Reads an integer that may be left out.
pub fn opt_int_field(j: &Json, key: &str) -> (r: Result<Option<i64>, ParseError>)
    ensures
        outcome(r) == optional_field(j@, key@, int_of(child(j@, key@))),
{
    match present(j, key) {
        None => Ok(None),
        Some(c) => match decode_int(c) {
            Ok(v) => Ok(Some(v)),
            Err(e) => Err(under_key(e, key)),
        },
    }
}

/// Reads an array of texts that may be left out.
pub fn opt_texts_field(j: &Json, key: &str) -> (r: Result<Option<Vec<String>>, ParseError>)
    ensures
        outcome(r) == optional_field(j@, key@, texts_of(child(j@, key@))),
{
    match present(j, key) {
        None => Ok(None),
        Some(c) => match decode_texts(c) {
            Ok(v) => Ok(Some(v)),
            Err(e) => Err(under_key(e, key)),
        },
    }
}

/// Reads an array of texts that must be there.
pub fn req_texts_field(j: &Json, key: &str) -> (r: Result<Vec<String>, ParseError>)
    ensures
        outcome(r) == required_field(j@, key@, texts_of(child(j@, key@))),
{
    match find(j, key) {
        None => Err(fail_missing(key)),
        Some(c) => match decode_texts(c) {
            Ok(v) => Ok(v),
            Err(e) => Err(under_key(e, key)),
        },
    }
}

/// Reads an array of integers that may be left out.
pub fn opt_ints_field(j: &Json, key: &str) -> (r: Result<Option<Vec<i64>>, ParseError>)
    ensures
        outcome(r) == optional_field(j@, key@, ints_of(child(j@, key@))),
{
    match present(j, key) {
        None => Ok(None),
        Some(c) => match decode_ints(c) {
            Ok(v) => Ok(Some(v)),
            Err(e) => Err(under_key(e, key)),
        },
    }
}

} // verus!
