//! Writing a document back as a JSON value, and the proof that reading
//! what was written gives the same document.
//!
//! Every field is written, an absent one as `null`; a value that carries a
//! `type` tag is written with the lower-case word of its kind.

use vstd::prelude::*;
use crate::ast::{
    LexArray, LexArrayModel, LexBlob, LexBlobModel, LexBoolean, LexBooleanModel, LexBytes,
    LexBytesModel, LexCidLink, LexCidLinkModel, LexInteger, LexIntegerModel, LexIpldType,
    LexIpldTypeModel, LexItems, LexItemsModel, LexNumber, LexObject, LexObjectModel, LexPrimitive,
    LexPrimitiveArray, LexPrimitiveArrayModel, LexPrimitiveModel, LexProperty, LexPropertyModel,
    LexRecord, LexRecordModel, LexRef, LexRefModel, LexRefUnion, LexRefUnionModel, LexRefVariant,
    LexRefVariantModel, LexString, LexStringFormat, LexStringModel, LexToken, LexTokenModel,
    LexUnknown, LexUnknownModel, LexUserType, LexUserTypeModel, LexXrpcBody, LexXrpcBodyModel,
    LexXrpcBodySchema, LexXrpcBodySchemaModel, LexXrpcError, LexXrpcErrorModel, LexXrpcParameter,
    LexXrpcParameterModel, LexXrpcParameters, LexXrpcParametersModel, LexXrpcProcedure,
    LexXrpcProcedureModel, LexXrpcQuery, LexXrpcQueryModel, LexXrpcSubscription,
    LexXrpcSubscriptionMessage, LexXrpcSubscriptionMessageModel, LexXrpcSubscriptionMessageSchema,
    LexXrpcSubscriptionMessageSchemaModel, LexXrpcSubscriptionModel, LexiconDoc, LexiconDocModel,
    Named, NamedModel, NumberModel,
};
use crate::decode::{
    array_of, blob_of, body_of, body_schema_of, boolean_of, bytes_of, cid_link_of, defs_of,
    defs_upto, doc_of, format_of, integer_of, ipld_of, items_of, key_before, message_of,
    message_schema_of, method_error_of, method_errors_of, method_errors_upto, names_known,
    number_of, object_of, parameter_of, parameters_of, parameters_upto, params_of,
    primitive_array_of, primitive_of, procedure_of, properties_of, properties_upto, property_of,
    query_of, record_of, ref_union_of, ref_variant_of, reference_of, string_of, subscription_of,
    token_of, unknown_of, user_type_of,
};
use crate::json::{Json, JsonValue, Member, lemma_view_arr, lemma_view_obj, lookup_from};
use crate::names::valid_nsid;
use crate::reader::{
    Failure, Kind, child, ints_of, ints_upto, kind_word, tag_kind, tag_of, texts_of, texts_upto,
};
use crate::spelling::{
    lemma_spelled_accept, lemma_spelled_array, lemma_spelled_at_identifier, lemma_spelled_at_uri,
    lemma_spelled_blob, lemma_spelled_boolean, lemma_spelled_bytes, lemma_spelled_cid,
    lemma_spelled_cid_link, lemma_spelled_closed, lemma_spelled_const, lemma_spelled_datetime,
    lemma_spelled_default, lemma_spelled_defs, lemma_spelled_description, lemma_spelled_did,
    lemma_spelled_encoding, lemma_spelled_enum, lemma_spelled_errors, lemma_spelled_format,
    lemma_spelled_handle, lemma_spelled_id, lemma_spelled_infos, lemma_spelled_input,
    lemma_spelled_integer, lemma_spelled_items, lemma_spelled_key, lemma_spelled_known_values,
    lemma_spelled_lexicon, lemma_spelled_max_graphemes, lemma_spelled_max_length,
    lemma_spelled_max_size, lemma_spelled_maximum, lemma_spelled_message,
    lemma_spelled_min_graphemes, lemma_spelled_min_length, lemma_spelled_minimum,
    lemma_spelled_name, lemma_spelled_nsid, lemma_spelled_nullable, lemma_spelled_object,
    lemma_spelled_output, lemma_spelled_parameters, lemma_spelled_params, lemma_spelled_procedure,
    lemma_spelled_properties, lemma_spelled_query, lemma_spelled_record, lemma_spelled_ref,
    lemma_spelled_refs, lemma_spelled_required, lemma_spelled_revision, lemma_spelled_schema,
    lemma_spelled_string, lemma_spelled_subscription, lemma_spelled_token, lemma_spelled_type,
    lemma_spelled_union, lemma_spelled_unknown, lemma_spelled_uri,
};
use crate::text::lowered;

verus! {

/// The entry of an object under `key`.
pub open spec fn member(key: Seq<char>, value: JsonValue) -> Member {
    Member { key, value }
}

/// The `type` entry of a value of the given kind.
pub open spec fn tag_member(kind: Kind) -> Member {
    Member { key: "type"@, value: JsonValue::Str(kind_word(kind)) }
}

/// A text, or `null` for none.
pub open spec fn opt_text_json(o: Option<Seq<char>>) -> JsonValue {
    match o {
        None => JsonValue::Null,
        Some(t) => JsonValue::Str(t),
    }
}

/// A boolean, or `null` for none.
pub open spec fn opt_bool_json(o: Option<bool>) -> JsonValue {
    match o {
        None => JsonValue::Null,
        Some(b) => JsonValue::Bool(b),
    }
}

/// An integer, or `null` for none.
pub open spec fn opt_int_json(o: Option<i64>) -> JsonValue {
    match o {
        None => JsonValue::Null,
        Some(i) => JsonValue::Int(i),
    }
}

/// An array of texts.
pub open spec fn texts_json(s: Seq<Seq<char>>) -> JsonValue {
    JsonValue::Arr(Seq::new(s.len(), |i: int| JsonValue::Str(s[i])))
}

/// An array of integers.
pub open spec fn ints_json(s: Seq<i64>) -> JsonValue {
    JsonValue::Arr(Seq::new(s.len(), |i: int| JsonValue::Int(s[i])))
}

/// An array of texts, or `null` for none.
pub open spec fn opt_texts_json(o: Option<Seq<Seq<char>>>) -> JsonValue {
    match o {
        None => JsonValue::Null,
        Some(s) => texts_json(s),
    }
}

/// An array of integers, or `null` for none.
pub open spec fn opt_ints_json(o: Option<Seq<i64>>) -> JsonValue {
    match o {
        None => JsonValue::Null,
        Some(s) => ints_json(s),
    }
}

/// The name of a string format.
pub open spec fn format_word(f: LexStringFormat) -> Seq<char> {
    match f {
        LexStringFormat::Datetime => "datetime"@,
        LexStringFormat::Uri => "uri"@,
        LexStringFormat::AtUri => "at-uri"@,
        LexStringFormat::Did => "did"@,
        LexStringFormat::Handle => "handle"@,
        LexStringFormat::AtIdentifier => "at-identifier"@,
        LexStringFormat::Nsid => "nsid"@,
        LexStringFormat::Cid => "cid"@,
    }
}

/// The name of a string format, or `null` for none.
pub open spec fn opt_format_json(o: Option<LexStringFormat>) -> JsonValue {
    match o {
        None => JsonValue::Null,
        Some(f) => JsonValue::Str(format_word(f)),
    }
}

/// A number, or `null` for none.
pub open spec fn opt_number_json(o: Option<NumberModel>) -> JsonValue {
    match o {
        None => JsonValue::Null,
        Some(NumberModel::Int(i)) => JsonValue::Int(i),
        Some(NumberModel::Real(t)) => JsonValue::Real(t),
    }
}

/// Whether no two entries share a name.
pub open spec fn distinct_names<M>(entries: Seq<NamedModel<M>>) -> bool {
    forall|i: int, j: int|
        0 <= i < j < entries.len() ==> (#[trigger] entries[i]).name != (#[trigger] entries[j]).name
}

/// The value under a key that stands at `i` and nowhere before.
pub proof fn lemma_lookup_at(entries: Seq<Member>, key: Seq<char>, i: int, from: int)
    requires
        0 <= from <= i < entries.len(),
        entries[i].key == key,
        forall|k: int| from <= k < i ==> (#[trigger] entries[k]).key != key,
    ensures
        lookup_from(entries, key, from) == Some(entries[i].value),
    decreases i - from,
{
    if from < i {
        assert(entries[from].key != key);
        lemma_lookup_at(entries, key, i, from + 1);
    }
}

/// The words of the vocabulary are pairwise different.
pub proof fn lemma_vocabulary_differs()
    ensures
        "object"@ != "array"@,
        "object"@ != "string"@,
        "object"@ != "integer"@,
        "object"@ != "boolean"@,
        "object"@ != "bytes"@,
        "object"@ != "cid-link"@,
        "object"@ != "blob"@,
        "object"@ != "ref"@,
        "object"@ != "union"@,
        "object"@ != "token"@,
        "object"@ != "record"@,
        "object"@ != "query"@,
        "object"@ != "procedure"@,
        "object"@ != "subscription"@,
        "object"@ != "unknown"@,
        "object"@ != "params"@,
        "array"@ != "string"@,
        "array"@ != "integer"@,
        "array"@ != "boolean"@,
        "array"@ != "bytes"@,
        "array"@ != "cid-link"@,
        "array"@ != "blob"@,
        "array"@ != "ref"@,
        "array"@ != "union"@,
        "array"@ != "token"@,
        "array"@ != "record"@,
        "array"@ != "query"@,
        "array"@ != "procedure"@,
        "array"@ != "subscription"@,
        "array"@ != "unknown"@,
        "array"@ != "params"@,
        "string"@ != "integer"@,
        "string"@ != "boolean"@,
        "string"@ != "bytes"@,
        "string"@ != "cid-link"@,
        "string"@ != "blob"@,
        "string"@ != "ref"@,
        "string"@ != "union"@,
        "string"@ != "token"@,
        "string"@ != "record"@,
        "string"@ != "query"@,
        "string"@ != "procedure"@,
        "string"@ != "subscription"@,
        "string"@ != "unknown"@,
        "string"@ != "params"@,
        "integer"@ != "boolean"@,
        "integer"@ != "bytes"@,
        "integer"@ != "cid-link"@,
        "integer"@ != "blob"@,
        "integer"@ != "ref"@,
        "integer"@ != "union"@,
        "integer"@ != "token"@,
        "integer"@ != "record"@,
        "integer"@ != "query"@,
        "integer"@ != "procedure"@,
        "integer"@ != "subscription"@,
        "integer"@ != "unknown"@,
        "integer"@ != "params"@,
        "boolean"@ != "bytes"@,
        "boolean"@ != "cid-link"@,
        "boolean"@ != "blob"@,
        "boolean"@ != "ref"@,
        "boolean"@ != "union"@,
        "boolean"@ != "token"@,
        "boolean"@ != "record"@,
        "boolean"@ != "query"@,
        "boolean"@ != "procedure"@,
        "boolean"@ != "subscription"@,
        "boolean"@ != "unknown"@,
        "boolean"@ != "params"@,
        "bytes"@ != "cid-link"@,
        "bytes"@ != "blob"@,
        "bytes"@ != "ref"@,
        "bytes"@ != "union"@,
        "bytes"@ != "token"@,
        "bytes"@ != "record"@,
        "bytes"@ != "query"@,
        "bytes"@ != "procedure"@,
        "bytes"@ != "subscription"@,
        "bytes"@ != "unknown"@,
        "bytes"@ != "params"@,
        "cid-link"@ != "blob"@,
        "cid-link"@ != "ref"@,
        "cid-link"@ != "union"@,
        "cid-link"@ != "token"@,
        "cid-link"@ != "record"@,
        "cid-link"@ != "query"@,
        "cid-link"@ != "procedure"@,
        "cid-link"@ != "subscription"@,
        "cid-link"@ != "unknown"@,
        "cid-link"@ != "params"@,
        "blob"@ != "ref"@,
        "blob"@ != "union"@,
        "blob"@ != "token"@,
        "blob"@ != "record"@,
        "blob"@ != "query"@,
        "blob"@ != "procedure"@,
        "blob"@ != "subscription"@,
        "blob"@ != "unknown"@,
        "blob"@ != "params"@,
        "ref"@ != "union"@,
        "ref"@ != "token"@,
        "ref"@ != "record"@,
        "ref"@ != "query"@,
        "ref"@ != "procedure"@,
        "ref"@ != "subscription"@,
        "ref"@ != "unknown"@,
        "ref"@ != "params"@,
        "union"@ != "token"@,
        "union"@ != "record"@,
        "union"@ != "query"@,
        "union"@ != "procedure"@,
        "union"@ != "subscription"@,
        "union"@ != "unknown"@,
        "union"@ != "params"@,
        "token"@ != "record"@,
        "token"@ != "query"@,
        "token"@ != "procedure"@,
        "token"@ != "subscription"@,
        "token"@ != "unknown"@,
        "token"@ != "params"@,
        "record"@ != "query"@,
        "record"@ != "procedure"@,
        "record"@ != "subscription"@,
        "record"@ != "unknown"@,
        "record"@ != "params"@,
        "query"@ != "procedure"@,
        "query"@ != "subscription"@,
        "query"@ != "unknown"@,
        "query"@ != "params"@,
        "procedure"@ != "subscription"@,
        "procedure"@ != "unknown"@,
        "procedure"@ != "params"@,
        "subscription"@ != "unknown"@,
        "subscription"@ != "params"@,
        "unknown"@ != "params"@,
{
    lemma_spelled_object();
    lemma_spelled_array();
    lemma_spelled_string();
    lemma_spelled_integer();
    lemma_spelled_boolean();
    lemma_spelled_bytes();
    lemma_spelled_cid_link();
    lemma_spelled_blob();
    lemma_spelled_ref();
    lemma_spelled_union();
    lemma_spelled_token();
    lemma_spelled_record();
    lemma_spelled_query();
    lemma_spelled_procedure();
    lemma_spelled_subscription();
    lemma_spelled_unknown();
    lemma_spelled_params();
}

/// Every word of the vocabulary is in lower case.
pub proof fn lemma_vocabulary_lowered(k: Kind)
    ensures
        lowered(kind_word(k)) == kind_word(k),
{
    lemma_spelled_object();
    lemma_spelled_array();
    lemma_spelled_string();
    lemma_spelled_integer();
    lemma_spelled_boolean();
    lemma_spelled_bytes();
    lemma_spelled_cid_link();
    lemma_spelled_blob();
    lemma_spelled_ref();
    lemma_spelled_union();
    lemma_spelled_token();
    lemma_spelled_record();
    lemma_spelled_query();
    lemma_spelled_procedure();
    lemma_spelled_subscription();
    lemma_spelled_unknown();
    lemma_spelled_params();
    assert(lowered(kind_word(k)) =~= kind_word(k));
}

/// Every word of the vocabulary names its own kind.
pub proof fn lemma_kind_word(k: Kind)
    ensures
        tag_kind(kind_word(k)) == Some(k),
{
    lemma_vocabulary_differs();
    lemma_vocabulary_lowered(k);
}

/// The names of the string formats are pairwise different.
pub proof fn lemma_formats_differ()
    ensures
        "datetime"@ != "uri"@,
        "datetime"@ != "at-uri"@,
        "datetime"@ != "did"@,
        "datetime"@ != "handle"@,
        "datetime"@ != "at-identifier"@,
        "datetime"@ != "nsid"@,
        "datetime"@ != "cid"@,
        "uri"@ != "at-uri"@,
        "uri"@ != "did"@,
        "uri"@ != "handle"@,
        "uri"@ != "at-identifier"@,
        "uri"@ != "nsid"@,
        "uri"@ != "cid"@,
        "at-uri"@ != "did"@,
        "at-uri"@ != "handle"@,
        "at-uri"@ != "at-identifier"@,
        "at-uri"@ != "nsid"@,
        "at-uri"@ != "cid"@,
        "did"@ != "handle"@,
        "did"@ != "at-identifier"@,
        "did"@ != "nsid"@,
        "did"@ != "cid"@,
        "handle"@ != "at-identifier"@,
        "handle"@ != "nsid"@,
        "handle"@ != "cid"@,
        "at-identifier"@ != "nsid"@,
        "at-identifier"@ != "cid"@,
        "nsid"@ != "cid"@,
{
    lemma_spelled_datetime();
    lemma_spelled_uri();
    lemma_spelled_at_uri();
    lemma_spelled_did();
    lemma_spelled_handle();
    lemma_spelled_at_identifier();
    lemma_spelled_nsid();
    lemma_spelled_cid();
}

/// Reading the name of a format gives the format back.
pub proof fn lemma_opt_format_round(o: Option<LexStringFormat>)
    ensures
        o matches Some(f) ==> format_of(opt_format_json(o)) == Ok::<LexStringFormat, Failure>(f),
        o is Some ==> opt_format_json(o) != JsonValue::Null,
{
    lemma_formats_differ();
}

/// Reading a number written gives the number back.
pub proof fn lemma_opt_number_round(o: Option<NumberModel>)
    ensures
        o matches Some(n) ==> number_of(opt_number_json(o)) == Ok::<NumberModel, Failure>(n),
        o is Some ==> opt_number_json(o) != JsonValue::Null,
{
}

/// Reading the first `n` texts written gives them back.
pub proof fn lemma_texts_round(s: Seq<Seq<char>>, n: int)
    requires
        0 <= n <= s.len(),
    ensures
        texts_upto(texts_json(s)->Arr_0, n) == Ok::<Seq<Seq<char>>, Failure>(s.subrange(0, n)),
    decreases n,
{
    if n > 0 {
        lemma_texts_round(s, n - 1);
        assert(s.subrange(0, n) =~= s.subrange(0, n - 1).push(s[n - 1]));
    } else {
        assert(s.subrange(0, 0) =~= Seq::<Seq<char>>::empty());
    }
}

/// Reading the first `n` integers written gives them back.
pub proof fn lemma_ints_round(s: Seq<i64>, n: int)
    requires
        0 <= n <= s.len(),
    ensures
        ints_upto(ints_json(s)->Arr_0, n) == Ok::<Seq<i64>, Failure>(s.subrange(0, n)),
    decreases n,
{
    if n > 0 {
        lemma_ints_round(s, n - 1);
        assert(s.subrange(0, n) =~= s.subrange(0, n - 1).push(s[n - 1]));
    } else {
        assert(s.subrange(0, 0) =~= Seq::<i64>::empty());
    }
}

/// Reading texts written gives them back.
pub proof fn lemma_opt_texts_round(o: Option<Seq<Seq<char>>>)
    ensures
        o matches Some(s) ==> texts_of(opt_texts_json(o)) == Ok::<Seq<Seq<char>>, Failure>(s),
        o is Some ==> opt_texts_json(o) != JsonValue::Null,
{
    if let Some(s) = o {
        lemma_texts_round(s, s.len() as int);
        assert(s.subrange(0, s.len() as int) =~= s);
    }
}

/// Reading integers written gives them back.
pub proof fn lemma_opt_ints_round(o: Option<Seq<i64>>)
    ensures
        o matches Some(s) ==> ints_of(opt_ints_json(o)) == Ok::<Seq<i64>, Failure>(s),
        o is Some ==> opt_ints_json(o) != JsonValue::Null,
{
    if let Some(s) = o {
        lemma_ints_round(s, s.len() as int);
        assert(s.subrange(0, s.len() as int) =~= s);
    }
}

fn enc_opt_text(o: &Option<String>) -> (j: Json)
    ensures
        j@ == opt_text_json(o.deep_view()),
{
    match o {
        None => Json::Null,
        Some(t) => Json::Str(t.clone()),
    }
}

fn enc_opt_bool(o: &Option<bool>) -> (j: Json)
    ensures
        j@ == opt_bool_json(*o),
{
    match o {
        None => Json::Null,
        Some(b) => Json::Bool(*b),
    }
}

fn enc_opt_int(o: &Option<i64>) -> (j: Json)
    ensures
        j@ == opt_int_json(*o),
{
    match o {
        None => Json::Null,
        Some(i) => Json::Int(*i),
    }
}

fn enc_version(v: u8) -> (j: Json)
    ensures
        j@ == JsonValue::Int(v as i64),
{
    Json::Int(v as i64)
}

fn enc_texts(s: &Vec<String>) -> (j: Json)
    ensures
        j@ == texts_json(s.deep_view()),
{
    let ghost models = s.deep_view();
    let mut items: Vec<Json> = Vec::new();
    let mut i: usize = 0;
    while i < s.len()
        invariant
            i <= s.len(),
            models == s.deep_view(),
            models.len() == s.len(),
            items.len() == i,
            forall|k: int| 0 <= k < i ==> (#[trigger] items[k])@ == JsonValue::Str(models[k]),
        decreases s.len() - i,
    {
        assert(models[i as int] == s[i as int]@);
        items.push(Json::Str(s[i].clone()));
        i += 1;
    }
    proof {
        lemma_view_arr(items);
    }
    let j = Json::Arr(items);
    assert(j@->Arr_0 =~= texts_json(models)->Arr_0);
    j
}

fn enc_opt_texts(o: &Option<Vec<String>>) -> (j: Json)
    ensures
        j@ == opt_texts_json(o.deep_view()),
{
    match o {
        None => Json::Null,
        Some(s) => enc_texts(s),
    }
}

fn enc_opt_ints(o: &Option<Vec<i64>>) -> (j: Json)
    ensures
        j@ == opt_ints_json(o.deep_view()),
{
    match o {
        None => Json::Null,
        Some(s) => {
            let ghost models = s.deep_view();
            let mut items: Vec<Json> = Vec::new();
            let mut i: usize = 0;
            while i < s.len()
                invariant
                    i <= s.len(),
                    models == s.deep_view(),
                    models.len() == s.len(),
                    items.len() == i,
                    forall|k: int| 0 <= k < i ==> (#[trigger] items[k])@ == JsonValue::Int(models[k]),
                decreases s.len() - i,
            {
                assert(models[i as int] == s[i as int]);
                items.push(Json::Int(s[i]));
                i += 1;
            }
            proof {
                lemma_view_arr(items);
            }
            let j = Json::Arr(items);
            assert(j@->Arr_0 =~= ints_json(models)->Arr_0);
            j
        },
    }
}

fn enc_opt_format(o: &Option<LexStringFormat>) -> (j: Json)
    ensures
        j@ == opt_format_json(*o),
{
    match o {
        None => Json::Null,
        Some(f) => {
            let word = match f {
                LexStringFormat::Datetime => "datetime",
                LexStringFormat::Uri => "uri",
                LexStringFormat::AtUri => "at-uri",
                LexStringFormat::Did => "did",
                LexStringFormat::Handle => "handle",
                LexStringFormat::AtIdentifier => "at-identifier",
                LexStringFormat::Nsid => "nsid",
                LexStringFormat::Cid => "cid",
            };
            Json::Str(String::from_str(word))
        },
    }
}

fn enc_opt_number(o: &Option<LexNumber>) -> (j: Json)
    ensures
        j@ == opt_number_json(o.deep_view()),
{
    match o {
        None => Json::Null,
        Some(LexNumber::Int(i)) => Json::Int(*i),
        Some(LexNumber::Real(t)) => Json::Real(t.clone()),
    }
}

/// The value that `m` is written as: an object with every field.
pub open spec fn boolean_json(m: LexBooleanModel) -> JsonValue {
    JsonValue::Obj(
        seq![
            tag_member(Kind::Boolean),
            member("description"@, opt_text_json(m.description)),
            member("default"@, opt_bool_json(m.default)),
            member("const"@, opt_bool_json(m.const_value)),
        ],
    )
}

/// The keys of this record are pairwise different.
pub proof fn lemma_boolean_keys()
    ensures
        "type"@ != "description"@,
        "type"@ != "default"@,
        "type"@ != "const"@,
        "description"@ != "default"@,
        "description"@ != "const"@,
        "default"@ != "const"@,
{
    lemma_spelled_type();
    lemma_spelled_description();
    lemma_spelled_default();
    lemma_spelled_const();
}

/// What is written is an object with the tag of its kind.
pub proof fn lemma_boolean_shape(m: LexBooleanModel)
    ensures
        boolean_json(m) is Obj,
        tag_of(boolean_json(m)) == Ok::<Kind, Failure>(Kind::Boolean),
{
    lemma_boolean_keys();
    lemma_kind_word(Kind::Boolean);
    lemma_lookup_at(boolean_json(m)->Obj_0, "type"@, 0, 0);
}

/// Reading what was written gives `m` back.
pub proof fn lemma_boolean_round(m: LexBooleanModel)
    ensures
        boolean_of(boolean_json(m)) == Ok::<LexBooleanModel, Failure>(m),
{
    reveal(boolean_of);
    lemma_boolean_keys();
    lemma_boolean_shape(m);
    let entries = boolean_json(m)->Obj_0;
    lemma_lookup_at(entries, "description"@, 1, 0);
    lemma_lookup_at(entries, "default"@, 2, 0);
    lemma_lookup_at(entries, "const"@, 3, 0);
}

/// Writes `x` as a JSON value.
pub fn encode_boolean(x: &LexBoolean) -> (j: Json)
    ensures
        j@ == boolean_json(x.deep_view()),
{
    match x {
        LexBoolean::Boolean { description, default, const_value } => {
            let mut entries: Vec<(String, Json)> = Vec::new();
            entries.push((String::from_str("type"), Json::Str(String::from_str("boolean"))));
            entries.push((String::from_str("description"), enc_opt_text(description)));
            entries.push((String::from_str("default"), enc_opt_bool(default)));
            entries.push((String::from_str("const"), enc_opt_bool(const_value)));
            proof {
                lemma_view_obj(entries);
            }
            let j = Json::Obj(entries);
            assert(j@->Obj_0 =~= boolean_json(x.deep_view())->Obj_0);
            j
        },
    }
}

/// The value that `m` is written as: an object with every field.
pub open spec fn integer_json(m: LexIntegerModel) -> JsonValue {
    JsonValue::Obj(
        seq![
            tag_member(Kind::Integer),
            member("description"@, opt_text_json(m.description)),
            member("default"@, opt_int_json(m.default)),
            member("minimum"@, opt_int_json(m.minimum)),
            member("maximum"@, opt_int_json(m.maximum)),
            member("enum"@, opt_ints_json(m.enum_values)),
            member("const"@, opt_int_json(m.const_value)),
        ],
    )
}

/// The keys of this record are pairwise different.
pub proof fn lemma_integer_keys()
    ensures
        "type"@ != "description"@,
        "type"@ != "default"@,
        "type"@ != "minimum"@,
        "type"@ != "maximum"@,
        "type"@ != "enum"@,
        "type"@ != "const"@,
        "description"@ != "default"@,
        "description"@ != "minimum"@,
        "description"@ != "maximum"@,
        "description"@ != "enum"@,
        "description"@ != "const"@,
        "default"@ != "minimum"@,
        "default"@ != "maximum"@,
        "default"@ != "enum"@,
        "default"@ != "const"@,
        "minimum"@ != "maximum"@,
        "minimum"@ != "enum"@,
        "minimum"@ != "const"@,
        "maximum"@ != "enum"@,
        "maximum"@ != "const"@,
        "enum"@ != "const"@,
{
    lemma_spelled_type();
    lemma_spelled_description();
    lemma_spelled_default();
    lemma_spelled_minimum();
    lemma_spelled_maximum();
    lemma_spelled_enum();
    lemma_spelled_const();
}

/// What is written is an object with the tag of its kind.
pub proof fn lemma_integer_shape(m: LexIntegerModel)
    ensures
        integer_json(m) is Obj,
        tag_of(integer_json(m)) == Ok::<Kind, Failure>(Kind::Integer),
{
    lemma_integer_keys();
    lemma_kind_word(Kind::Integer);
    lemma_lookup_at(integer_json(m)->Obj_0, "type"@, 0, 0);
}

/// Reading what was written gives `m` back.
pub proof fn lemma_integer_round(m: LexIntegerModel)
    ensures
        integer_of(integer_json(m)) == Ok::<LexIntegerModel, Failure>(m),
{
    reveal(integer_of);
    lemma_integer_keys();
    lemma_integer_shape(m);
    let entries = integer_json(m)->Obj_0;
    lemma_lookup_at(entries, "description"@, 1, 0);
    lemma_lookup_at(entries, "default"@, 2, 0);
    lemma_lookup_at(entries, "minimum"@, 3, 0);
    lemma_lookup_at(entries, "maximum"@, 4, 0);
    lemma_lookup_at(entries, "enum"@, 5, 0);
    lemma_lookup_at(entries, "const"@, 6, 0);
    lemma_opt_ints_round(m.enum_values);
}

/// Writes `x` as a JSON value.
pub fn encode_integer(x: &LexInteger) -> (j: Json)
    ensures
        j@ == integer_json(x.deep_view()),
{
    match x {
        LexInteger::Integer { description, default, minimum, maximum, enum_values, const_value } => {
            let mut entries: Vec<(String, Json)> = Vec::new();
            entries.push((String::from_str("type"), Json::Str(String::from_str("integer"))));
            entries.push((String::from_str("description"), enc_opt_text(description)));
            entries.push((String::from_str("default"), enc_opt_int(default)));
            entries.push((String::from_str("minimum"), enc_opt_int(minimum)));
            entries.push((String::from_str("maximum"), enc_opt_int(maximum)));
            entries.push((String::from_str("enum"), enc_opt_ints(enum_values)));
            entries.push((String::from_str("const"), enc_opt_int(const_value)));
            proof {
                lemma_view_obj(entries);
            }
            let j = Json::Obj(entries);
            assert(j@->Obj_0 =~= integer_json(x.deep_view())->Obj_0);
            j
        },
    }
}

/// The value that `m` is written as: an object with every field.
pub open spec fn string_json(m: LexStringModel) -> JsonValue {
    JsonValue::Obj(
        seq![
            tag_member(Kind::String),
            member("format"@, opt_format_json(m.format)),
            member("description"@, opt_text_json(m.description)),
            member("default"@, opt_text_json(m.default)),
            member("minLength"@, opt_int_json(m.min_length)),
            member("maxLength"@, opt_int_json(m.max_length)),
            member("minGraphemes"@, opt_int_json(m.min_graphemes)),
            member("maxGraphemes"@, opt_int_json(m.max_graphemes)),
            member("enum"@, opt_texts_json(m.enum_values)),
            member("const"@, opt_text_json(m.const_value)),
            member("knownValues"@, opt_texts_json(m.known_values)),
        ],
    )
}

/// The keys of this record are pairwise different.
pub proof fn lemma_string_keys()
    ensures
        "type"@ != "format"@,
        "type"@ != "description"@,
        "type"@ != "default"@,
        "type"@ != "minLength"@,
        "type"@ != "maxLength"@,
        "type"@ != "minGraphemes"@,
        "type"@ != "maxGraphemes"@,
        "type"@ != "enum"@,
        "type"@ != "const"@,
        "type"@ != "knownValues"@,
        "format"@ != "description"@,
        "format"@ != "default"@,
        "format"@ != "minLength"@,
        "format"@ != "maxLength"@,
        "format"@ != "minGraphemes"@,
        "format"@ != "maxGraphemes"@,
        "format"@ != "enum"@,
        "format"@ != "const"@,
        "format"@ != "knownValues"@,
        "description"@ != "default"@,
        "description"@ != "minLength"@,
        "description"@ != "maxLength"@,
        "description"@ != "minGraphemes"@,
        "description"@ != "maxGraphemes"@,
        "description"@ != "enum"@,
        "description"@ != "const"@,
        "description"@ != "knownValues"@,
        "default"@ != "minLength"@,
        "default"@ != "maxLength"@,
        "default"@ != "minGraphemes"@,
        "default"@ != "maxGraphemes"@,
        "default"@ != "enum"@,
        "default"@ != "const"@,
        "default"@ != "knownValues"@,
        "minLength"@ != "maxLength"@,
        "minLength"@ != "minGraphemes"@,
        "minLength"@ != "maxGraphemes"@,
        "minLength"@ != "enum"@,
        "minLength"@ != "const"@,
        "minLength"@ != "knownValues"@,
        "maxLength"@ != "minGraphemes"@,
        "maxLength"@ != "maxGraphemes"@,
        "maxLength"@ != "enum"@,
        "maxLength"@ != "const"@,
        "maxLength"@ != "knownValues"@,
        "minGraphemes"@ != "maxGraphemes"@,
        "minGraphemes"@ != "enum"@,
        "minGraphemes"@ != "const"@,
        "minGraphemes"@ != "knownValues"@,
        "maxGraphemes"@ != "enum"@,
        "maxGraphemes"@ != "const"@,
        "maxGraphemes"@ != "knownValues"@,
        "enum"@ != "const"@,
        "enum"@ != "knownValues"@,
        "const"@ != "knownValues"@,
{
    lemma_spelled_type();
    lemma_spelled_format();
    lemma_spelled_description();
    lemma_spelled_default();
    lemma_spelled_min_length();
    lemma_spelled_max_length();
    lemma_spelled_min_graphemes();
    lemma_spelled_max_graphemes();
    lemma_spelled_enum();
    lemma_spelled_const();
    lemma_spelled_known_values();
}

/// What is written is an object with the tag of its kind.
pub proof fn lemma_string_shape(m: LexStringModel)
    ensures
        string_json(m) is Obj,
        tag_of(string_json(m)) == Ok::<Kind, Failure>(Kind::String),
{
    lemma_string_keys();
    lemma_kind_word(Kind::String);
    lemma_lookup_at(string_json(m)->Obj_0, "type"@, 0, 0);
}

/// Reading what was written gives `m` back.
pub proof fn lemma_string_round(m: LexStringModel)
    ensures
        string_of(string_json(m)) == Ok::<LexStringModel, Failure>(m),
{
    reveal(string_of);
    lemma_string_keys();
    lemma_string_shape(m);
    let entries = string_json(m)->Obj_0;
    lemma_lookup_at(entries, "format"@, 1, 0);
    lemma_lookup_at(entries, "description"@, 2, 0);
    lemma_lookup_at(entries, "default"@, 3, 0);
    lemma_lookup_at(entries, "minLength"@, 4, 0);
    lemma_lookup_at(entries, "maxLength"@, 5, 0);
    lemma_lookup_at(entries, "minGraphemes"@, 6, 0);
    lemma_lookup_at(entries, "maxGraphemes"@, 7, 0);
    lemma_lookup_at(entries, "enum"@, 8, 0);
    lemma_lookup_at(entries, "const"@, 9, 0);
    lemma_lookup_at(entries, "knownValues"@, 10, 0);
    lemma_opt_format_round(m.format);
    lemma_opt_texts_round(m.enum_values);
    lemma_opt_texts_round(m.known_values);
}

/// Writes `x` as a JSON value.
pub fn encode_string(x: &LexString) -> (j: Json)
    ensures
        j@ == string_json(x.deep_view()),
{
    match x {
        LexString::String { format, description, default, min_length, max_length, min_graphemes, max_graphemes, enum_values, const_value, known_values } => {
            let mut entries: Vec<(String, Json)> = Vec::new();
            entries.push((String::from_str("type"), Json::Str(String::from_str("string"))));
            entries.push((String::from_str("format"), enc_opt_format(format)));
            entries.push((String::from_str("description"), enc_opt_text(description)));
            entries.push((String::from_str("default"), enc_opt_text(default)));
            entries.push((String::from_str("minLength"), enc_opt_int(min_length)));
            entries.push((String::from_str("maxLength"), enc_opt_int(max_length)));
            entries.push((String::from_str("minGraphemes"), enc_opt_int(min_graphemes)));
            entries.push((String::from_str("maxGraphemes"), enc_opt_int(max_graphemes)));
            entries.push((String::from_str("enum"), enc_opt_texts(enum_values)));
            entries.push((String::from_str("const"), enc_opt_text(const_value)));
            entries.push((String::from_str("knownValues"), enc_opt_texts(known_values)));
            proof {
                lemma_view_obj(entries);
            }
            let j = Json::Obj(entries);
            assert(j@->Obj_0 =~= string_json(x.deep_view())->Obj_0);
            j
        },
    }
}

/// The value that `m` is written as: an object with every field.
pub open spec fn unknown_json(m: LexUnknownModel) -> JsonValue {
    JsonValue::Obj(
        seq![
            tag_member(Kind::Unknown),
            member("description"@, opt_text_json(m.description)),
        ],
    )
}

/// The keys of this record are pairwise different.
pub proof fn lemma_unknown_keys()
    ensures
        "type"@ != "description"@,
{
    lemma_spelled_type();
    lemma_spelled_description();
}

/// What is written is an object with the tag of its kind.
pub proof fn lemma_unknown_shape(m: LexUnknownModel)
    ensures
        unknown_json(m) is Obj,
        tag_of(unknown_json(m)) == Ok::<Kind, Failure>(Kind::Unknown),
{
    lemma_unknown_keys();
    lemma_kind_word(Kind::Unknown);
    lemma_lookup_at(unknown_json(m)->Obj_0, "type"@, 0, 0);
}

/// Reading what was written gives `m` back.
pub proof fn lemma_unknown_round(m: LexUnknownModel)
    ensures
        unknown_of(unknown_json(m)) == Ok::<LexUnknownModel, Failure>(m),
{
    reveal(unknown_of);
    lemma_unknown_keys();
    lemma_unknown_shape(m);
    let entries = unknown_json(m)->Obj_0;
    lemma_lookup_at(entries, "description"@, 1, 0);
}

/// Writes `x` as a JSON value.
pub fn encode_unknown(x: &LexUnknown) -> (j: Json)
    ensures
        j@ == unknown_json(x.deep_view()),
{
    match x {
        LexUnknown::Unknown { description } => {
            let mut entries: Vec<(String, Json)> = Vec::new();
            entries.push((String::from_str("type"), Json::Str(String::from_str("unknown"))));
            entries.push((String::from_str("description"), enc_opt_text(description)));
            proof {
                lemma_view_obj(entries);
            }
            let j = Json::Obj(entries);
            assert(j@->Obj_0 =~= unknown_json(x.deep_view())->Obj_0);
            j
        },
    }
}

/// The value that `m` is written as: that of its variant.
pub open spec fn primitive_json(m: LexPrimitiveModel) -> JsonValue {
    match m {
        LexPrimitiveModel::Boolean(x) => boolean_json(x),
        LexPrimitiveModel::Integer(x) => integer_json(x),
        LexPrimitiveModel::String(x) => string_json(x),
        LexPrimitiveModel::Unknown(x) => unknown_json(x),
    }
}

/// What is written is an object with the tag of the variant.
pub proof fn lemma_primitive_shape(m: LexPrimitiveModel)
    ensures
        primitive_json(m) is Obj,
        tag_of(primitive_json(m)) is Ok,
        m is Boolean ==> tag_of(primitive_json(m)) == Ok::<Kind, Failure>(Kind::Boolean),
        m is Integer ==> tag_of(primitive_json(m)) == Ok::<Kind, Failure>(Kind::Integer),
        m is String ==> tag_of(primitive_json(m)) == Ok::<Kind, Failure>(Kind::String),
        m is Unknown ==> tag_of(primitive_json(m)) == Ok::<Kind, Failure>(Kind::Unknown),
{
    match m {
        LexPrimitiveModel::Boolean(x) => {
            lemma_boolean_shape(x);
        },
        LexPrimitiveModel::Integer(x) => {
            lemma_integer_shape(x);
        },
        LexPrimitiveModel::String(x) => {
            lemma_string_shape(x);
        },
        LexPrimitiveModel::Unknown(x) => {
            lemma_unknown_shape(x);
        },
    }
}

/// Reading what was written gives `m` back.
pub proof fn lemma_primitive_round(m: LexPrimitiveModel)
    ensures
        primitive_of(primitive_json(m)) == Ok::<LexPrimitiveModel, Failure>(m),
{
    lemma_primitive_shape(m);
    match m {
        LexPrimitiveModel::Boolean(x) => {
            lemma_boolean_shape(x);
            lemma_boolean_round(x);
        },
        LexPrimitiveModel::Integer(x) => {
            lemma_integer_shape(x);
            lemma_integer_round(x);
        },
        LexPrimitiveModel::String(x) => {
            lemma_string_shape(x);
            lemma_string_round(x);
        },
        LexPrimitiveModel::Unknown(x) => {
            lemma_unknown_shape(x);
            lemma_unknown_round(x);
        },
    }
}

/// Writes `x` as a JSON value.
pub fn encode_primitive(x: &LexPrimitive) -> (j: Json)
    ensures
        j@ == primitive_json(x.deep_view()),
{
    match x {
        LexPrimitive::Boolean(v) => encode_boolean(v),
        LexPrimitive::Integer(v) => encode_integer(v),
        LexPrimitive::String(v) => encode_string(v),
        LexPrimitive::Unknown(v) => encode_unknown(v),
    }
}

/// The value that `m` is written as: an object with every field.
pub open spec fn bytes_json(m: LexBytesModel) -> JsonValue {
    JsonValue::Obj(
        seq![
            tag_member(Kind::Bytes),
            member("description"@, opt_text_json(m.description)),
            member("default"@, opt_text_json(m.default)),
            member("const"@, opt_text_json(m.const_value)),
        ],
    )
}

/// The keys of this record are pairwise different.
pub proof fn lemma_bytes_keys()
    ensures
        "type"@ != "description"@,
        "type"@ != "default"@,
        "type"@ != "const"@,
        "description"@ != "default"@,
        "description"@ != "const"@,
        "default"@ != "const"@,
{
    lemma_spelled_type();
    lemma_spelled_description();
    lemma_spelled_default();
    lemma_spelled_const();
}

/// What is written is an object with the tag of its kind.
pub proof fn lemma_bytes_shape(m: LexBytesModel)
    ensures
        bytes_json(m) is Obj,
        tag_of(bytes_json(m)) == Ok::<Kind, Failure>(Kind::Bytes),
{
    lemma_bytes_keys();
    lemma_kind_word(Kind::Bytes);
    lemma_lookup_at(bytes_json(m)->Obj_0, "type"@, 0, 0);
}

/// Reading what was written gives `m` back.
pub proof fn lemma_bytes_round(m: LexBytesModel)
    ensures
        bytes_of(bytes_json(m)) == Ok::<LexBytesModel, Failure>(m),
{
    reveal(bytes_of);
    lemma_bytes_keys();
    lemma_bytes_shape(m);
    let entries = bytes_json(m)->Obj_0;
    lemma_lookup_at(entries, "description"@, 1, 0);
    lemma_lookup_at(entries, "default"@, 2, 0);
    lemma_lookup_at(entries, "const"@, 3, 0);
}

/// Writes `x` as a JSON value.
pub fn encode_bytes(x: &LexBytes) -> (j: Json)
    ensures
        j@ == bytes_json(x.deep_view()),
{
    match x {
        LexBytes::Bytes { description, default, const_value } => {
            let mut entries: Vec<(String, Json)> = Vec::new();
            entries.push((String::from_str("type"), Json::Str(String::from_str("bytes"))));
            entries.push((String::from_str("description"), enc_opt_text(description)));
            entries.push((String::from_str("default"), enc_opt_text(default)));
            entries.push((String::from_str("const"), enc_opt_text(const_value)));
            proof {
                lemma_view_obj(entries);
            }
            let j = Json::Obj(entries);
            assert(j@->Obj_0 =~= bytes_json(x.deep_view())->Obj_0);
            j
        },
    }
}

/// The value that `m` is written as: an object with every field.
pub open spec fn cid_link_json(m: LexCidLinkModel) -> JsonValue {
    JsonValue::Obj(
        seq![
            tag_member(Kind::CidLink),
            member("description"@, opt_text_json(m.description)),
        ],
    )
}

/// The keys of this record are pairwise different.
pub proof fn lemma_cid_link_keys()
    ensures
        "type"@ != "description"@,
{
    lemma_spelled_type();
    lemma_spelled_description();
}

/// What is written is an object with the tag of its kind.
pub proof fn lemma_cid_link_shape(m: LexCidLinkModel)
    ensures
        cid_link_json(m) is Obj,
        tag_of(cid_link_json(m)) == Ok::<Kind, Failure>(Kind::CidLink),
{
    lemma_cid_link_keys();
    lemma_kind_word(Kind::CidLink);
    lemma_lookup_at(cid_link_json(m)->Obj_0, "type"@, 0, 0);
}

/// Reading what was written gives `m` back.
pub proof fn lemma_cid_link_round(m: LexCidLinkModel)
    ensures
        cid_link_of(cid_link_json(m)) == Ok::<LexCidLinkModel, Failure>(m),
{
    reveal(cid_link_of);
    lemma_cid_link_keys();
    lemma_cid_link_shape(m);
    let entries = cid_link_json(m)->Obj_0;
    lemma_lookup_at(entries, "description"@, 1, 0);
}

/// Writes `x` as a JSON value.
pub fn encode_cid_link(x: &LexCidLink) -> (j: Json)
    ensures
        j@ == cid_link_json(x.deep_view()),
{
    match x {
        LexCidLink::CidLink { description } => {
            let mut entries: Vec<(String, Json)> = Vec::new();
            entries.push((String::from_str("type"), Json::Str(String::from_str("cid-link"))));
            entries.push((String::from_str("description"), enc_opt_text(description)));
            proof {
                lemma_view_obj(entries);
            }
            let j = Json::Obj(entries);
            assert(j@->Obj_0 =~= cid_link_json(x.deep_view())->Obj_0);
            j
        },
    }
}

/// The value that `m` is written as: that of its variant.
pub open spec fn ipld_json(m: LexIpldTypeModel) -> JsonValue {
    match m {
        LexIpldTypeModel::Bytes(x) => bytes_json(x),
        LexIpldTypeModel::CidLink(x) => cid_link_json(x),
    }
}

/// What is written is an object with the tag of the variant.
pub proof fn lemma_ipld_shape(m: LexIpldTypeModel)
    ensures
        ipld_json(m) is Obj,
        tag_of(ipld_json(m)) is Ok,
        m is Bytes ==> tag_of(ipld_json(m)) == Ok::<Kind, Failure>(Kind::Bytes),
        m is CidLink ==> tag_of(ipld_json(m)) == Ok::<Kind, Failure>(Kind::CidLink),
{
    match m {
        LexIpldTypeModel::Bytes(x) => {
            lemma_bytes_shape(x);
        },
        LexIpldTypeModel::CidLink(x) => {
            lemma_cid_link_shape(x);
        },
    }
}

/// Reading what was written gives `m` back.
pub proof fn lemma_ipld_round(m: LexIpldTypeModel)
    ensures
        ipld_of(ipld_json(m)) == Ok::<LexIpldTypeModel, Failure>(m),
{
    lemma_ipld_shape(m);
    match m {
        LexIpldTypeModel::Bytes(x) => {
            lemma_bytes_shape(x);
            lemma_bytes_round(x);
        },
        LexIpldTypeModel::CidLink(x) => {
            lemma_cid_link_shape(x);
            lemma_cid_link_round(x);
        },
    }
}

/// Writes `x` as a JSON value.
pub fn encode_ipld(x: &LexIpldType) -> (j: Json)
    ensures
        j@ == ipld_json(x.deep_view()),
{
    match x {
        LexIpldType::Bytes(v) => encode_bytes(v),
        LexIpldType::CidLink(v) => encode_cid_link(v),
    }
}

/// The value that `m` is written as: an object with every field.
pub open spec fn reference_json(m: LexRefModel) -> JsonValue {
    JsonValue::Obj(
        seq![
            tag_member(Kind::Ref),
            member("description"@, opt_text_json(m.description)),
            member("ref"@, JsonValue::Str(m.reference)),
        ],
    )
}

/// The keys of this record are pairwise different.
pub proof fn lemma_reference_keys()
    ensures
        "type"@ != "description"@,
        "type"@ != "ref"@,
        "description"@ != "ref"@,
{
    lemma_spelled_type();
    lemma_spelled_description();
    lemma_spelled_ref();
}

/// What is written is an object with the tag of its kind.
pub proof fn lemma_reference_shape(m: LexRefModel)
    ensures
        reference_json(m) is Obj,
        tag_of(reference_json(m)) == Ok::<Kind, Failure>(Kind::Ref),
{
    lemma_reference_keys();
    lemma_kind_word(Kind::Ref);
    lemma_lookup_at(reference_json(m)->Obj_0, "type"@, 0, 0);
}

/// Reading what was written gives `m` back.
pub proof fn lemma_reference_round(m: LexRefModel)
    ensures
        reference_of(reference_json(m)) == Ok::<LexRefModel, Failure>(m),
{
    reveal(reference_of);
    lemma_reference_keys();
    lemma_reference_shape(m);
    let entries = reference_json(m)->Obj_0;
    lemma_lookup_at(entries, "description"@, 1, 0);
    lemma_lookup_at(entries, "ref"@, 2, 0);
}

/// Writes `x` as a JSON value.
pub fn encode_reference(x: &LexRef) -> (j: Json)
    ensures
        j@ == reference_json(x.deep_view()),
{
    match x {
        LexRef::Ref { description, reference } => {
            let mut entries: Vec<(String, Json)> = Vec::new();
            entries.push((String::from_str("type"), Json::Str(String::from_str("ref"))));
            entries.push((String::from_str("description"), enc_opt_text(description)));
            entries.push((String::from_str("ref"), Json::Str((reference).clone())));
            proof {
                lemma_view_obj(entries);
            }
            let j = Json::Obj(entries);
            assert(j@->Obj_0 =~= reference_json(x.deep_view())->Obj_0);
            j
        },
    }
}

/// The value that `m` is written as: an object with every field.
pub open spec fn ref_union_json(m: LexRefUnionModel) -> JsonValue {
    JsonValue::Obj(
        seq![
            tag_member(Kind::Union),
            member("description"@, opt_text_json(m.description)),
            member("refs"@, texts_json(m.refs)),
            member("closed"@, opt_bool_json(m.closed)),
        ],
    )
}

/// The keys of this record are pairwise different.
pub proof fn lemma_ref_union_keys()
    ensures
        "type"@ != "description"@,
        "type"@ != "refs"@,
        "type"@ != "closed"@,
        "description"@ != "refs"@,
        "description"@ != "closed"@,
        "refs"@ != "closed"@,
{
    lemma_spelled_type();
    lemma_spelled_description();
    lemma_spelled_refs();
    lemma_spelled_closed();
}

/// What is written is an object with the tag of its kind.
pub proof fn lemma_ref_union_shape(m: LexRefUnionModel)
    ensures
        ref_union_json(m) is Obj,
        tag_of(ref_union_json(m)) == Ok::<Kind, Failure>(Kind::Union),
{
    lemma_ref_union_keys();
    lemma_kind_word(Kind::Union);
    lemma_lookup_at(ref_union_json(m)->Obj_0, "type"@, 0, 0);
}

/// Reading what was written gives `m` back.
pub proof fn lemma_ref_union_round(m: LexRefUnionModel)
    ensures
        ref_union_of(ref_union_json(m)) == Ok::<LexRefUnionModel, Failure>(m),
{
    reveal(ref_union_of);
    lemma_ref_union_keys();
    lemma_ref_union_shape(m);
    let entries = ref_union_json(m)->Obj_0;
    lemma_lookup_at(entries, "description"@, 1, 0);
    lemma_lookup_at(entries, "refs"@, 2, 0);
    lemma_lookup_at(entries, "closed"@, 3, 0);
    lemma_texts_round(m.refs, m.refs.len() as int);
    assert(m.refs.subrange(0, m.refs.len() as int) =~= m.refs);
}

/// Writes `x` as a JSON value.
pub fn encode_ref_union(x: &LexRefUnion) -> (j: Json)
    ensures
        j@ == ref_union_json(x.deep_view()),
{
    match x {
        LexRefUnion::Union { description, refs, closed } => {
            let mut entries: Vec<(String, Json)> = Vec::new();
            entries.push((String::from_str("type"), Json::Str(String::from_str("union"))));
            entries.push((String::from_str("description"), enc_opt_text(description)));
            entries.push((String::from_str("refs"), enc_texts(refs)));
            entries.push((String::from_str("closed"), enc_opt_bool(closed)));
            proof {
                lemma_view_obj(entries);
            }
            let j = Json::Obj(entries);
            assert(j@->Obj_0 =~= ref_union_json(x.deep_view())->Obj_0);
            j
        },
    }
}

/// The value that `m` is written as: that of its variant.
pub open spec fn ref_variant_json(m: LexRefVariantModel) -> JsonValue {
    match m {
        LexRefVariantModel::Ref(x) => reference_json(x),
        LexRefVariantModel::RefUnion(x) => ref_union_json(x),
    }
}

/// What is written is an object with the tag of the variant.
pub proof fn lemma_ref_variant_shape(m: LexRefVariantModel)
    ensures
        ref_variant_json(m) is Obj,
        tag_of(ref_variant_json(m)) is Ok,
        m is Ref ==> tag_of(ref_variant_json(m)) == Ok::<Kind, Failure>(Kind::Ref),
        m is RefUnion ==> tag_of(ref_variant_json(m)) == Ok::<Kind, Failure>(Kind::Union),
{
    match m {
        LexRefVariantModel::Ref(x) => {
            lemma_reference_shape(x);
        },
        LexRefVariantModel::RefUnion(x) => {
            lemma_ref_union_shape(x);
        },
    }
}

/// Reading what was written gives `m` back.
pub proof fn lemma_ref_variant_round(m: LexRefVariantModel)
    ensures
        ref_variant_of(ref_variant_json(m)) == Ok::<LexRefVariantModel, Failure>(m),
{
    lemma_ref_variant_shape(m);
    match m {
        LexRefVariantModel::Ref(x) => {
            lemma_reference_shape(x);
            lemma_reference_round(x);
        },
        LexRefVariantModel::RefUnion(x) => {
            lemma_ref_union_shape(x);
            lemma_ref_union_round(x);
        },
    }
}

/// Writes `x` as a JSON value.
pub fn encode_ref_variant(x: &LexRefVariant) -> (j: Json)
    ensures
        j@ == ref_variant_json(x.deep_view()),
{
    match x {
        LexRefVariant::Ref(v) => encode_reference(v),
        LexRefVariant::RefUnion(v) => encode_ref_union(v),
    }
}

/// The value that `m` is written as: an object with every field.
pub open spec fn blob_json(m: LexBlobModel) -> JsonValue {
    JsonValue::Obj(
        seq![
            tag_member(Kind::Blob),
            member("description"@, opt_text_json(m.description)),
            member("accept"@, opt_texts_json(m.accept)),
            member("maxSize"@, opt_int_json(m.max_size)),
        ],
    )
}

/// The keys of this record are pairwise different.
pub proof fn lemma_blob_keys()
    ensures
        "type"@ != "description"@,
        "type"@ != "accept"@,
        "type"@ != "maxSize"@,
        "description"@ != "accept"@,
        "description"@ != "maxSize"@,
        "accept"@ != "maxSize"@,
{
    lemma_spelled_type();
    lemma_spelled_description();
    lemma_spelled_accept();
    lemma_spelled_max_size();
}

/// What is written is an object with the tag of its kind.
pub proof fn lemma_blob_shape(m: LexBlobModel)
    ensures
        blob_json(m) is Obj,
        tag_of(blob_json(m)) == Ok::<Kind, Failure>(Kind::Blob),
{
    lemma_blob_keys();
    lemma_kind_word(Kind::Blob);
    lemma_lookup_at(blob_json(m)->Obj_0, "type"@, 0, 0);
}

/// Reading what was written gives `m` back.
pub proof fn lemma_blob_round(m: LexBlobModel)
    ensures
        blob_of(blob_json(m)) == Ok::<LexBlobModel, Failure>(m),
{
    reveal(blob_of);
    lemma_blob_keys();
    lemma_blob_shape(m);
    let entries = blob_json(m)->Obj_0;
    lemma_lookup_at(entries, "description"@, 1, 0);
    lemma_lookup_at(entries, "accept"@, 2, 0);
    lemma_lookup_at(entries, "maxSize"@, 3, 0);
    lemma_opt_texts_round(m.accept);
}

/// Writes `x` as a JSON value.
pub fn encode_blob(x: &LexBlob) -> (j: Json)
    ensures
        j@ == blob_json(x.deep_view()),
{
    match x {
        LexBlob::Blob { description, accept, max_size } => {
            let mut entries: Vec<(String, Json)> = Vec::new();
            entries.push((String::from_str("type"), Json::Str(String::from_str("blob"))));
            entries.push((String::from_str("description"), enc_opt_text(description)));
            entries.push((String::from_str("accept"), enc_opt_texts(accept)));
            entries.push((String::from_str("maxSize"), enc_opt_int(max_size)));
            proof {
                lemma_view_obj(entries);
            }
            let j = Json::Obj(entries);
            assert(j@->Obj_0 =~= blob_json(x.deep_view())->Obj_0);
            j
        },
    }
}

/// The value that `m` is written as: that of its variant.
pub open spec fn items_json(m: LexItemsModel) -> JsonValue {
    match m {
        LexItemsModel::Primitive(x) => primitive_json(x),
        LexItemsModel::IpldType(x) => ipld_json(x),
        LexItemsModel::Blob(x) => blob_json(x),
        LexItemsModel::RefVariant(x) => ref_variant_json(x),
    }
}

/// What is written is an object with the tag of the variant.
pub proof fn lemma_items_shape(m: LexItemsModel)
    ensures
        items_json(m) is Obj,
        tag_of(items_json(m)) is Ok,
        m is Primitive ==> (tag_of(items_json(m)) == Ok::<Kind, Failure>(Kind::Boolean) || tag_of(items_json(m)) == Ok::<Kind, Failure>(Kind::Integer) || tag_of(items_json(m)) == Ok::<Kind, Failure>(Kind::String) || tag_of(items_json(m)) == Ok::<Kind, Failure>(Kind::Unknown)),
        m is IpldType ==> (tag_of(items_json(m)) == Ok::<Kind, Failure>(Kind::Bytes) || tag_of(items_json(m)) == Ok::<Kind, Failure>(Kind::CidLink)),
        m is Blob ==> tag_of(items_json(m)) == Ok::<Kind, Failure>(Kind::Blob),
        m is RefVariant ==> (tag_of(items_json(m)) == Ok::<Kind, Failure>(Kind::Ref) || tag_of(items_json(m)) == Ok::<Kind, Failure>(Kind::Union)),
{
    match m {
        LexItemsModel::Primitive(x) => {
            lemma_primitive_shape(x);
        },
        LexItemsModel::IpldType(x) => {
            lemma_ipld_shape(x);
        },
        LexItemsModel::Blob(x) => {
            lemma_blob_shape(x);
        },
        LexItemsModel::RefVariant(x) => {
            lemma_ref_variant_shape(x);
        },
    }
}

/// Reading what was written gives `m` back.
pub proof fn lemma_items_round(m: LexItemsModel)
    ensures
        items_of(items_json(m)) == Ok::<LexItemsModel, Failure>(m),
{
    lemma_items_shape(m);
    match m {
        LexItemsModel::Primitive(x) => {
            lemma_primitive_shape(x);
            lemma_primitive_round(x);
        },
        LexItemsModel::IpldType(x) => {
            lemma_ipld_shape(x);
            lemma_ipld_round(x);
        },
        LexItemsModel::Blob(x) => {
            lemma_blob_shape(x);
            lemma_blob_round(x);
        },
        LexItemsModel::RefVariant(x) => {
            lemma_ref_variant_shape(x);
            lemma_ref_variant_round(x);
        },
    }
}

/// Writes `x` as a JSON value.
pub fn encode_items(x: &LexItems) -> (j: Json)
    ensures
        j@ == items_json(x.deep_view()),
{
    match x {
        LexItems::Primitive(v) => encode_primitive(v),
        LexItems::IpldType(v) => encode_ipld(v),
        LexItems::Blob(v) => encode_blob(v),
        LexItems::RefVariant(v) => encode_ref_variant(v),
    }
}

/// The value that `m` is written as: an object with every field.
pub open spec fn array_json(m: LexArrayModel) -> JsonValue {
    JsonValue::Obj(
        seq![
            tag_member(Kind::Array),
            member("description"@, opt_text_json(m.description)),
            member("items"@, items_json(m.items)),
            member("minLength"@, opt_int_json(m.min_length)),
            member("maxLength"@, opt_int_json(m.max_length)),
        ],
    )
}

/// The keys of this record are pairwise different.
pub proof fn lemma_array_keys()
    ensures
        "type"@ != "description"@,
        "type"@ != "items"@,
        "type"@ != "minLength"@,
        "type"@ != "maxLength"@,
        "description"@ != "items"@,
        "description"@ != "minLength"@,
        "description"@ != "maxLength"@,
        "items"@ != "minLength"@,
        "items"@ != "maxLength"@,
        "minLength"@ != "maxLength"@,
{
    lemma_spelled_type();
    lemma_spelled_description();
    lemma_spelled_items();
    lemma_spelled_min_length();
    lemma_spelled_max_length();
}

/// What is written is an object with the tag of its kind.
pub proof fn lemma_array_shape(m: LexArrayModel)
    ensures
        array_json(m) is Obj,
        tag_of(array_json(m)) == Ok::<Kind, Failure>(Kind::Array),
{
    lemma_array_keys();
    lemma_kind_word(Kind::Array);
    lemma_lookup_at(array_json(m)->Obj_0, "type"@, 0, 0);
}

/// Reading what was written gives `m` back.
pub proof fn lemma_array_round(m: LexArrayModel)
    ensures
        array_of(array_json(m)) == Ok::<LexArrayModel, Failure>(m),
{
    reveal(array_of);
    lemma_array_keys();
    lemma_array_shape(m);
    let entries = array_json(m)->Obj_0;
    lemma_lookup_at(entries, "description"@, 1, 0);
    lemma_lookup_at(entries, "items"@, 2, 0);
    lemma_lookup_at(entries, "minLength"@, 3, 0);
    lemma_lookup_at(entries, "maxLength"@, 4, 0);
    lemma_items_round(m.items);
}

/// Writes `x` as a JSON value.
pub fn encode_array(x: &LexArray) -> (j: Json)
    ensures
        j@ == array_json(x.deep_view()),
{
    match x {
        LexArray::Array { description, items, min_length, max_length } => {
            let mut entries: Vec<(String, Json)> = Vec::new();
            entries.push((String::from_str("type"), Json::Str(String::from_str("array"))));
            entries.push((String::from_str("description"), enc_opt_text(description)));
            entries.push((String::from_str("items"), encode_items(items)));
            entries.push((String::from_str("minLength"), enc_opt_int(min_length)));
            entries.push((String::from_str("maxLength"), enc_opt_int(max_length)));
            proof {
                lemma_view_obj(entries);
            }
            let j = Json::Obj(entries);
            assert(j@->Obj_0 =~= array_json(x.deep_view())->Obj_0);
            j
        },
    }
}

/// The value that `m` is written as: an object with every field.
pub open spec fn primitive_array_json(m: LexPrimitiveArrayModel) -> JsonValue {
    JsonValue::Obj(
        seq![
            tag_member(Kind::Array),
            member("description"@, opt_text_json(m.description)),
            member("items"@, primitive_json(m.items)),
            member("minLength"@, opt_int_json(m.min_length)),
            member("maxLength"@, opt_int_json(m.max_length)),
        ],
    )
}

/// The keys of this record are pairwise different.
pub proof fn lemma_primitive_array_keys()
    ensures
        "type"@ != "description"@,
        "type"@ != "items"@,
        "type"@ != "minLength"@,
        "type"@ != "maxLength"@,
        "description"@ != "items"@,
        "description"@ != "minLength"@,
        "description"@ != "maxLength"@,
        "items"@ != "minLength"@,
        "items"@ != "maxLength"@,
        "minLength"@ != "maxLength"@,
{
    lemma_spelled_type();
    lemma_spelled_description();
    lemma_spelled_items();
    lemma_spelled_min_length();
    lemma_spelled_max_length();
}

/// What is written is an object with the tag of its kind.
pub proof fn lemma_primitive_array_shape(m: LexPrimitiveArrayModel)
    ensures
        primitive_array_json(m) is Obj,
        tag_of(primitive_array_json(m)) == Ok::<Kind, Failure>(Kind::Array),
{
    lemma_primitive_array_keys();
    lemma_kind_word(Kind::Array);
    lemma_lookup_at(primitive_array_json(m)->Obj_0, "type"@, 0, 0);
}

/// Reading what was written gives `m` back.
pub proof fn lemma_primitive_array_round(m: LexPrimitiveArrayModel)
    ensures
        primitive_array_of(primitive_array_json(m)) == Ok::<LexPrimitiveArrayModel, Failure>(m),
{
    reveal(primitive_array_of);
    lemma_primitive_array_keys();
    lemma_primitive_array_shape(m);
    let entries = primitive_array_json(m)->Obj_0;
    lemma_lookup_at(entries, "description"@, 1, 0);
    lemma_lookup_at(entries, "items"@, 2, 0);
    lemma_lookup_at(entries, "minLength"@, 3, 0);
    lemma_lookup_at(entries, "maxLength"@, 4, 0);
    lemma_primitive_round(m.items);
}

/// Writes `x` as a JSON value.
pub fn encode_primitive_array(x: &LexPrimitiveArray) -> (j: Json)
    ensures
        j@ == primitive_array_json(x.deep_view()),
{
    match x {
        LexPrimitiveArray::Array { description, items, min_length, max_length } => {
            let mut entries: Vec<(String, Json)> = Vec::new();
            entries.push((String::from_str("type"), Json::Str(String::from_str("array"))));
            entries.push((String::from_str("description"), enc_opt_text(description)));
            entries.push((String::from_str("items"), encode_primitive(items)));
            entries.push((String::from_str("minLength"), enc_opt_int(min_length)));
            entries.push((String::from_str("maxLength"), enc_opt_int(max_length)));
            proof {
                lemma_view_obj(entries);
            }
            let j = Json::Obj(entries);
            assert(j@->Obj_0 =~= primitive_array_json(x.deep_view())->Obj_0);
            j
        },
    }
}

/// The value that `m` is written as: an object with every field.
pub open spec fn token_json(m: LexTokenModel) -> JsonValue {
    JsonValue::Obj(
        seq![
            tag_member(Kind::Token),
            member("description"@, opt_text_json(m.description)),
        ],
    )
}

/// The keys of this record are pairwise different.
pub proof fn lemma_token_keys()
    ensures
        "type"@ != "description"@,
{
    lemma_spelled_type();
    lemma_spelled_description();
}

/// What is written is an object with the tag of its kind.
pub proof fn lemma_token_shape(m: LexTokenModel)
    ensures
        token_json(m) is Obj,
        tag_of(token_json(m)) == Ok::<Kind, Failure>(Kind::Token),
{
    lemma_token_keys();
    lemma_kind_word(Kind::Token);
    lemma_lookup_at(token_json(m)->Obj_0, "type"@, 0, 0);
}

/// Reading what was written gives `m` back.
pub proof fn lemma_token_round(m: LexTokenModel)
    ensures
        token_of(token_json(m)) == Ok::<LexTokenModel, Failure>(m),
{
    reveal(token_of);
    lemma_token_keys();
    lemma_token_shape(m);
    let entries = token_json(m)->Obj_0;
    lemma_lookup_at(entries, "description"@, 1, 0);
}

/// Writes `x` as a JSON value.
pub fn encode_token(x: &LexToken) -> (j: Json)
    ensures
        j@ == token_json(x.deep_view()),
{
    match x {
        LexToken::Token { description } => {
            let mut entries: Vec<(String, Json)> = Vec::new();
            entries.push((String::from_str("type"), Json::Str(String::from_str("token"))));
            entries.push((String::from_str("description"), enc_opt_text(description)));
            proof {
                lemma_view_obj(entries);
            }
            let j = Json::Obj(entries);
            assert(j@->Obj_0 =~= token_json(x.deep_view())->Obj_0);
            j
        },
    }
}

/// The value that `m` is written as: that of its variant.
pub open spec fn property_json(m: LexPropertyModel) -> JsonValue {
    match m {
        LexPropertyModel::RefVariant(x) => ref_variant_json(x),
        LexPropertyModel::IpldType(x) => ipld_json(x),
        LexPropertyModel::Array(x) => array_json(x),
        LexPropertyModel::Blob(x) => blob_json(x),
        LexPropertyModel::Primitive(x) => primitive_json(x),
    }
}

/// What is written is an object with the tag of the variant.
pub proof fn lemma_property_shape(m: LexPropertyModel)
    ensures
        property_json(m) is Obj,
        tag_of(property_json(m)) is Ok,
        m is RefVariant ==> (tag_of(property_json(m)) == Ok::<Kind, Failure>(Kind::Ref) || tag_of(property_json(m)) == Ok::<Kind, Failure>(Kind::Union)),
        m is IpldType ==> (tag_of(property_json(m)) == Ok::<Kind, Failure>(Kind::Bytes) || tag_of(property_json(m)) == Ok::<Kind, Failure>(Kind::CidLink)),
        m is Array ==> tag_of(property_json(m)) == Ok::<Kind, Failure>(Kind::Array),
        m is Blob ==> tag_of(property_json(m)) == Ok::<Kind, Failure>(Kind::Blob),
        m is Primitive ==> (tag_of(property_json(m)) == Ok::<Kind, Failure>(Kind::Boolean) || tag_of(property_json(m)) == Ok::<Kind, Failure>(Kind::Integer) || tag_of(property_json(m)) == Ok::<Kind, Failure>(Kind::String) || tag_of(property_json(m)) == Ok::<Kind, Failure>(Kind::Unknown)),
{
    match m {
        LexPropertyModel::RefVariant(x) => {
            lemma_ref_variant_shape(x);
        },
        LexPropertyModel::IpldType(x) => {
            lemma_ipld_shape(x);
        },
        LexPropertyModel::Array(x) => {
            lemma_array_shape(x);
        },
        LexPropertyModel::Blob(x) => {
            lemma_blob_shape(x);
        },
        LexPropertyModel::Primitive(x) => {
            lemma_primitive_shape(x);
        },
    }
}

/// Reading what was written gives `m` back.
pub proof fn lemma_property_round(m: LexPropertyModel)
    ensures
        property_of(property_json(m)) == Ok::<LexPropertyModel, Failure>(m),
{
    lemma_property_shape(m);
    match m {
        LexPropertyModel::RefVariant(x) => {
            lemma_ref_variant_shape(x);
            lemma_ref_variant_round(x);
        },
        LexPropertyModel::IpldType(x) => {
            lemma_ipld_shape(x);
            lemma_ipld_round(x);
        },
        LexPropertyModel::Array(x) => {
            lemma_array_shape(x);
            lemma_array_round(x);
        },
        LexPropertyModel::Blob(x) => {
            lemma_blob_shape(x);
            lemma_blob_round(x);
        },
        LexPropertyModel::Primitive(x) => {
            lemma_primitive_shape(x);
            lemma_primitive_round(x);
        },
    }
}

/// Writes `x` as a JSON value.
pub fn encode_property(x: &LexProperty) -> (j: Json)
    ensures
        j@ == property_json(x.deep_view()),
{
    match x {
        LexProperty::RefVariant(v) => encode_ref_variant(v),
        LexProperty::IpldType(v) => encode_ipld(v),
        LexProperty::Array(v) => encode_array(v),
        LexProperty::Blob(v) => encode_blob(v),
        LexProperty::Primitive(v) => encode_primitive(v),
    }
}

/// The value that a map is written as: an object with one entry for each
/// name, in order.
pub open spec fn properties_json(entries: Seq<NamedModel<LexPropertyModel>>) -> JsonValue {
    JsonValue::Obj(
        Seq::new(
            entries.len(),
            |i: int| Member { key: entries[i].name, value: property_json(entries[i].value) },
        ),
    )
}

/// Whether `entries` is well formed: no name twice.
pub open spec fn properties_well_formed(entries: Seq<NamedModel<LexPropertyModel>>) -> bool {
    &&& distinct_names(entries)
}

/// What is written is an object.
pub proof fn lemma_properties_shape(entries: Seq<NamedModel<LexPropertyModel>>)
    ensures
        properties_json(entries) is Obj,
{
}

/// Reading the first `n` entries written gives the first `n` entries back.
pub proof fn lemma_properties_round_upto(entries: Seq<NamedModel<LexPropertyModel>>, n: int)
    requires
        properties_well_formed(entries),
        0 <= n <= entries.len(),
    ensures
        properties_upto(properties_json(entries)->Obj_0, n) == Ok::<Seq<NamedModel<LexPropertyModel>>, Failure>(entries.subrange(0, n)),
    decreases n,
{
    let members = properties_json(entries)->Obj_0;
    if n > 0 {
        lemma_properties_round_upto(entries, n - 1);
        lemma_property_round(entries[n - 1].value);
        assert(!key_before(members, n - 1)) by {
            if key_before(members, n - 1) {
                let k = choose|k: int| 0 <= k < n - 1 && (#[trigger] members[k]).key == members[n - 1].key;
                assert(entries[k].name != entries[n - 1].name);
            }
        }
        assert(entries.subrange(0, n) =~= entries.subrange(0, n - 1).push(entries[n - 1]));
    } else {
        assert(entries.subrange(0, 0) =~= Seq::<NamedModel<LexPropertyModel>>::empty());
    }
}

/// Reading what was written gives the entries back.
pub proof fn lemma_properties_round(entries: Seq<NamedModel<LexPropertyModel>>)
    requires
        properties_well_formed(entries),
    ensures
        properties_of(properties_json(entries)) == Ok::<Seq<NamedModel<LexPropertyModel>>, Failure>(entries),
{
    lemma_properties_round_upto(entries, entries.len() as int);
    assert(entries.subrange(0, entries.len() as int) =~= entries);
}

/// The entries read have the keys of the object, none twice.
pub proof fn lemma_properties_sound_upto(members: Seq<Member>, n: int)
    requires
        0 <= n <= members.len(),
    ensures
        properties_upto(members, n) matches Ok(s) ==> s.len() == n && properties_well_formed(s) && (forall|i: int|
            0 <= i < n ==> (#[trigger] s[i]).name == members[i].key),
    decreases n,
{
    if n > 0 {
        lemma_properties_sound_upto(members, n - 1);
        if properties_upto(members, n) is Ok {
            let before = properties_upto(members, n - 1)->Ok_0;
            let s = properties_upto(members, n)->Ok_0;
            assert(!key_before(members, n - 1));
            assert forall|i: int, j: int| 0 <= i < j < s.len() implies (#[trigger] s[i]).name != (
            #[trigger] s[j]).name by {
                if j == n - 1 {
                    assert(before[i].name == members[i].key);
                    assert(members[i].key != members[n - 1].key);
                } else {
                    assert(before[i].name != before[j].name);
                }
            }
        }
    }
}

/// What was read is a list that reading can give.
pub proof fn lemma_properties_sound(j: JsonValue)
    ensures
        properties_of(j) matches Ok(s) ==> properties_well_formed(s),
{
    if let JsonValue::Obj(members) = j {
        lemma_properties_sound_upto(members, members.len() as int);
    }
}

/// Writes a map as a JSON object.
pub fn encode_properties(entries: &Vec<Named<LexProperty>>) -> (j: Json)
    ensures
        j@ == properties_json(entries.deep_view()),
{
    let ghost models = entries.deep_view();
    let mut out: Vec<(String, Json)> = Vec::new();
    let mut i: usize = 0;
    while i < entries.len()
        invariant
            i <= entries.len(),
            models == entries.deep_view(),
            models.len() == entries.len(),
            out.len() == i,
            forall|k: int|
                0 <= k < i ==> (#[trigger] out[k]).0@ == models[k].name && out[k].1@ == property_json(
                    models[k].value,
                ),
        decreases entries.len() - i,
    {
        assert(models[i as int] == entries[i as int].deep_view());
        out.push((entries[i].name.clone(), encode_property(&entries[i].value)));
        i += 1;
    }
    proof {
        lemma_view_obj(out);
    }
    let j = Json::Obj(out);
    assert(j@->Obj_0 =~= properties_json(models)->Obj_0);
    j
}

/// The value written for a field that may be left out: `null` for none.
pub open spec fn opt_properties_json(o: Option<Seq<NamedModel<LexPropertyModel>>>) -> JsonValue {
    match o {
        None => JsonValue::Null,
        Some(v) => properties_json(v),
    }
}

/// Whether the value, if there is one, is well formed.
pub open spec fn opt_properties_well_formed(o: Option<Seq<NamedModel<LexPropertyModel>>>) -> bool {
    match o {
        None => true,
        Some(v) => properties_well_formed(v),
    }
}

/// Reading what was written for a field gives the field back.
pub proof fn lemma_opt_properties_round(o: Option<Seq<NamedModel<LexPropertyModel>>>)
    requires
        opt_properties_well_formed(o),
    ensures
        o matches Some(v) ==> properties_of(opt_properties_json(o)) == Ok::<Seq<NamedModel<LexPropertyModel>>, Failure>(v),
        o is Some ==> opt_properties_json(o) != JsonValue::Null,
{
    if let Some(v) = o {
        lemma_properties_round(v);
        lemma_properties_shape(v);
    }
}

fn enc_opt_properties(o: &Option<Vec<Named<LexProperty>>>) -> (j: Json)
    ensures
        j@ == opt_properties_json(o.deep_view()),
{
    match o {
        None => Json::Null,
        Some(v) => encode_properties(v),
    }
}

/// The value that `m` is written as: an object with every field.
pub open spec fn object_json(m: LexObjectModel) -> JsonValue {
    JsonValue::Obj(
        seq![
            tag_member(Kind::Object),
            member("description"@, opt_text_json(m.description)),
            member("required"@, opt_texts_json(m.required)),
            member("nullable"@, opt_texts_json(m.nullable)),
            member("properties"@, opt_properties_json(m.properties)),
        ],
    )
}

/// Whether `m` is well formed: a value that reading can give.
pub open spec fn object_well_formed(m: LexObjectModel) -> bool {
    &&& opt_properties_well_formed(m.properties)
    &&& names_known(m.required, m.properties)
    &&& names_known(m.nullable, m.properties)
}

/// The keys of this record are pairwise different.
pub proof fn lemma_object_keys()
    ensures
        "type"@ != "description"@,
        "type"@ != "required"@,
        "type"@ != "nullable"@,
        "type"@ != "properties"@,
        "description"@ != "required"@,
        "description"@ != "nullable"@,
        "description"@ != "properties"@,
        "required"@ != "nullable"@,
        "required"@ != "properties"@,
        "nullable"@ != "properties"@,
{
    lemma_spelled_type();
    lemma_spelled_description();
    lemma_spelled_required();
    lemma_spelled_nullable();
    lemma_spelled_properties();
}

/// What is written is an object with the tag of its kind.
pub proof fn lemma_object_shape(m: LexObjectModel)
    ensures
        object_json(m) is Obj,
        tag_of(object_json(m)) == Ok::<Kind, Failure>(Kind::Object),
{
    lemma_object_keys();
    lemma_kind_word(Kind::Object);
    lemma_lookup_at(object_json(m)->Obj_0, "type"@, 0, 0);
}

/// Reading what was written gives `m` back.
pub proof fn lemma_object_round(m: LexObjectModel)
    requires
        object_well_formed(m),
    ensures
        object_of(object_json(m)) == Ok::<LexObjectModel, Failure>(m),
{
    reveal(object_of);
    lemma_object_keys();
    lemma_object_shape(m);
    let entries = object_json(m)->Obj_0;
    lemma_lookup_at(entries, "description"@, 1, 0);
    lemma_lookup_at(entries, "required"@, 2, 0);
    lemma_lookup_at(entries, "nullable"@, 3, 0);
    lemma_lookup_at(entries, "properties"@, 4, 0);
    lemma_opt_texts_round(m.required);
    lemma_opt_texts_round(m.nullable);
    lemma_opt_properties_round(m.properties);
}

/// What was read is a value that reading can give.
pub proof fn lemma_object_sound(j: JsonValue)
    ensures
        object_of(j) matches Ok(m) ==> object_well_formed(m),
{
    reveal(object_of);
    lemma_properties_sound(child(j, "properties"@));
}

/// Writes `x` as a JSON value.
pub fn encode_object(x: &LexObject) -> (j: Json)
    ensures
        j@ == object_json(x.deep_view()),
{
    match x {
        LexObject::Object { description, required, nullable, properties } => {
            let mut entries: Vec<(String, Json)> = Vec::new();
            entries.push((String::from_str("type"), Json::Str(String::from_str("object"))));
            entries.push((String::from_str("description"), enc_opt_text(description)));
            entries.push((String::from_str("required"), enc_opt_texts(required)));
            entries.push((String::from_str("nullable"), enc_opt_texts(nullable)));
            entries.push((String::from_str("properties"), enc_opt_properties(properties)));
            proof {
                lemma_view_obj(entries);
            }
            let j = Json::Obj(entries);
            assert(j@->Obj_0 =~= object_json(x.deep_view())->Obj_0);
            j
        },
    }
}

/// The value that `m` is written as: that of its variant.
pub open spec fn parameter_json(m: LexXrpcParameterModel) -> JsonValue {
    match m {
        LexXrpcParameterModel::Primitive(x) => primitive_json(x),
        LexXrpcParameterModel::PrimitiveArray(x) => primitive_array_json(x),
    }
}

/// What is written is an object with the tag of the variant.
pub proof fn lemma_parameter_shape(m: LexXrpcParameterModel)
    ensures
        parameter_json(m) is Obj,
        tag_of(parameter_json(m)) is Ok,
        m is Primitive ==> (tag_of(parameter_json(m)) == Ok::<Kind, Failure>(Kind::Boolean) || tag_of(parameter_json(m)) == Ok::<Kind, Failure>(Kind::Integer) || tag_of(parameter_json(m)) == Ok::<Kind, Failure>(Kind::String) || tag_of(parameter_json(m)) == Ok::<Kind, Failure>(Kind::Unknown)),
        m is PrimitiveArray ==> tag_of(parameter_json(m)) == Ok::<Kind, Failure>(Kind::Array),
{
    match m {
        LexXrpcParameterModel::Primitive(x) => {
            lemma_primitive_shape(x);
        },
        LexXrpcParameterModel::PrimitiveArray(x) => {
            lemma_primitive_array_shape(x);
        },
    }
}

/// Reading what was written gives `m` back.
pub proof fn lemma_parameter_round(m: LexXrpcParameterModel)
    ensures
        parameter_of(parameter_json(m)) == Ok::<LexXrpcParameterModel, Failure>(m),
{
    lemma_parameter_shape(m);
    match m {
        LexXrpcParameterModel::Primitive(x) => {
            lemma_primitive_shape(x);
            lemma_primitive_round(x);
        },
        LexXrpcParameterModel::PrimitiveArray(x) => {
            lemma_primitive_array_shape(x);
            lemma_primitive_array_round(x);
        },
    }
}

/// Writes `x` as a JSON value.
pub fn encode_parameter(x: &LexXrpcParameter) -> (j: Json)
    ensures
        j@ == parameter_json(x.deep_view()),
{
    match x {
        LexXrpcParameter::Primitive(v) => encode_primitive(v),
        LexXrpcParameter::PrimitiveArray(v) => encode_primitive_array(v),
    }
}

/// The value that a map is written as: an object with one entry for each
/// name, in order.
pub open spec fn parameters_json(entries: Seq<NamedModel<LexXrpcParameterModel>>) -> JsonValue {
    JsonValue::Obj(
        Seq::new(
            entries.len(),
            |i: int| Member { key: entries[i].name, value: parameter_json(entries[i].value) },
        ),
    )
}

/// Whether `entries` is well formed: no name twice.
pub open spec fn parameters_well_formed(entries: Seq<NamedModel<LexXrpcParameterModel>>) -> bool {
    &&& distinct_names(entries)
}

/// Reading the first `n` entries written gives the first `n` entries back.
pub proof fn lemma_parameters_round_upto(entries: Seq<NamedModel<LexXrpcParameterModel>>, n: int)
    requires
        parameters_well_formed(entries),
        0 <= n <= entries.len(),
    ensures
        parameters_upto(parameters_json(entries)->Obj_0, n) == Ok::<Seq<NamedModel<LexXrpcParameterModel>>, Failure>(entries.subrange(0, n)),
    decreases n,
{
    let members = parameters_json(entries)->Obj_0;
    if n > 0 {
        lemma_parameters_round_upto(entries, n - 1);
        lemma_parameter_round(entries[n - 1].value);
        assert(!key_before(members, n - 1)) by {
            if key_before(members, n - 1) {
                let k = choose|k: int| 0 <= k < n - 1 && (#[trigger] members[k]).key == members[n - 1].key;
                assert(entries[k].name != entries[n - 1].name);
            }
        }
        assert(entries.subrange(0, n) =~= entries.subrange(0, n - 1).push(entries[n - 1]));
    } else {
        assert(entries.subrange(0, 0) =~= Seq::<NamedModel<LexXrpcParameterModel>>::empty());
    }
}

/// Reading what was written gives the entries back.
pub proof fn lemma_parameters_round(entries: Seq<NamedModel<LexXrpcParameterModel>>)
    requires
        parameters_well_formed(entries),
    ensures
        parameters_of(parameters_json(entries)) == Ok::<Seq<NamedModel<LexXrpcParameterModel>>, Failure>(entries),
{
    lemma_parameters_round_upto(entries, entries.len() as int);
    assert(entries.subrange(0, entries.len() as int) =~= entries);
}

/// The entries read have the keys of the object, none twice.
pub proof fn lemma_parameters_sound_upto(members: Seq<Member>, n: int)
    requires
        0 <= n <= members.len(),
    ensures
        parameters_upto(members, n) matches Ok(s) ==> s.len() == n && parameters_well_formed(s) && (forall|i: int|
            0 <= i < n ==> (#[trigger] s[i]).name == members[i].key),
    decreases n,
{
    if n > 0 {
        lemma_parameters_sound_upto(members, n - 1);
        if parameters_upto(members, n) is Ok {
            let before = parameters_upto(members, n - 1)->Ok_0;
            let s = parameters_upto(members, n)->Ok_0;
            assert(!key_before(members, n - 1));
            assert forall|i: int, j: int| 0 <= i < j < s.len() implies (#[trigger] s[i]).name != (
            #[trigger] s[j]).name by {
                if j == n - 1 {
                    assert(before[i].name == members[i].key);
                    assert(members[i].key != members[n - 1].key);
                } else {
                    assert(before[i].name != before[j].name);
                }
            }
        }
    }
}

/// What was read is a list that reading can give.
pub proof fn lemma_parameters_sound(j: JsonValue)
    ensures
        parameters_of(j) matches Ok(s) ==> parameters_well_formed(s),
{
    if let JsonValue::Obj(members) = j {
        lemma_parameters_sound_upto(members, members.len() as int);
    }
}

/// Writes a map as a JSON object.
pub fn encode_parameters(entries: &Vec<Named<LexXrpcParameter>>) -> (j: Json)
    ensures
        j@ == parameters_json(entries.deep_view()),
{
    let ghost models = entries.deep_view();
    let mut out: Vec<(String, Json)> = Vec::new();
    let mut i: usize = 0;
    while i < entries.len()
        invariant
            i <= entries.len(),
            models == entries.deep_view(),
            models.len() == entries.len(),
            out.len() == i,
            forall|k: int|
                0 <= k < i ==> (#[trigger] out[k]).0@ == models[k].name && out[k].1@ == parameter_json(
                    models[k].value,
                ),
        decreases entries.len() - i,
    {
        assert(models[i as int] == entries[i as int].deep_view());
        out.push((entries[i].name.clone(), encode_parameter(&entries[i].value)));
        i += 1;
    }
    proof {
        lemma_view_obj(out);
    }
    let j = Json::Obj(out);
    assert(j@->Obj_0 =~= parameters_json(models)->Obj_0);
    j
}

/// The value that `m` is written as: an object with every field.
pub open spec fn params_json(m: LexXrpcParametersModel) -> JsonValue {
    JsonValue::Obj(
        seq![
            tag_member(Kind::Params),
            member("description"@, opt_text_json(m.description)),
            member("required"@, opt_texts_json(m.required)),
            member("properties"@, parameters_json(m.properties)),
        ],
    )
}

/// Whether `m` is well formed: a value that reading can give.
pub open spec fn params_well_formed(m: LexXrpcParametersModel) -> bool {
    &&& parameters_well_formed(m.properties)
}

/// The keys of this record are pairwise different.
pub proof fn lemma_params_keys()
    ensures
        "type"@ != "description"@,
        "type"@ != "required"@,
        "type"@ != "properties"@,
        "description"@ != "required"@,
        "description"@ != "properties"@,
        "required"@ != "properties"@,
{
    lemma_spelled_type();
    lemma_spelled_description();
    lemma_spelled_required();
    lemma_spelled_properties();
}

/// What is written is an object with the tag of its kind.
pub proof fn lemma_params_shape(m: LexXrpcParametersModel)
    ensures
        params_json(m) is Obj,
        tag_of(params_json(m)) == Ok::<Kind, Failure>(Kind::Params),
{
    lemma_params_keys();
    lemma_kind_word(Kind::Params);
    lemma_lookup_at(params_json(m)->Obj_0, "type"@, 0, 0);
}

/// Reading what was written gives `m` back.
pub proof fn lemma_params_round(m: LexXrpcParametersModel)
    requires
        params_well_formed(m),
    ensures
        params_of(params_json(m)) == Ok::<LexXrpcParametersModel, Failure>(m),
{
    reveal(params_of);
    lemma_params_keys();
    lemma_params_shape(m);
    let entries = params_json(m)->Obj_0;
    lemma_lookup_at(entries, "description"@, 1, 0);
    lemma_lookup_at(entries, "required"@, 2, 0);
    lemma_lookup_at(entries, "properties"@, 3, 0);
    lemma_opt_texts_round(m.required);
    lemma_parameters_round(m.properties);
}

/// What was read is a value that reading can give.
pub proof fn lemma_params_sound(j: JsonValue)
    ensures
        params_of(j) matches Ok(m) ==> params_well_formed(m),
{
    reveal(params_of);
    lemma_parameters_sound(child(j, "properties"@));
}

/// Writes `x` as a JSON value.
pub fn encode_params(x: &LexXrpcParameters) -> (j: Json)
    ensures
        j@ == params_json(x.deep_view()),
{
    match x {
        LexXrpcParameters::Params { description, required, properties } => {
            let mut entries: Vec<(String, Json)> = Vec::new();
            entries.push((String::from_str("type"), Json::Str(String::from_str("params"))));
            entries.push((String::from_str("description"), enc_opt_text(description)));
            entries.push((String::from_str("required"), enc_opt_texts(required)));
            entries.push((String::from_str("properties"), encode_parameters(properties)));
            proof {
                lemma_view_obj(entries);
            }
            let j = Json::Obj(entries);
            assert(j@->Obj_0 =~= params_json(x.deep_view())->Obj_0);
            j
        },
    }
}

/// The value written for a field that may be left out: `null` for none.
pub open spec fn opt_params_json(o: Option<LexXrpcParametersModel>) -> JsonValue {
    match o {
        None => JsonValue::Null,
        Some(v) => params_json(v),
    }
}

/// Whether the value, if there is one, is well formed.
pub open spec fn opt_params_well_formed(o: Option<LexXrpcParametersModel>) -> bool {
    match o {
        None => true,
        Some(v) => params_well_formed(v),
    }
}

/// Reading what was written for a field gives the field back.
pub proof fn lemma_opt_params_round(o: Option<LexXrpcParametersModel>)
    requires
        opt_params_well_formed(o),
    ensures
        o matches Some(v) ==> params_of(opt_params_json(o)) == Ok::<LexXrpcParametersModel, Failure>(v),
        o is Some ==> opt_params_json(o) != JsonValue::Null,
{
    if let Some(v) = o {
        lemma_params_round(v);
        lemma_params_shape(v);
    }
}

fn enc_opt_params(o: &Option<LexXrpcParameters>) -> (j: Json)
    ensures
        j@ == opt_params_json(o.deep_view()),
{
    match o {
        None => Json::Null,
        Some(v) => encode_params(v),
    }
}

/// The value that `m` is written as: that of its variant.
pub open spec fn body_schema_json(m: LexXrpcBodySchemaModel) -> JsonValue {
    match m {
        LexXrpcBodySchemaModel::RefVariant(x) => ref_variant_json(x),
        LexXrpcBodySchemaModel::Object(x) => object_json(x),
    }
}

/// Whether `m` is well formed: a value that reading can give.
pub open spec fn body_schema_well_formed(m: LexXrpcBodySchemaModel) -> bool {
    match m {
        LexXrpcBodySchemaModel::RefVariant(_) => true,
        LexXrpcBodySchemaModel::Object(x) => object_well_formed(x),
    }
}

/// What is written is an object with the tag of the variant.
pub proof fn lemma_body_schema_shape(m: LexXrpcBodySchemaModel)
    ensures
        body_schema_json(m) is Obj,
        tag_of(body_schema_json(m)) is Ok,
        m is RefVariant ==> (tag_of(body_schema_json(m)) == Ok::<Kind, Failure>(Kind::Ref) || tag_of(body_schema_json(m)) == Ok::<Kind, Failure>(Kind::Union)),
        m is Object ==> tag_of(body_schema_json(m)) == Ok::<Kind, Failure>(Kind::Object),
{
    match m {
        LexXrpcBodySchemaModel::RefVariant(x) => {
            lemma_ref_variant_shape(x);
        },
        LexXrpcBodySchemaModel::Object(x) => {
            lemma_object_shape(x);
        },
    }
}

/// Reading what was written gives `m` back.
pub proof fn lemma_body_schema_round(m: LexXrpcBodySchemaModel)
    requires
        body_schema_well_formed(m),
    ensures
        body_schema_of(body_schema_json(m)) == Ok::<LexXrpcBodySchemaModel, Failure>(m),
{
    lemma_body_schema_shape(m);
    match m {
        LexXrpcBodySchemaModel::RefVariant(x) => {
            lemma_ref_variant_shape(x);
            lemma_ref_variant_round(x);
        },
        LexXrpcBodySchemaModel::Object(x) => {
            lemma_object_shape(x);
            lemma_object_round(x);
        },
    }
}

/// What was read is a value that reading can give.
pub proof fn lemma_body_schema_sound(j: JsonValue)
    ensures
        body_schema_of(j) matches Ok(m) ==> body_schema_well_formed(m),
{
    lemma_object_sound(j);
}

/// Writes `x` as a JSON value.
pub fn encode_body_schema(x: &LexXrpcBodySchema) -> (j: Json)
    ensures
        j@ == body_schema_json(x.deep_view()),
{
    match x {
        LexXrpcBodySchema::RefVariant(v) => encode_ref_variant(v),
        LexXrpcBodySchema::Object(v) => encode_object(v),
    }
}

/// The value written for a field that may be left out: `null` for none.
pub open spec fn opt_body_schema_json(o: Option<LexXrpcBodySchemaModel>) -> JsonValue {
    match o {
        None => JsonValue::Null,
        Some(v) => body_schema_json(v),
    }
}

/// Whether the value, if there is one, is well formed.
pub open spec fn opt_body_schema_well_formed(o: Option<LexXrpcBodySchemaModel>) -> bool {
    match o {
        None => true,
        Some(v) => body_schema_well_formed(v),
    }
}

/// Reading what was written for a field gives the field back.
pub proof fn lemma_opt_body_schema_round(o: Option<LexXrpcBodySchemaModel>)
    requires
        opt_body_schema_well_formed(o),
    ensures
        o matches Some(v) ==> body_schema_of(opt_body_schema_json(o)) == Ok::<LexXrpcBodySchemaModel, Failure>(v),
        o is Some ==> opt_body_schema_json(o) != JsonValue::Null,
{
    if let Some(v) = o {
        lemma_body_schema_round(v);
        lemma_body_schema_shape(v);
    }
}

fn enc_opt_body_schema(o: &Option<LexXrpcBodySchema>) -> (j: Json)
    ensures
        j@ == opt_body_schema_json(o.deep_view()),
{
    match o {
        None => Json::Null,
        Some(v) => encode_body_schema(v),
    }
}

/// The value that `m` is written as: an object with every field.
pub open spec fn body_json(m: LexXrpcBodyModel) -> JsonValue {
    JsonValue::Obj(
        seq![
            member("description"@, opt_text_json(m.description)),
            member("encoding"@, JsonValue::Str(m.encoding)),
            member("schema"@, opt_body_schema_json(m.schema)),
        ],
    )
}

/// Whether `m` is well formed: a value that reading can give.
pub open spec fn body_well_formed(m: LexXrpcBodyModel) -> bool {
    &&& opt_body_schema_well_formed(m.schema)
}

/// The keys of this record are pairwise different.
pub proof fn lemma_body_keys()
    ensures
        "description"@ != "encoding"@,
        "description"@ != "schema"@,
        "encoding"@ != "schema"@,
{
    lemma_spelled_description();
    lemma_spelled_encoding();
    lemma_spelled_schema();
}

/// What is written is an object.
pub proof fn lemma_body_shape(m: LexXrpcBodyModel)
    ensures
        body_json(m) is Obj,
{
}

/// Reading what was written gives `m` back.
pub proof fn lemma_body_round(m: LexXrpcBodyModel)
    requires
        body_well_formed(m),
    ensures
        body_of(body_json(m)) == Ok::<LexXrpcBodyModel, Failure>(m),
{
    reveal(body_of);
    lemma_body_keys();
    lemma_body_shape(m);
    let entries = body_json(m)->Obj_0;
    lemma_lookup_at(entries, "description"@, 0, 0);
    lemma_lookup_at(entries, "encoding"@, 1, 0);
    lemma_lookup_at(entries, "schema"@, 2, 0);
    lemma_opt_body_schema_round(m.schema);
}

/// What was read is a value that reading can give.
pub proof fn lemma_body_sound(j: JsonValue)
    ensures
        body_of(j) matches Ok(m) ==> body_well_formed(m),
{
    reveal(body_of);
    lemma_body_schema_sound(child(j, "schema"@));
}

/// Writes `x` as a JSON value.
pub fn encode_body(x: &LexXrpcBody) -> (j: Json)
    ensures
        j@ == body_json(x.deep_view()),
{
    let mut entries: Vec<(String, Json)> = Vec::new();
    entries.push((String::from_str("description"), enc_opt_text(&x.description)));
    entries.push((String::from_str("encoding"), Json::Str((&x.encoding).clone())));
    entries.push((String::from_str("schema"), enc_opt_body_schema(&x.schema)));
    proof {
        lemma_view_obj(entries);
    }
    let j = Json::Obj(entries);
    assert(j@->Obj_0 =~= body_json(x.deep_view())->Obj_0);
    j
}

/// The value written for a field that may be left out: `null` for none.
pub open spec fn opt_body_json(o: Option<LexXrpcBodyModel>) -> JsonValue {
    match o {
        None => JsonValue::Null,
        Some(v) => body_json(v),
    }
}

/// Whether the value, if there is one, is well formed.
pub open spec fn opt_body_well_formed(o: Option<LexXrpcBodyModel>) -> bool {
    match o {
        None => true,
        Some(v) => body_well_formed(v),
    }
}

/// Reading what was written for a field gives the field back.
pub proof fn lemma_opt_body_round(o: Option<LexXrpcBodyModel>)
    requires
        opt_body_well_formed(o),
    ensures
        o matches Some(v) ==> body_of(opt_body_json(o)) == Ok::<LexXrpcBodyModel, Failure>(v),
        o is Some ==> opt_body_json(o) != JsonValue::Null,
{
    if let Some(v) = o {
        lemma_body_round(v);
        lemma_body_shape(v);
    }
}

fn enc_opt_body(o: &Option<LexXrpcBody>) -> (j: Json)
    ensures
        j@ == opt_body_json(o.deep_view()),
{
    match o {
        None => Json::Null,
        Some(v) => encode_body(v),
    }
}

/// The value that `m` is written as: that of its variant.
pub open spec fn message_schema_json(m: LexXrpcSubscriptionMessageSchemaModel) -> JsonValue {
    match m {
        LexXrpcSubscriptionMessageSchemaModel::RefVariant(x) => ref_variant_json(x),
        LexXrpcSubscriptionMessageSchemaModel::Object(x) => object_json(x),
    }
}

/// Whether `m` is well formed: a value that reading can give.
pub open spec fn message_schema_well_formed(m: LexXrpcSubscriptionMessageSchemaModel) -> bool {
    match m {
        LexXrpcSubscriptionMessageSchemaModel::RefVariant(_) => true,
        LexXrpcSubscriptionMessageSchemaModel::Object(x) => object_well_formed(x),
    }
}

/// What is written is an object with the tag of the variant.
pub proof fn lemma_message_schema_shape(m: LexXrpcSubscriptionMessageSchemaModel)
    ensures
        message_schema_json(m) is Obj,
        tag_of(message_schema_json(m)) is Ok,
        m is RefVariant ==> (tag_of(message_schema_json(m)) == Ok::<Kind, Failure>(Kind::Ref) || tag_of(message_schema_json(m)) == Ok::<Kind, Failure>(Kind::Union)),
        m is Object ==> tag_of(message_schema_json(m)) == Ok::<Kind, Failure>(Kind::Object),
{
    match m {
        LexXrpcSubscriptionMessageSchemaModel::RefVariant(x) => {
            lemma_ref_variant_shape(x);
        },
        LexXrpcSubscriptionMessageSchemaModel::Object(x) => {
            lemma_object_shape(x);
        },
    }
}

/// Reading what was written gives `m` back.
pub proof fn lemma_message_schema_round(m: LexXrpcSubscriptionMessageSchemaModel)
    requires
        message_schema_well_formed(m),
    ensures
        message_schema_of(message_schema_json(m)) == Ok::<LexXrpcSubscriptionMessageSchemaModel, Failure>(m),
{
    lemma_message_schema_shape(m);
    match m {
        LexXrpcSubscriptionMessageSchemaModel::RefVariant(x) => {
            lemma_ref_variant_shape(x);
            lemma_ref_variant_round(x);
        },
        LexXrpcSubscriptionMessageSchemaModel::Object(x) => {
            lemma_object_shape(x);
            lemma_object_round(x);
        },
    }
}

/// What was read is a value that reading can give.
pub proof fn lemma_message_schema_sound(j: JsonValue)
    ensures
        message_schema_of(j) matches Ok(m) ==> message_schema_well_formed(m),
{
    lemma_object_sound(j);
}

/// Writes `x` as a JSON value.
pub fn encode_message_schema(x: &LexXrpcSubscriptionMessageSchema) -> (j: Json)
    ensures
        j@ == message_schema_json(x.deep_view()),
{
    match x {
        LexXrpcSubscriptionMessageSchema::RefVariant(v) => encode_ref_variant(v),
        LexXrpcSubscriptionMessageSchema::Object(v) => encode_object(v),
    }
}

/// The value written for a field that may be left out: `null` for none.
pub open spec fn opt_message_schema_json(o: Option<LexXrpcSubscriptionMessageSchemaModel>) -> JsonValue {
    match o {
        None => JsonValue::Null,
        Some(v) => message_schema_json(v),
    }
}

/// Whether the value, if there is one, is well formed.
pub open spec fn opt_message_schema_well_formed(o: Option<LexXrpcSubscriptionMessageSchemaModel>) -> bool {
    match o {
        None => true,
        Some(v) => message_schema_well_formed(v),
    }
}

/// Reading what was written for a field gives the field back.
pub proof fn lemma_opt_message_schema_round(o: Option<LexXrpcSubscriptionMessageSchemaModel>)
    requires
        opt_message_schema_well_formed(o),
    ensures
        o matches Some(v) ==> message_schema_of(opt_message_schema_json(o)) == Ok::<LexXrpcSubscriptionMessageSchemaModel, Failure>(v),
        o is Some ==> opt_message_schema_json(o) != JsonValue::Null,
{
    if let Some(v) = o {
        lemma_message_schema_round(v);
        lemma_message_schema_shape(v);
    }
}

fn enc_opt_message_schema(o: &Option<LexXrpcSubscriptionMessageSchema>) -> (j: Json)
    ensures
        j@ == opt_message_schema_json(o.deep_view()),
{
    match o {
        None => Json::Null,
        Some(v) => encode_message_schema(v),
    }
}

/// The value that `m` is written as: an object with every field.
pub open spec fn message_json(m: LexXrpcSubscriptionMessageModel) -> JsonValue {
    JsonValue::Obj(
        seq![
            member("description"@, opt_text_json(m.description)),
            member("schema"@, opt_message_schema_json(m.schema)),
        ],
    )
}

/// Whether `m` is well formed: a value that reading can give.
pub open spec fn message_well_formed(m: LexXrpcSubscriptionMessageModel) -> bool {
    &&& opt_message_schema_well_formed(m.schema)
}

/// The keys of this record are pairwise different.
pub proof fn lemma_message_keys()
    ensures
        "description"@ != "schema"@,
{
    lemma_spelled_description();
    lemma_spelled_schema();
}

/// What is written is an object.
pub proof fn lemma_message_shape(m: LexXrpcSubscriptionMessageModel)
    ensures
        message_json(m) is Obj,
{
}

/// Reading what was written gives `m` back.
pub proof fn lemma_message_round(m: LexXrpcSubscriptionMessageModel)
    requires
        message_well_formed(m),
    ensures
        message_of(message_json(m)) == Ok::<LexXrpcSubscriptionMessageModel, Failure>(m),
{
    reveal(message_of);
    lemma_message_keys();
    lemma_message_shape(m);
    let entries = message_json(m)->Obj_0;
    lemma_lookup_at(entries, "description"@, 0, 0);
    lemma_lookup_at(entries, "schema"@, 1, 0);
    lemma_opt_message_schema_round(m.schema);
}

/// What was read is a value that reading can give.
pub proof fn lemma_message_sound(j: JsonValue)
    ensures
        message_of(j) matches Ok(m) ==> message_well_formed(m),
{
    reveal(message_of);
    lemma_message_schema_sound(child(j, "schema"@));
}

/// Writes `x` as a JSON value.
pub fn encode_message(x: &LexXrpcSubscriptionMessage) -> (j: Json)
    ensures
        j@ == message_json(x.deep_view()),
{
    let mut entries: Vec<(String, Json)> = Vec::new();
    entries.push((String::from_str("description"), enc_opt_text(&x.description)));
    entries.push((String::from_str("schema"), enc_opt_message_schema(&x.schema)));
    proof {
        lemma_view_obj(entries);
    }
    let j = Json::Obj(entries);
    assert(j@->Obj_0 =~= message_json(x.deep_view())->Obj_0);
    j
}

/// The value written for a field that may be left out: `null` for none.
pub open spec fn opt_message_json(o: Option<LexXrpcSubscriptionMessageModel>) -> JsonValue {
    match o {
        None => JsonValue::Null,
        Some(v) => message_json(v),
    }
}

/// Whether the value, if there is one, is well formed.
pub open spec fn opt_message_well_formed(o: Option<LexXrpcSubscriptionMessageModel>) -> bool {
    match o {
        None => true,
        Some(v) => message_well_formed(v),
    }
}

/// Reading what was written for a field gives the field back.
pub proof fn lemma_opt_message_round(o: Option<LexXrpcSubscriptionMessageModel>)
    requires
        opt_message_well_formed(o),
    ensures
        o matches Some(v) ==> message_of(opt_message_json(o)) == Ok::<LexXrpcSubscriptionMessageModel, Failure>(v),
        o is Some ==> opt_message_json(o) != JsonValue::Null,
{
    if let Some(v) = o {
        lemma_message_round(v);
        lemma_message_shape(v);
    }
}

fn enc_opt_message(o: &Option<LexXrpcSubscriptionMessage>) -> (j: Json)
    ensures
        j@ == opt_message_json(o.deep_view()),
{
    match o {
        None => Json::Null,
        Some(v) => encode_message(v),
    }
}

/// The value that `m` is written as: an object with every field.
pub open spec fn method_error_json(m: LexXrpcErrorModel) -> JsonValue {
    JsonValue::Obj(
        seq![
            member("name"@, JsonValue::Str(m.name)),
            member("description"@, opt_text_json(m.description)),
        ],
    )
}

/// The keys of this record are pairwise different.
pub proof fn lemma_method_error_keys()
    ensures
        "name"@ != "description"@,
{
    lemma_spelled_name();
    lemma_spelled_description();
}

/// What is written is an object.
pub proof fn lemma_method_error_shape(m: LexXrpcErrorModel)
    ensures
        method_error_json(m) is Obj,
{
}

/// Reading what was written gives `m` back.
pub proof fn lemma_method_error_round(m: LexXrpcErrorModel)
    ensures
        method_error_of(method_error_json(m)) == Ok::<LexXrpcErrorModel, Failure>(m),
{
    reveal(method_error_of);
    lemma_method_error_keys();
    lemma_method_error_shape(m);
    let entries = method_error_json(m)->Obj_0;
    lemma_lookup_at(entries, "name"@, 0, 0);
    lemma_lookup_at(entries, "description"@, 1, 0);
}

/// Writes `x` as a JSON value.
pub fn encode_method_error(x: &LexXrpcError) -> (j: Json)
    ensures
        j@ == method_error_json(x.deep_view()),
{
    let mut entries: Vec<(String, Json)> = Vec::new();
    entries.push((String::from_str("name"), Json::Str((&x.name).clone())));
    entries.push((String::from_str("description"), enc_opt_text(&x.description)));
    proof {
        lemma_view_obj(entries);
    }
    let j = Json::Obj(entries);
    assert(j@->Obj_0 =~= method_error_json(x.deep_view())->Obj_0);
    j
}

/// An array with the errors of a method.
pub open spec fn method_errors_json(errors: Seq<LexXrpcErrorModel>) -> JsonValue {
    JsonValue::Arr(Seq::new(errors.len(), |i: int| method_error_json(errors[i])))
}

/// Reading the first `n` errors written gives them back.
pub proof fn lemma_method_errors_round(errors: Seq<LexXrpcErrorModel>, n: int)
    requires
        0 <= n <= errors.len(),
    ensures
        method_errors_upto(method_errors_json(errors)->Arr_0, n) == Ok::<Seq<LexXrpcErrorModel>, Failure>(
            errors.subrange(0, n),
        ),
    decreases n,
{
    if n > 0 {
        lemma_method_errors_round(errors, n - 1);
        lemma_method_error_round(errors[n - 1]);
        assert(errors.subrange(0, n) =~= errors.subrange(0, n - 1).push(errors[n - 1]));
    } else {
        assert(errors.subrange(0, 0) =~= Seq::<LexXrpcErrorModel>::empty());
    }
}

/// The errors of a method, or `null` for none.
pub open spec fn opt_method_errors_json(o: Option<Seq<LexXrpcErrorModel>>) -> JsonValue {
    match o {
        None => JsonValue::Null,
        Some(s) => method_errors_json(s),
    }
}

/// Reading errors written gives them back.
pub proof fn lemma_opt_method_errors_round(o: Option<Seq<LexXrpcErrorModel>>)
    ensures
        o matches Some(s) ==> method_errors_of(opt_method_errors_json(o)) == Ok::<
            Seq<LexXrpcErrorModel>,
            Failure,
        >(s),
        o is Some ==> opt_method_errors_json(o) != JsonValue::Null,
{
    if let Some(s) = o {
        lemma_method_errors_round(s, s.len() as int);
        assert(s.subrange(0, s.len() as int) =~= s);
    }
}

fn enc_opt_method_errors(o: &Option<Vec<LexXrpcError>>) -> (j: Json)
    ensures
        j@ == opt_method_errors_json(o.deep_view()),
{
    match o {
        None => Json::Null,
        Some(s) => {
            let ghost models = s.deep_view();
            let mut items: Vec<Json> = Vec::new();
            let mut i: usize = 0;
            while i < s.len()
                invariant
                    i <= s.len(),
                    models == s.deep_view(),
                    models.len() == s.len(),
                    items.len() == i,
                    forall|k: int| 0 <= k < i ==> (#[trigger] items[k])@ == method_error_json(models[k]),
                decreases s.len() - i,
            {
                assert(models[i as int] == s[i as int].deep_view());
                items.push(encode_method_error(&s[i]));
                i += 1;
            }
            proof {
                lemma_view_arr(items);
            }
            let j = Json::Arr(items);
            assert(j@->Arr_0 =~= method_errors_json(models)->Arr_0);
            j
        },
    }
}

/// The value that `m` is written as: an object with every field.
pub open spec fn query_json(m: LexXrpcQueryModel) -> JsonValue {
    JsonValue::Obj(
        seq![
            tag_member(Kind::Query),
            member("description"@, opt_text_json(m.description)),
            member("parameters"@, opt_params_json(m.parameters)),
            member("output"@, opt_body_json(m.output)),
            member("errors"@, opt_method_errors_json(m.errors)),
        ],
    )
}

/// Whether `m` is well formed: a value that reading can give.
pub open spec fn query_well_formed(m: LexXrpcQueryModel) -> bool {
    &&& opt_params_well_formed(m.parameters)
    &&& opt_body_well_formed(m.output)
}

/// The keys of this record are pairwise different.
pub proof fn lemma_query_keys()
    ensures
        "type"@ != "description"@,
        "type"@ != "parameters"@,
        "type"@ != "output"@,
        "type"@ != "errors"@,
        "description"@ != "parameters"@,
        "description"@ != "output"@,
        "description"@ != "errors"@,
        "parameters"@ != "output"@,
        "parameters"@ != "errors"@,
        "output"@ != "errors"@,
{
    lemma_spelled_type();
    lemma_spelled_description();
    lemma_spelled_parameters();
    lemma_spelled_output();
    lemma_spelled_errors();
}

/// What is written is an object with the tag of its kind.
pub proof fn lemma_query_shape(m: LexXrpcQueryModel)
    ensures
        query_json(m) is Obj,
        tag_of(query_json(m)) == Ok::<Kind, Failure>(Kind::Query),
{
    lemma_query_keys();
    lemma_kind_word(Kind::Query);
    lemma_lookup_at(query_json(m)->Obj_0, "type"@, 0, 0);
}

/// Reading what was written gives `m` back.
pub proof fn lemma_query_round(m: LexXrpcQueryModel)
    requires
        query_well_formed(m),
    ensures
        query_of(query_json(m)) == Ok::<LexXrpcQueryModel, Failure>(m),
{
    reveal(query_of);
    lemma_query_keys();
    lemma_query_shape(m);
    let entries = query_json(m)->Obj_0;
    lemma_lookup_at(entries, "description"@, 1, 0);
    lemma_lookup_at(entries, "parameters"@, 2, 0);
    lemma_lookup_at(entries, "output"@, 3, 0);
    lemma_lookup_at(entries, "errors"@, 4, 0);
    lemma_opt_params_round(m.parameters);
    lemma_opt_body_round(m.output);
    lemma_opt_method_errors_round(m.errors);
}

/// What was read is a value that reading can give.
pub proof fn lemma_query_sound(j: JsonValue)
    ensures
        query_of(j) matches Ok(m) ==> query_well_formed(m),
{
    reveal(query_of);
    lemma_params_sound(child(j, "parameters"@));
    lemma_body_sound(child(j, "output"@));
}

/// Writes `x` as a JSON value.
pub fn encode_query(x: &LexXrpcQuery) -> (j: Json)
    ensures
        j@ == query_json(x.deep_view()),
{
    match x {
        LexXrpcQuery::Query { description, parameters, output, errors } => {
            let mut entries: Vec<(String, Json)> = Vec::new();
            entries.push((String::from_str("type"), Json::Str(String::from_str("query"))));
            entries.push((String::from_str("description"), enc_opt_text(description)));
            entries.push((String::from_str("parameters"), enc_opt_params(parameters)));
            entries.push((String::from_str("output"), enc_opt_body(output)));
            entries.push((String::from_str("errors"), enc_opt_method_errors(errors)));
            proof {
                lemma_view_obj(entries);
            }
            let j = Json::Obj(entries);
            assert(j@->Obj_0 =~= query_json(x.deep_view())->Obj_0);
            j
        },
    }
}

/// The value that `m` is written as: an object with every field.
pub open spec fn procedure_json(m: LexXrpcProcedureModel) -> JsonValue {
    JsonValue::Obj(
        seq![
            tag_member(Kind::Procedure),
            member("description"@, opt_text_json(m.description)),
            member("parameters"@, opt_params_json(m.parameters)),
            member("input"@, opt_body_json(m.input)),
            member("output"@, opt_body_json(m.output)),
            member("errors"@, opt_method_errors_json(m.errors)),
        ],
    )
}

/// Whether `m` is well formed: a value that reading can give.
pub open spec fn procedure_well_formed(m: LexXrpcProcedureModel) -> bool {
    &&& opt_params_well_formed(m.parameters)
    &&& opt_body_well_formed(m.input)
    &&& opt_body_well_formed(m.output)
}

/// The keys of this record are pairwise different.
pub proof fn lemma_procedure_keys()
    ensures
        "type"@ != "description"@,
        "type"@ != "parameters"@,
        "type"@ != "input"@,
        "type"@ != "output"@,
        "type"@ != "errors"@,
        "description"@ != "parameters"@,
        "description"@ != "input"@,
        "description"@ != "output"@,
        "description"@ != "errors"@,
        "parameters"@ != "input"@,
        "parameters"@ != "output"@,
        "parameters"@ != "errors"@,
        "input"@ != "output"@,
        "input"@ != "errors"@,
        "output"@ != "errors"@,
{
    lemma_spelled_type();
    lemma_spelled_description();
    lemma_spelled_parameters();
    lemma_spelled_input();
    lemma_spelled_output();
    lemma_spelled_errors();
}

/// What is written is an object with the tag of its kind.
pub proof fn lemma_procedure_shape(m: LexXrpcProcedureModel)
    ensures
        procedure_json(m) is Obj,
        tag_of(procedure_json(m)) == Ok::<Kind, Failure>(Kind::Procedure),
{
    lemma_procedure_keys();
    lemma_kind_word(Kind::Procedure);
    lemma_lookup_at(procedure_json(m)->Obj_0, "type"@, 0, 0);
}

/// Reading what was written gives `m` back.
pub proof fn lemma_procedure_round(m: LexXrpcProcedureModel)
    requires
        procedure_well_formed(m),
    ensures
        procedure_of(procedure_json(m)) == Ok::<LexXrpcProcedureModel, Failure>(m),
{
    reveal(procedure_of);
    lemma_procedure_keys();
    lemma_procedure_shape(m);
    let entries = procedure_json(m)->Obj_0;
    lemma_lookup_at(entries, "description"@, 1, 0);
    lemma_lookup_at(entries, "parameters"@, 2, 0);
    lemma_lookup_at(entries, "input"@, 3, 0);
    lemma_lookup_at(entries, "output"@, 4, 0);
    lemma_lookup_at(entries, "errors"@, 5, 0);
    lemma_opt_params_round(m.parameters);
    lemma_opt_body_round(m.input);
    lemma_opt_body_round(m.output);
    lemma_opt_method_errors_round(m.errors);
}

/// What was read is a value that reading can give.
pub proof fn lemma_procedure_sound(j: JsonValue)
    ensures
        procedure_of(j) matches Ok(m) ==> procedure_well_formed(m),
{
    reveal(procedure_of);
    lemma_params_sound(child(j, "parameters"@));
    lemma_body_sound(child(j, "input"@));
    lemma_body_sound(child(j, "output"@));
}

/// Writes `x` as a JSON value.
pub fn encode_procedure(x: &LexXrpcProcedure) -> (j: Json)
    ensures
        j@ == procedure_json(x.deep_view()),
{
    match x {
        LexXrpcProcedure::Procedure { description, parameters, input, output, errors } => {
            let mut entries: Vec<(String, Json)> = Vec::new();
            entries.push((String::from_str("type"), Json::Str(String::from_str("procedure"))));
            entries.push((String::from_str("description"), enc_opt_text(description)));
            entries.push((String::from_str("parameters"), enc_opt_params(parameters)));
            entries.push((String::from_str("input"), enc_opt_body(input)));
            entries.push((String::from_str("output"), enc_opt_body(output)));
            entries.push((String::from_str("errors"), enc_opt_method_errors(errors)));
            proof {
                lemma_view_obj(entries);
            }
            let j = Json::Obj(entries);
            assert(j@->Obj_0 =~= procedure_json(x.deep_view())->Obj_0);
            j
        },
    }
}

/// The value that `m` is written as: an object with every field.
pub open spec fn subscription_json(m: LexXrpcSubscriptionModel) -> JsonValue {
    JsonValue::Obj(
        seq![
            tag_member(Kind::Subscription),
            member("description"@, opt_text_json(m.description)),
            member("parameters"@, opt_params_json(m.parameters)),
            member("message"@, opt_message_json(m.message)),
            member("infos"@, opt_method_errors_json(m.infos)),
            member("errors"@, opt_method_errors_json(m.errors)),
        ],
    )
}

/// Whether `m` is well formed: a value that reading can give.
pub open spec fn subscription_well_formed(m: LexXrpcSubscriptionModel) -> bool {
    &&& opt_params_well_formed(m.parameters)
    &&& opt_message_well_formed(m.message)
}

/// The keys of this record are pairwise different.
pub proof fn lemma_subscription_keys()
    ensures
        "type"@ != "description"@,
        "type"@ != "parameters"@,
        "type"@ != "message"@,
        "type"@ != "infos"@,
        "type"@ != "errors"@,
        "description"@ != "parameters"@,
        "description"@ != "message"@,
        "description"@ != "infos"@,
        "description"@ != "errors"@,
        "parameters"@ != "message"@,
        "parameters"@ != "infos"@,
        "parameters"@ != "errors"@,
        "message"@ != "infos"@,
        "message"@ != "errors"@,
        "infos"@ != "errors"@,
{
    lemma_spelled_type();
    lemma_spelled_description();
    lemma_spelled_parameters();
    lemma_spelled_message();
    lemma_spelled_infos();
    lemma_spelled_errors();
}

/// What is written is an object with the tag of its kind.
pub proof fn lemma_subscription_shape(m: LexXrpcSubscriptionModel)
    ensures
        subscription_json(m) is Obj,
        tag_of(subscription_json(m)) == Ok::<Kind, Failure>(Kind::Subscription),
{
    lemma_subscription_keys();
    lemma_kind_word(Kind::Subscription);
    lemma_lookup_at(subscription_json(m)->Obj_0, "type"@, 0, 0);
}

/// Reading what was written gives `m` back.
pub proof fn lemma_subscription_round(m: LexXrpcSubscriptionModel)
    requires
        subscription_well_formed(m),
    ensures
        subscription_of(subscription_json(m)) == Ok::<LexXrpcSubscriptionModel, Failure>(m),
{
    reveal(subscription_of);
    lemma_subscription_keys();
    lemma_subscription_shape(m);
    let entries = subscription_json(m)->Obj_0;
    lemma_lookup_at(entries, "description"@, 1, 0);
    lemma_lookup_at(entries, "parameters"@, 2, 0);
    lemma_lookup_at(entries, "message"@, 3, 0);
    lemma_lookup_at(entries, "infos"@, 4, 0);
    lemma_lookup_at(entries, "errors"@, 5, 0);
    lemma_opt_params_round(m.parameters);
    lemma_opt_message_round(m.message);
    lemma_opt_method_errors_round(m.infos);
    lemma_opt_method_errors_round(m.errors);
}

/// What was read is a value that reading can give.
pub proof fn lemma_subscription_sound(j: JsonValue)
    ensures
        subscription_of(j) matches Ok(m) ==> subscription_well_formed(m),
{
    reveal(subscription_of);
    lemma_params_sound(child(j, "parameters"@));
    lemma_message_sound(child(j, "message"@));
}

/// Writes `x` as a JSON value.
pub fn encode_subscription(x: &LexXrpcSubscription) -> (j: Json)
    ensures
        j@ == subscription_json(x.deep_view()),
{
    match x {
        LexXrpcSubscription::Subscription { description, parameters, message, infos, errors } => {
            let mut entries: Vec<(String, Json)> = Vec::new();
            entries.push((String::from_str("type"), Json::Str(String::from_str("subscription"))));
            entries.push((String::from_str("description"), enc_opt_text(description)));
            entries.push((String::from_str("parameters"), enc_opt_params(parameters)));
            entries.push((String::from_str("message"), enc_opt_message(message)));
            entries.push((String::from_str("infos"), enc_opt_method_errors(infos)));
            entries.push((String::from_str("errors"), enc_opt_method_errors(errors)));
            proof {
                lemma_view_obj(entries);
            }
            let j = Json::Obj(entries);
            assert(j@->Obj_0 =~= subscription_json(x.deep_view())->Obj_0);
            j
        },
    }
}

/// The value that `m` is written as: an object with every field.
pub open spec fn record_json(m: LexRecordModel) -> JsonValue {
    JsonValue::Obj(
        seq![
            tag_member(Kind::Record),
            member("description"@, opt_text_json(m.description)),
            member("key"@, opt_text_json(m.key)),
            member("record"@, object_json(m.record)),
        ],
    )
}

/// Whether `m` is well formed: a value that reading can give.
pub open spec fn record_well_formed(m: LexRecordModel) -> bool {
    &&& object_well_formed(m.record)
}

/// The keys of this record are pairwise different.
pub proof fn lemma_record_keys()
    ensures
        "type"@ != "description"@,
        "type"@ != "key"@,
        "type"@ != "record"@,
        "description"@ != "key"@,
        "description"@ != "record"@,
        "key"@ != "record"@,
{
    lemma_spelled_type();
    lemma_spelled_description();
    lemma_spelled_key();
    lemma_spelled_record();
}

/// What is written is an object with the tag of its kind.
pub proof fn lemma_record_shape(m: LexRecordModel)
    ensures
        record_json(m) is Obj,
        tag_of(record_json(m)) == Ok::<Kind, Failure>(Kind::Record),
{
    lemma_record_keys();
    lemma_kind_word(Kind::Record);
    lemma_lookup_at(record_json(m)->Obj_0, "type"@, 0, 0);
}

/// Reading what was written gives `m` back.
pub proof fn lemma_record_round(m: LexRecordModel)
    requires
        record_well_formed(m),
    ensures
        record_of(record_json(m)) == Ok::<LexRecordModel, Failure>(m),
{
    reveal(record_of);
    lemma_record_keys();
    lemma_record_shape(m);
    let entries = record_json(m)->Obj_0;
    lemma_lookup_at(entries, "description"@, 1, 0);
    lemma_lookup_at(entries, "key"@, 2, 0);
    lemma_lookup_at(entries, "record"@, 3, 0);
    lemma_object_round(m.record);
}

/// What was read is a value that reading can give.
pub proof fn lemma_record_sound(j: JsonValue)
    ensures
        record_of(j) matches Ok(m) ==> record_well_formed(m),
{
    reveal(record_of);
    lemma_object_sound(child(j, "record"@));
}

/// Writes `x` as a JSON value.
pub fn encode_record(x: &LexRecord) -> (j: Json)
    ensures
        j@ == record_json(x.deep_view()),
{
    match x {
        LexRecord::Record { description, key, record } => {
            let mut entries: Vec<(String, Json)> = Vec::new();
            entries.push((String::from_str("type"), Json::Str(String::from_str("record"))));
            entries.push((String::from_str("description"), enc_opt_text(description)));
            entries.push((String::from_str("key"), enc_opt_text(key)));
            entries.push((String::from_str("record"), encode_object(record)));
            proof {
                lemma_view_obj(entries);
            }
            let j = Json::Obj(entries);
            assert(j@->Obj_0 =~= record_json(x.deep_view())->Obj_0);
            j
        },
    }
}

/// A primitive that was read has the variant that its tag names.
pub proof fn lemma_primitive_variant(j: JsonValue)
    ensures
        primitive_of(j) matches Ok(p) ==> (tag_of(j) == Ok::<Kind, Failure>(Kind::Boolean) ==> p is Boolean) && (
        tag_of(j) == Ok::<Kind, Failure>(Kind::Integer) ==> p is Integer) && (tag_of(j) == Ok::<Kind, Failure>(
            Kind::String,
        ) ==> p is String) && (tag_of(j) == Ok::<Kind, Failure>(Kind::Unknown) ==> p is Unknown),
{
}

/// A linked-data leaf that was read has the variant that its tag names.
pub proof fn lemma_ipld_variant(j: JsonValue)
    ensures
        ipld_of(j) matches Ok(p) ==> (tag_of(j) == Ok::<Kind, Failure>(Kind::Bytes) ==> p is Bytes) && (tag_of(j)
            == Ok::<Kind, Failure>(Kind::CidLink) ==> p is CidLink),
{
}

/// The value that `m` is written as: that of its variant.
pub open spec fn user_type_json(m: LexUserTypeModel) -> JsonValue {
    match m {
        LexUserTypeModel::Record(x) => record_json(x),
        LexUserTypeModel::XrpcQuery(x) => query_json(x),
        LexUserTypeModel::XrpcProcedure(x) => procedure_json(x),
        LexUserTypeModel::XrpcSubscription(x) => subscription_json(x),
        LexUserTypeModel::Blob(x) => blob_json(x),
        LexUserTypeModel::Array(x) => array_json(x),
        LexUserTypeModel::Token(x) => token_json(x),
        LexUserTypeModel::Object(x) => object_json(x),
        LexUserTypeModel::Boolean(x) => primitive_json(x),
        LexUserTypeModel::Integer(x) => primitive_json(x),
        LexUserTypeModel::String(x) => primitive_json(x),
        LexUserTypeModel::Bytes(x) => ipld_json(x),
        LexUserTypeModel::CidLink(x) => ipld_json(x),
        LexUserTypeModel::Unknown(x) => primitive_json(x),
    }
}

/// Whether `m` is well formed: a value that reading can give.
pub open spec fn user_type_well_formed(m: LexUserTypeModel) -> bool {
    match m {
        LexUserTypeModel::Record(x) => record_well_formed(x),
        LexUserTypeModel::XrpcQuery(x) => query_well_formed(x),
        LexUserTypeModel::XrpcProcedure(x) => procedure_well_formed(x),
        LexUserTypeModel::XrpcSubscription(x) => subscription_well_formed(x),
        LexUserTypeModel::Blob(_) => true,
        LexUserTypeModel::Array(_) => true,
        LexUserTypeModel::Token(_) => true,
        LexUserTypeModel::Object(x) => object_well_formed(x),
        LexUserTypeModel::Boolean(x) => x is Boolean,
        LexUserTypeModel::Integer(x) => x is Integer,
        LexUserTypeModel::String(x) => x is String,
        LexUserTypeModel::Bytes(x) => x is Bytes,
        LexUserTypeModel::CidLink(x) => x is CidLink,
        LexUserTypeModel::Unknown(x) => x is Unknown,
    }
}

/// What is written is an object with the tag of the variant.
pub proof fn lemma_user_type_shape(m: LexUserTypeModel)
    ensures
        user_type_json(m) is Obj,
        tag_of(user_type_json(m)) is Ok,
        m is Record ==> tag_of(user_type_json(m)) == Ok::<Kind, Failure>(Kind::Record),
        m is XrpcQuery ==> tag_of(user_type_json(m)) == Ok::<Kind, Failure>(Kind::Query),
        m is XrpcProcedure ==> tag_of(user_type_json(m)) == Ok::<Kind, Failure>(Kind::Procedure),
        m is XrpcSubscription ==> tag_of(user_type_json(m)) == Ok::<Kind, Failure>(Kind::Subscription),
        m is Blob ==> tag_of(user_type_json(m)) == Ok::<Kind, Failure>(Kind::Blob),
        m is Array ==> tag_of(user_type_json(m)) == Ok::<Kind, Failure>(Kind::Array),
        m is Token ==> tag_of(user_type_json(m)) == Ok::<Kind, Failure>(Kind::Token),
        m is Object ==> tag_of(user_type_json(m)) == Ok::<Kind, Failure>(Kind::Object),
        m matches LexUserTypeModel::Boolean(x) ==> tag_of(user_type_json(m)) == tag_of(primitive_json(x)),
        m matches LexUserTypeModel::Integer(x) ==> tag_of(user_type_json(m)) == tag_of(primitive_json(x)),
        m matches LexUserTypeModel::String(x) ==> tag_of(user_type_json(m)) == tag_of(primitive_json(x)),
        m matches LexUserTypeModel::Bytes(x) ==> tag_of(user_type_json(m)) == tag_of(ipld_json(x)),
        m matches LexUserTypeModel::CidLink(x) ==> tag_of(user_type_json(m)) == tag_of(ipld_json(x)),
        m matches LexUserTypeModel::Unknown(x) ==> tag_of(user_type_json(m)) == tag_of(primitive_json(x)),
{
    match m {
        LexUserTypeModel::Record(x) => {
            lemma_record_shape(x);
        },
        LexUserTypeModel::XrpcQuery(x) => {
            lemma_query_shape(x);
        },
        LexUserTypeModel::XrpcProcedure(x) => {
            lemma_procedure_shape(x);
        },
        LexUserTypeModel::XrpcSubscription(x) => {
            lemma_subscription_shape(x);
        },
        LexUserTypeModel::Blob(x) => {
            lemma_blob_shape(x);
        },
        LexUserTypeModel::Array(x) => {
            lemma_array_shape(x);
        },
        LexUserTypeModel::Token(x) => {
            lemma_token_shape(x);
        },
        LexUserTypeModel::Object(x) => {
            lemma_object_shape(x);
        },
        LexUserTypeModel::Boolean(x) => {
            lemma_primitive_shape(x);
        },
        LexUserTypeModel::Integer(x) => {
            lemma_primitive_shape(x);
        },
        LexUserTypeModel::String(x) => {
            lemma_primitive_shape(x);
        },
        LexUserTypeModel::Bytes(x) => {
            lemma_ipld_shape(x);
        },
        LexUserTypeModel::CidLink(x) => {
            lemma_ipld_shape(x);
        },
        LexUserTypeModel::Unknown(x) => {
            lemma_primitive_shape(x);
        },
    }
}

/// Reading what was written gives `m` back.
pub proof fn lemma_user_type_round(m: LexUserTypeModel)
    requires
        user_type_well_formed(m),
    ensures
        user_type_of(user_type_json(m)) == Ok::<LexUserTypeModel, Failure>(m),
{
    lemma_user_type_shape(m);
    match m {
        LexUserTypeModel::Record(x) => {
            lemma_record_shape(x);
            lemma_record_round(x);
        },
        LexUserTypeModel::XrpcQuery(x) => {
            lemma_query_shape(x);
            lemma_query_round(x);
        },
        LexUserTypeModel::XrpcProcedure(x) => {
            lemma_procedure_shape(x);
            lemma_procedure_round(x);
        },
        LexUserTypeModel::XrpcSubscription(x) => {
            lemma_subscription_shape(x);
            lemma_subscription_round(x);
        },
        LexUserTypeModel::Blob(x) => {
            lemma_blob_shape(x);
            lemma_blob_round(x);
        },
        LexUserTypeModel::Array(x) => {
            lemma_array_shape(x);
            lemma_array_round(x);
        },
        LexUserTypeModel::Token(x) => {
            lemma_token_shape(x);
            lemma_token_round(x);
        },
        LexUserTypeModel::Object(x) => {
            lemma_object_shape(x);
            lemma_object_round(x);
        },
        LexUserTypeModel::Boolean(x) => {
            lemma_primitive_shape(x);
            lemma_primitive_round(x);
        },
        LexUserTypeModel::Integer(x) => {
            lemma_primitive_shape(x);
            lemma_primitive_round(x);
        },
        LexUserTypeModel::String(x) => {
            lemma_primitive_shape(x);
            lemma_primitive_round(x);
        },
        LexUserTypeModel::Bytes(x) => {
            lemma_ipld_shape(x);
            lemma_ipld_round(x);
        },
        LexUserTypeModel::CidLink(x) => {
            lemma_ipld_shape(x);
            lemma_ipld_round(x);
        },
        LexUserTypeModel::Unknown(x) => {
            lemma_primitive_shape(x);
            lemma_primitive_round(x);
        },
    }
}

/// What was read is a value that reading can give.
pub proof fn lemma_user_type_sound(j: JsonValue)
    ensures
        user_type_of(j) matches Ok(m) ==> user_type_well_formed(m),
{
    lemma_record_sound(j);
    lemma_query_sound(j);
    lemma_procedure_sound(j);
    lemma_subscription_sound(j);
    lemma_object_sound(j);
    lemma_primitive_variant(j);
    lemma_ipld_variant(j);
}

/// Writes `x` as a JSON value.
pub fn encode_user_type(x: &LexUserType) -> (j: Json)
    ensures
        j@ == user_type_json(x.deep_view()),
{
    match x {
        LexUserType::Record(v) => encode_record(v),
        LexUserType::XrpcQuery(v) => encode_query(v),
        LexUserType::XrpcProcedure(v) => encode_procedure(v),
        LexUserType::XrpcSubscription(v) => encode_subscription(v),
        LexUserType::Blob(v) => encode_blob(v),
        LexUserType::Array(v) => encode_array(v),
        LexUserType::Token(v) => encode_token(v),
        LexUserType::Object(v) => encode_object(v),
        LexUserType::Boolean(v) => encode_primitive(v),
        LexUserType::Integer(v) => encode_primitive(v),
        LexUserType::String(v) => encode_primitive(v),
        LexUserType::Bytes(v) => encode_ipld(v),
        LexUserType::CidLink(v) => encode_ipld(v),
        LexUserType::Unknown(v) => encode_primitive(v),
    }
}

/// The value that a map is written as: an object with one entry for each
/// name, in order.
pub open spec fn defs_json(entries: Seq<NamedModel<LexUserTypeModel>>) -> JsonValue {
    JsonValue::Obj(
        Seq::new(
            entries.len(),
            |i: int| Member { key: entries[i].name, value: user_type_json(entries[i].value) },
        ),
    )
}

/// Whether `entries` is well formed: no name twice, and every value one that reading can give.
pub open spec fn defs_well_formed(entries: Seq<NamedModel<LexUserTypeModel>>) -> bool {
    &&& distinct_names(entries)
    &&& forall|i: int| 0 <= i < entries.len() ==> user_type_well_formed((#[trigger] entries[i]).value)
}

/// Reading the first `n` entries written gives the first `n` entries back.
pub proof fn lemma_defs_round_upto(entries: Seq<NamedModel<LexUserTypeModel>>, n: int)
    requires
        defs_well_formed(entries),
        0 <= n <= entries.len(),
    ensures
        defs_upto(defs_json(entries)->Obj_0, n) == Ok::<Seq<NamedModel<LexUserTypeModel>>, Failure>(entries.subrange(0, n)),
    decreases n,
{
    let members = defs_json(entries)->Obj_0;
    if n > 0 {
        lemma_defs_round_upto(entries, n - 1);
        lemma_user_type_round(entries[n - 1].value);
        assert(!key_before(members, n - 1)) by {
            if key_before(members, n - 1) {
                let k = choose|k: int| 0 <= k < n - 1 && (#[trigger] members[k]).key == members[n - 1].key;
                assert(entries[k].name != entries[n - 1].name);
            }
        }
        assert(entries.subrange(0, n) =~= entries.subrange(0, n - 1).push(entries[n - 1]));
    } else {
        assert(entries.subrange(0, 0) =~= Seq::<NamedModel<LexUserTypeModel>>::empty());
    }
}

/// Reading what was written gives the entries back.
pub proof fn lemma_defs_round(entries: Seq<NamedModel<LexUserTypeModel>>)
    requires
        defs_well_formed(entries),
    ensures
        defs_of(defs_json(entries)) == Ok::<Seq<NamedModel<LexUserTypeModel>>, Failure>(entries),
{
    lemma_defs_round_upto(entries, entries.len() as int);
    assert(entries.subrange(0, entries.len() as int) =~= entries);
}

/// The entries read have the keys of the object, none twice.
pub proof fn lemma_defs_sound_upto(members: Seq<Member>, n: int)
    requires
        0 <= n <= members.len(),
    ensures
        defs_upto(members, n) matches Ok(s) ==> s.len() == n && defs_well_formed(s) && (forall|i: int|
            0 <= i < n ==> (#[trigger] s[i]).name == members[i].key),
    decreases n,
{
    if n > 0 {
        lemma_defs_sound_upto(members, n - 1);
        lemma_user_type_sound(members[n - 1].value);
        if defs_upto(members, n) is Ok {
            let before = defs_upto(members, n - 1)->Ok_0;
            let s = defs_upto(members, n)->Ok_0;
            assert(!key_before(members, n - 1));
            assert forall|i: int, j: int| 0 <= i < j < s.len() implies (#[trigger] s[i]).name != (
            #[trigger] s[j]).name by {
                if j == n - 1 {
                    assert(before[i].name == members[i].key);
                    assert(members[i].key != members[n - 1].key);
                } else {
                    assert(before[i].name != before[j].name);
                }
            }
            assert forall|i: int| 0 <= i < s.len() implies user_type_well_formed((#[trigger] s[i]).value) by {
                if i < n - 1 {
                    assert(user_type_well_formed(before[i].value));
                }
            }
        }
    }
}

/// What was read is a list that reading can give.
pub proof fn lemma_defs_sound(j: JsonValue)
    ensures
        defs_of(j) matches Ok(s) ==> defs_well_formed(s),
{
    if let JsonValue::Obj(members) = j {
        lemma_defs_sound_upto(members, members.len() as int);
    }
}

/// Writes a map as a JSON object.
pub fn encode_defs(entries: &Vec<Named<LexUserType>>) -> (j: Json)
    ensures
        j@ == defs_json(entries.deep_view()),
{
    let ghost models = entries.deep_view();
    let mut out: Vec<(String, Json)> = Vec::new();
    let mut i: usize = 0;
    while i < entries.len()
        invariant
            i <= entries.len(),
            models == entries.deep_view(),
            models.len() == entries.len(),
            out.len() == i,
            forall|k: int|
                0 <= k < i ==> (#[trigger] out[k]).0@ == models[k].name && out[k].1@ == user_type_json(
                    models[k].value,
                ),
        decreases entries.len() - i,
    {
        assert(models[i as int] == entries[i as int].deep_view());
        out.push((entries[i].name.clone(), encode_user_type(&entries[i].value)));
        i += 1;
    }
    proof {
        lemma_view_obj(out);
    }
    let j = Json::Obj(out);
    assert(j@->Obj_0 =~= defs_json(models)->Obj_0);
    j
}

/// The value that `m` is written as: an object with every field.
pub open spec fn doc_json(m: LexiconDocModel) -> JsonValue {
    JsonValue::Obj(
        seq![
            member("lexicon"@, JsonValue::Int(m.lexicon as i64)),
            member("id"@, JsonValue::Str(m.id)),
            member("revision"@, opt_number_json(m.revision)),
            member("description"@, opt_text_json(m.description)),
            member("defs"@, defs_json(m.defs)),
        ],
    )
}

/// Whether `m` is well formed: a value that reading can give.
pub open spec fn doc_well_formed(m: LexiconDocModel) -> bool {
    &&& m.lexicon == 1
    &&& valid_nsid(m.id)
    &&& defs_well_formed(m.defs)
}

/// The keys of this record are pairwise different.
pub proof fn lemma_doc_keys()
    ensures
        "lexicon"@ != "id"@,
        "lexicon"@ != "revision"@,
        "lexicon"@ != "description"@,
        "lexicon"@ != "defs"@,
        "id"@ != "revision"@,
        "id"@ != "description"@,
        "id"@ != "defs"@,
        "revision"@ != "description"@,
        "revision"@ != "defs"@,
        "description"@ != "defs"@,
{
    lemma_spelled_lexicon();
    lemma_spelled_id();
    lemma_spelled_revision();
    lemma_spelled_description();
    lemma_spelled_defs();
}

/// What is written is an object.
pub proof fn lemma_doc_shape(m: LexiconDocModel)
    ensures
        doc_json(m) is Obj,
{
}

/// Reading what was written gives `m` back.
pub proof fn lemma_doc_round(m: LexiconDocModel)
    requires
        doc_well_formed(m),
    ensures
        doc_of(doc_json(m)) == Ok::<LexiconDocModel, Failure>(m),
{
    reveal(doc_of);
    lemma_doc_keys();
    lemma_doc_shape(m);
    let entries = doc_json(m)->Obj_0;
    lemma_lookup_at(entries, "lexicon"@, 0, 0);
    lemma_lookup_at(entries, "id"@, 1, 0);
    lemma_lookup_at(entries, "revision"@, 2, 0);
    lemma_lookup_at(entries, "description"@, 3, 0);
    lemma_lookup_at(entries, "defs"@, 4, 0);
    lemma_opt_number_round(m.revision);
    lemma_defs_round(m.defs);
}

/// What was read is a value that reading can give.
pub proof fn lemma_doc_sound(j: JsonValue)
    ensures
        doc_of(j) matches Ok(m) ==> doc_well_formed(m),
{
    reveal(doc_of);
    lemma_defs_sound(child(j, "defs"@));
}

/// Writes `x` as a JSON value.
pub fn encode_doc(x: &LexiconDoc) -> (j: Json)
    ensures
        j@ == doc_json(x.deep_view()),
{
    let mut entries: Vec<(String, Json)> = Vec::new();
    entries.push((String::from_str("lexicon"), enc_version(*(&x.lexicon))));
    entries.push((String::from_str("id"), Json::Str((&x.id).clone())));
    entries.push((String::from_str("revision"), enc_opt_number(&x.revision)));
    entries.push((String::from_str("description"), enc_opt_text(&x.description)));
    entries.push((String::from_str("defs"), encode_defs(&x.defs)));
    proof {
        lemma_view_obj(entries);
    }
    let j = Json::Obj(entries);
    assert(j@->Obj_0 =~= doc_json(x.deep_view())->Obj_0);
    j
}

/// Reading what was written gives the document that was written, for
/// every document that reading can give.
pub proof fn lemma_written_document_reads_back(m: LexiconDocModel)
    requires
        doc_well_formed(m),
    ensures
        doc_of(doc_json(m)) == Ok::<LexiconDocModel, Failure>(m),
{
    lemma_doc_round(m);
}

/// A document that was read, written and read again is the same document:
/// reading after writing changes nothing.
pub proof fn lemma_reparse(j: JsonValue)
    ensures
        doc_of(j) matches Ok(m) ==> doc_of(doc_json(m)) == Ok::<LexiconDocModel, Failure>(m),
{
    lemma_doc_sound(j);
    if let Ok(m) = doc_of(j) {
        lemma_doc_round(m);
    }
}

} // verus!
