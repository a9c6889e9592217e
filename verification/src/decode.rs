//! Reading a document out of a JSON value.
//!
//! Every decoder has a specification function of the same shape: the fields
//! are read in their declared order and the first failure is the result. A
//! value that carries a `type` tag is read by that tag alone. A key that
//! the format does not know is passed over.
//!
//! The specification of a record is opaque, so that a proof about a
//! document does not unfold every record in it: `reveal` the one at hand.

use vstd::prelude::*;
use crate::ast::{
    LexArray, LexArrayModel, LexBlob, LexBlobModel, LexBoolean, LexBooleanModel, LexBytes,
    LexBytesModel, LexCidLink, LexCidLinkModel, LexInteger, LexIntegerModel, LexIpldType,
    LexIpldTypeModel, LexItems, LexItemsModel, LexNumber, LexObject, LexObjectModel, LexPrimitive,
    LexPrimitiveArray, LexPrimitiveArrayModel, LexPrimitiveModel, LexProperty, LexPropertyModel,
    LexRecord, LexRecordModel, LexRef, LexRefModel, LexRefUnion, LexRefUnionModel, LexRefVariant,
    LexRefVariantModel, LexString, LexStringFormat, LexStringModel, LexToken, LexTokenModel,
    LexUnknown, LexUnknownModel, LexUserType, LexUserTypeModel, LexXrpcBody, LexXrpcBodyModel,
    LexXrpcBodySchema, LexXrpcBodySchemaModel, LexXrpcError, LexXrpcErrorModel, LexXrpcParameter,
    LexXrpcParameterModel, LexXrpcParameters, LexXrpcParametersModel, LexXrpcProcedure,
    LexXrpcProcedureModel, LexXrpcQuery, LexXrpcQueryModel, LexXrpcSubscription,
    LexXrpcSubscriptionMessage, LexXrpcSubscriptionMessageModel, LexXrpcSubscriptionMessageSchema,
    LexXrpcSubscriptionMessageSchemaModel, LexXrpcSubscriptionModel, LexiconDoc, LexiconDocModel,
    Named, NamedModel, NumberModel,
};
use crate::encode::{doc_well_formed, lemma_doc_sound};
use crate::json::{Json, JsonValue, Member, lemma_view_arr, lemma_view_obj, parse_json, text_model};
use crate::names::{is_valid_nsid, valid_nsid};
use crate::reader::{
    Failure, Kind, ParseError, ParseErrorKind, Step, bool_of, check_shape, check_tag, child,
    fail_mismatch, fail_missing, fail_unknown_type, find, int_of, ints_of, mismatch, opt_bool_field,
    opt_int_field, opt_ints_field, opt_text_field, opt_texts_field, optional_field, outcome,
    present, read_tag, req_text_field, req_texts_field, required_field, shaped, tag_of, tagged,
    text_of, texts_of, under_index, under_key, unknown_type,
};
use crate::text::same_text;

verus! {

/// The string format that `j` names.
pub open spec fn format_of(j: JsonValue) -> Result<LexStringFormat, Failure> {
    match j {
        JsonValue::Str(s) => if s == "datetime"@ {
            Ok(LexStringFormat::Datetime)
        } else if s == "uri"@ {
            Ok(LexStringFormat::Uri)
        } else if s == "at-uri"@ {
            Ok(LexStringFormat::AtUri)
        } else if s == "did"@ {
            Ok(LexStringFormat::Did)
        } else if s == "handle"@ {
            Ok(LexStringFormat::Handle)
        } else if s == "at-identifier"@ {
            Ok(LexStringFormat::AtIdentifier)
        } else if s == "nsid"@ {
            Ok(LexStringFormat::Nsid)
        } else if s == "cid"@ {
            Ok(LexStringFormat::Cid)
        } else {
            Err(mismatch())
        },
        _ => Err(mismatch()),
    }
}

/// Reads the name of a string format.
pub fn decode_format(j: &Json) -> (r: Result<LexStringFormat, ParseError>)
    ensures
        outcome(r) == format_of(j@),
{
    match j {
        Json::Str(s) => {
            let t = s.as_str();
            if same_text(t, "datetime") {
                Ok(LexStringFormat::Datetime)
            } else if same_text(t, "uri") {
                Ok(LexStringFormat::Uri)
            } else if same_text(t, "at-uri") {
                Ok(LexStringFormat::AtUri)
            } else if same_text(t, "did") {
                Ok(LexStringFormat::Did)
            } else if same_text(t, "handle") {
                Ok(LexStringFormat::Handle)
            } else if same_text(t, "at-identifier") {
                Ok(LexStringFormat::AtIdentifier)
            } else if same_text(t, "nsid") {
                Ok(LexStringFormat::Nsid)
            } else if same_text(t, "cid") {
                Ok(LexStringFormat::Cid)
            } else {
                Err(fail_mismatch())
            }
        },
        _ => Err(fail_mismatch()),
    }
}

/// The number that `j` is.
pub open spec fn number_of(j: JsonValue) -> Result<NumberModel, Failure> {
    match j {
        JsonValue::Int(i) => Ok(NumberModel::Int(i)),
        JsonValue::Real(t) => Ok(NumberModel::Real(t)),
        _ => Err(mismatch()),
    }
}

/// Reads a number.
pub fn decode_number(j: &Json) -> (r: Result<LexNumber, ParseError>)
    ensures
        outcome(r) == number_of(j@),
{
    match j {
        Json::Int(i) => Ok(LexNumber::Int(*i)),
        Json::Real(t) => Ok(LexNumber::Real(t.clone())),
        _ => Err(fail_mismatch()),
    }
}

/// The format version of a document: the integer 1 and nothing else.
pub open spec fn version_of(j: JsonValue) -> Result<u8, Failure> {
    match j {
        JsonValue::Int(i) => if i == 1 {
            Ok(1u8)
        } else {
            Err(mismatch())
        },
        _ => Err(mismatch()),
    }
}

/// Reads the format version.
pub fn decode_version(j: &Json) -> (r: Result<u8, ParseError>)
    ensures
        outcome(r) == version_of(j@),
{
    match j {
        Json::Int(i) => if *i == 1 {
            Ok(1u8)
        } else {
            Err(fail_mismatch())
        },
        _ => Err(fail_mismatch()),
    }
}

/// The identifier of a document: a text that is a namespaced identifier.
pub open spec fn nsid_of(j: JsonValue) -> Result<Seq<char>, Failure> {
    match j {
        JsonValue::Str(s) => if valid_nsid(s) {
            Ok(s)
        } else {
            Err(mismatch())
        },
        _ => Err(mismatch()),
    }
}

/// Reads the identifier of a document.
pub fn decode_nsid(j: &Json) -> (r: Result<String, ParseError>)
    ensures
        outcome(r) == nsid_of(j@),
{
    match j {
        Json::Str(s) => if is_valid_nsid(s.as_str()) {
            Ok(s.clone())
        } else {
            Err(fail_mismatch())
        },
        _ => Err(fail_mismatch()),
    }
}

/// Whether the key of entry `i` already stands before it.
pub open spec fn key_before(entries: Seq<Member>, i: int) -> bool {
    exists|k: int| 0 <= k < i && (#[trigger] entries[k]).key == entries[i].key
}

/// Whether the key of entry `i` already stands before it.
pub fn key_seen(entries: &Vec<(String, Json)>, i: usize) -> (r: bool)
    requires
        i < entries.len(),
    ensures
        r == key_before(Json::Obj(*entries)@->Obj_0, i as int),
{
    proof {
        lemma_view_obj(*entries);
    }
    let ghost members = Json::Obj(*entries)@->Obj_0;
    let mut k: usize = 0;
    while k < i
        invariant
            k <= i < entries.len(),
            members == Json::Obj(*entries)@->Obj_0,
            members.len() == entries.len(),
            forall|m: int|
                0 <= m < entries.len() ==> (#[trigger] members[m]) == (Member {
                    key: entries[m].0@,
                    value: entries[m].1@,
                }),
            forall|m: int| 0 <= m < k ==> (#[trigger] members[m]).key != members[i as int].key,
        decreases i - k,
    {
        assert(members[k as int].key == entries[k as int].0@);
        assert(members[i as int].key == entries[i as int].0@);
        if same_text(entries[k].0.as_str(), entries[i].0.as_str()) {
            return true;
        }
        k += 1;
    }
    false
}

/// Whether `name` is the name of one of `entries`.
pub open spec fn listed(entries: Seq<NamedModel<LexPropertyModel>>, name: Seq<char>) -> bool {
    exists|k: int| 0 <= k < entries.len() && (#[trigger] entries[k]).name == name
}

/// Whether `name` is the name of one of `entries`; of no entries it is not.
pub open spec fn has_name(entries: Option<Seq<NamedModel<LexPropertyModel>>>, name: Seq<char>) -> bool {
    match entries {
        None => false,
        Some(es) => listed(es, name),
    }
}

/// Whether every one of `names` is the name of one of `entries`.
pub open spec fn all_listed(names: Seq<Seq<char>>, entries: Option<Seq<NamedModel<LexPropertyModel>>>) -> bool {
    forall|i: int| 0 <= i < names.len() ==> has_name(entries, #[trigger] names[i])
}

/// Whether every one of `names`, if there are any, is the name of one of
/// `entries`.
pub open spec fn names_known(
    names: Option<Seq<Seq<char>>>,
    entries: Option<Seq<NamedModel<LexPropertyModel>>>,
) -> bool {
    match names {
        None => true,
        Some(ns) => all_listed(ns, entries),
    }
}

/// Whether `name` is the name of one of `entries`.
pub fn name_listed(entries: &Option<Vec<Named<LexProperty>>>, name: &str) -> (r: bool)
    ensures
        r == has_name(entries.deep_view(), name@),
{
    match entries {
        None => false,
        Some(es) => {
            let ghost models = es.deep_view();
            let mut k: usize = 0;
            while k < es.len()
                invariant
                    k <= es.len(),
                    models == es.deep_view(),
                    models.len() == es.len(),
                    entries.deep_view() == Some(models),
                    forall|m: int| 0 <= m < k ==> (#[trigger] models[m]).name != name@,
                decreases es.len() - k,
            {
                assert(models[k as int].name == es[k as int].name@);
                if same_text(es[k].name.as_str(), name) {
                    assert(models[k as int].name == name@);
                    return true;
                }
                k += 1;
            }
            false
        },
    }
}

/// Whether every one of `names` is the name of one of `entries`.
pub fn names_listed(names: &Option<Vec<String>>, entries: &Option<Vec<Named<LexProperty>>>) -> (r: bool)
    ensures
        r == names_known(names.deep_view(), entries.deep_view()),
{
    match names {
        None => true,
        Some(ns) => {
            let ghost models = ns.deep_view();
            let mut i: usize = 0;
            while i < ns.len()
                invariant
                    i <= ns.len(),
                    models == ns.deep_view(),
                    models.len() == ns.len(),
                    names.deep_view() == Some(models),
                    forall|m: int| 0 <= m < i ==> has_name(entries.deep_view(), #[trigger] models[m]),
                decreases ns.len() - i,
            {
                assert(models[i as int] == ns[i as int]@);
                if !name_listed(entries, ns[i].as_str()) {
                    assert(!has_name(entries.deep_view(), models[i as int]));
                    return false;
                }
                i += 1;
            }
            true
        },
    }
}

/// What `j` is read as where a [`LexBoolean`] is expected.
#[verifier::opaque]
pub open spec fn boolean_of(j: JsonValue) -> Result<LexBooleanModel, Failure> {
    let description = optional_field(j, "description"@, text_of(child(j, "description"@)));
    let default = optional_field(j, "default"@, bool_of(child(j, "default"@)));
    let const_value = optional_field(j, "const"@, bool_of(child(j, "const"@)));
    match tagged(j, Kind::Boolean) {
        Some(e) => Err(e),
        None => if description is Err {
            Err(description->Err_0)
        } else if default is Err {
            Err(default->Err_0)
        } else if const_value is Err {
            Err(const_value->Err_0)
        } else {
            Ok(LexBooleanModel {
                description: description->Ok_0,
                default: default->Ok_0,
                const_value: const_value->Ok_0,
            })
        },
    }
}

/// Reads a [`LexBoolean`] out of `j`.
pub fn decode_boolean(j: &Json) -> (r: Result<LexBoolean, ParseError>)
    ensures
        outcome(r) == boolean_of(j@),
{
    reveal(boolean_of);
    match check_tag(j, Kind::Boolean) {
        Some(e) => {
            return Err(e);
        },
        None => {},
    }
    let description = match opt_text_field(j, "description") {
        Ok(v) => v,
        Err(e) => {
            return Err(e);
        },
    };
    let default = match opt_bool_field(j, "default") {
        Ok(v) => v,
        Err(e) => {
            return Err(e);
        },
    };
    let const_value = match opt_bool_field(j, "const") {
        Ok(v) => v,
        Err(e) => {
            return Err(e);
        },
    };
    Ok(LexBoolean::Boolean { description, default, const_value })
}

/// A value that is read as a [`LexBoolean`] has the tag of its kind.
pub proof fn lemma_boolean_tag(j: JsonValue)
    ensures
        boolean_of(j) is Ok ==> tag_of(j) == Ok::<Kind, Failure>(Kind::Boolean),
{
    reveal(boolean_of);
}

/// What `j` is read as where a [`LexInteger`] is expected.
#[verifier::opaque]
pub open spec fn integer_of(j: JsonValue) -> Result<LexIntegerModel, Failure> {
    let description = optional_field(j, "description"@, text_of(child(j, "description"@)));
    let default = optional_field(j, "default"@, int_of(child(j, "default"@)));
    let minimum = optional_field(j, "minimum"@, int_of(child(j, "minimum"@)));
    let maximum = optional_field(j, "maximum"@, int_of(child(j, "maximum"@)));
    let enum_values = optional_field(j, "enum"@, ints_of(child(j, "enum"@)));
    let const_value = optional_field(j, "const"@, int_of(child(j, "const"@)));
    match tagged(j, Kind::Integer) {
        Some(e) => Err(e),
        None => if description is Err {
            Err(description->Err_0)
        } else if default is Err {
            Err(default->Err_0)
        } else if minimum is Err {
            Err(minimum->Err_0)
        } else if maximum is Err {
            Err(maximum->Err_0)
        } else if enum_values is Err {
            Err(enum_values->Err_0)
        } else if const_value is Err {
            Err(const_value->Err_0)
        } else {
            Ok(LexIntegerModel {
                description: description->Ok_0,
                default: default->Ok_0,
                minimum: minimum->Ok_0,
                maximum: maximum->Ok_0,
                enum_values: enum_values->Ok_0,
                const_value: const_value->Ok_0,
            })
        },
    }
}

/// Reads a [`LexInteger`] out of `j`.
pub fn decode_integer(j: &Json) -> (r: Result<LexInteger, ParseError>)
    ensures
        outcome(r) == integer_of(j@),
{
    reveal(integer_of);
    match check_tag(j, Kind::Integer) {
        Some(e) => {
            return Err(e);
        },
        None => {},
    }
    let description = match opt_text_field(j, "description") {
        Ok(v) => v,
        Err(e) => {
            return Err(e);
        },
    };
    let default = match opt_int_field(j, "default") {
        Ok(v) => v,
        Err(e) => {
            return Err(e);
        },
    };
    let minimum = match opt_int_field(j, "minimum") {
        Ok(v) => v,
        Err(e) => {
            return Err(e);
        },
    };
    let maximum = match opt_int_field(j, "maximum") {
        Ok(v) => v,
        Err(e) => {
            return Err(e);
        },
    };
    let enum_values = match opt_ints_field(j, "enum") {
        Ok(v) => v,
        Err(e) => {
            return Err(e);
        },
    };
    let const_value = match opt_int_field(j, "const") {
        Ok(v) => v,
        Err(e) => {
            return Err(e);
        },
    };
    Ok(LexInteger::Integer { description, default, minimum, maximum, enum_values, const_value })
}

/// A value that is read as a [`LexInteger`] has the tag of its kind.
pub proof fn lemma_integer_tag(j: JsonValue)
    ensures
        integer_of(j) is Ok ==> tag_of(j) == Ok::<Kind, Failure>(Kind::Integer),
{
    reveal(integer_of);
}

/// What `j` is read as where a [`LexString`] is expected.
#[verifier::opaque]
pub open spec fn string_of(j: JsonValue) -> Result<LexStringModel, Failure> {
    let format = optional_field(j, "format"@, format_of(child(j, "format"@)));
    let description = optional_field(j, "description"@, text_of(child(j, "description"@)));
    let default = optional_field(j, "default"@, text_of(child(j, "default"@)));
    let min_length = optional_field(j, "minLength"@, int_of(child(j, "minLength"@)));
    let max_length = optional_field(j, "maxLength"@, int_of(child(j, "maxLength"@)));
    let min_graphemes = optional_field(j, "minGraphemes"@, int_of(child(j, "minGraphemes"@)));
    let max_graphemes = optional_field(j, "maxGraphemes"@, int_of(child(j, "maxGraphemes"@)));
    let enum_values = optional_field(j, "enum"@, texts_of(child(j, "enum"@)));
    let const_value = optional_field(j, "const"@, text_of(child(j, "const"@)));
    let known_values = optional_field(j, "knownValues"@, texts_of(child(j, "knownValues"@)));
    match tagged(j, Kind::String) {
        Some(e) => Err(e),
        None => if format is Err {
            Err(format->Err_0)
        } else if description is Err {
            Err(description->Err_0)
        } else if default is Err {
            Err(default->Err_0)
        } else if min_length is Err {
            Err(min_length->Err_0)
        } else if max_length is Err {
            Err(max_length->Err_0)
        } else if min_graphemes is Err {
            Err(min_graphemes->Err_0)
        } else if max_graphemes is Err {
            Err(max_graphemes->Err_0)
        } else if enum_values is Err {
            Err(enum_values->Err_0)
        } else if const_value is Err {
            Err(const_value->Err_0)
        } else if known_values is Err {
            Err(known_values->Err_0)
        } else {
            Ok(LexStringModel {
                format: format->Ok_0,
                description: description->Ok_0,
                default: default->Ok_0,
                min_length: min_length->Ok_0,
                max_length: max_length->Ok_0,
                min_graphemes: min_graphemes->Ok_0,
                max_graphemes: max_graphemes->Ok_0,
                enum_values: enum_values->Ok_0,
                const_value: const_value->Ok_0,
                known_values: known_values->Ok_0,
            })
        },
    }
}

/// Reads a [`LexString`] out of `j`.
pub fn decode_string(j: &Json) -> (r: Result<LexString, ParseError>)
    ensures
        outcome(r) == string_of(j@),
{
    reveal(string_of);
    match check_tag(j, Kind::String) {
        Some(e) => {
            return Err(e);
        },
        None => {},
    }
    let format = match present(j, "format") {
        None => None,
        Some(c) => match decode_format(c) {
            Ok(v) => Some(v),
            Err(e) => {
                return Err(under_key(e, "format"));
            },
        },
    };
    let description = match opt_text_field(j, "description") {
        Ok(v) => v,
        Err(e) => {
            return Err(e);
        },
    };
    let default = match opt_text_field(j, "default") {
        Ok(v) => v,
        Err(e) => {
            return Err(e);
        },
    };
    let min_length = match opt_int_field(j, "minLength") {
        Ok(v) => v,
        Err(e) => {
            return Err(e);
        },
    };
    let max_length = match opt_int_field(j, "maxLength") {
        Ok(v) => v,
        Err(e) => {
            return Err(e);
        },
    };
    let min_graphemes = match opt_int_field(j, "minGraphemes") {
        Ok(v) => v,
        Err(e) => {
            return Err(e);
        },
    };
    let max_graphemes = match opt_int_field(j, "maxGraphemes") {
        Ok(v) => v,
        Err(e) => {
            return Err(e);
        },
    };
    let enum_values = match opt_texts_field(j, "enum") {
        Ok(v) => v,
        Err(e) => {
            return Err(e);
        },
    };
    let const_value = match opt_text_field(j, "const") {
        Ok(v) => v,
        Err(e) => {
            return Err(e);
        },
    };
    let known_values = match opt_texts_field(j, "knownValues") {
        Ok(v) => v,
        Err(e) => {
            return Err(e);
        },
    };
    Ok(LexString::String { format, description, default, min_length, max_length, min_graphemes, max_graphemes, enum_values, const_value, known_values })
}

/// A value that is read as a [`LexString`] has the tag of its kind.
pub proof fn lemma_string_tag(j: JsonValue)
    ensures
        string_of(j) is Ok ==> tag_of(j) == Ok::<Kind, Failure>(Kind::String),
{
    reveal(string_of);
}

/// What `j` is read as where a [`LexUnknown`] is expected.
#[verifier::opaque]
pub open spec fn unknown_of(j: JsonValue) -> Result<LexUnknownModel, Failure> {
    let description = optional_field(j, "description"@, text_of(child(j, "description"@)));
    match tagged(j, Kind::Unknown) {
        Some(e) => Err(e),
        None => if description is Err {
            Err(description->Err_0)
        } else {
            Ok(LexUnknownModel {
                description: description->Ok_0,
            })
        },
    }
}

/// Reads a [`LexUnknown`] out of `j`.
pub fn decode_unknown(j: &Json) -> (r: Result<LexUnknown, ParseError>)
    ensures
        outcome(r) == unknown_of(j@),
{
    reveal(unknown_of);
    match check_tag(j, Kind::Unknown) {
        Some(e) => {
            return Err(e);
        },
        None => {},
    }
    let description = match opt_text_field(j, "description") {
        Ok(v) => v,
        Err(e) => {
            return Err(e);
        },
    };
    Ok(LexUnknown::Unknown { description })
}

/// A value that is read as a [`LexUnknown`] has the tag of its kind.
pub proof fn lemma_unknown_tag(j: JsonValue)
    ensures
        unknown_of(j) is Ok ==> tag_of(j) == Ok::<Kind, Failure>(Kind::Unknown),
{
    reveal(unknown_of);
}

/// What `j` is read as where a [`LexPrimitive`] is expected: the variant that its
/// tag names.
pub open spec fn primitive_of(j: JsonValue) -> Result<LexPrimitiveModel, Failure> {
    match tag_of(j) {
        Err(e) => Err(e),
        Ok(Kind::Boolean) => match boolean_of(j) {
            Ok(m) => Ok(LexPrimitiveModel::Boolean(m)),
            Err(e) => Err(e),
        },
        Ok(Kind::Integer) => match integer_of(j) {
            Ok(m) => Ok(LexPrimitiveModel::Integer(m)),
            Err(e) => Err(e),
        },
        Ok(Kind::String) => match string_of(j) {
            Ok(m) => Ok(LexPrimitiveModel::String(m)),
            Err(e) => Err(e),
        },
        Ok(Kind::Unknown) => match unknown_of(j) {
            Ok(m) => Ok(LexPrimitiveModel::Unknown(m)),
            Err(e) => Err(e),
        },
        Ok(_) => Err(unknown_type()),
    }
}

/// Reads a [`LexPrimitive`] out of `j`.
pub fn decode_primitive(j: &Json) -> (r: Result<LexPrimitive, ParseError>)
    ensures
        outcome(r) == primitive_of(j@),
{
    match read_tag(j) {
        Err(e) => Err(e),
        Ok(Kind::Boolean) => match decode_boolean(j) {
            Ok(v) => Ok(LexPrimitive::Boolean(v)),
            Err(e) => Err(e),
        },
        Ok(Kind::Integer) => match decode_integer(j) {
            Ok(v) => Ok(LexPrimitive::Integer(v)),
            Err(e) => Err(e),
        },
        Ok(Kind::String) => match decode_string(j) {
            Ok(v) => Ok(LexPrimitive::String(v)),
            Err(e) => Err(e),
        },
        Ok(Kind::Unknown) => match decode_unknown(j) {
            Ok(v) => Ok(LexPrimitive::Unknown(v)),
            Err(e) => Err(e),
        },
        Ok(_) => Err(fail_unknown_type()),
    }
}

/// A value that is read as a [`LexPrimitive`] has one of its tags.
pub proof fn lemma_primitive_tag(j: JsonValue)
    ensures
        primitive_of(j) is Ok ==> tag_of(j) == Ok::<Kind, Failure>(Kind::Boolean) || tag_of(j) == Ok::<Kind, Failure>(Kind::Integer) || tag_of(j) == Ok::<Kind, Failure>(Kind::String) || tag_of(j) == Ok::<Kind, Failure>(Kind::Unknown),
{
}

/// What `j` is read as where the variants of [`LexPrimitive`] are tried in their
/// declared order and the first that reads is taken.
pub open spec fn primitive_by_order(j: JsonValue) -> Option<LexPrimitiveModel> {
    if boolean_of(j) is Ok {
        Some(LexPrimitiveModel::Boolean(boolean_of(j)->Ok_0))
    } else if integer_of(j) is Ok {
        Some(LexPrimitiveModel::Integer(integer_of(j)->Ok_0))
    } else if string_of(j) is Ok {
        Some(LexPrimitiveModel::String(string_of(j)->Ok_0))
    } else if unknown_of(j) is Ok {
        Some(LexPrimitiveModel::Unknown(unknown_of(j)->Ok_0))
    } else {
        None
    }
}

/// Reading by the tag and trying the variants in their declared order
/// come to the same: the tags of the variants are pairwise different, so
/// at most one variant reads.
pub proof fn lemma_primitive_first_match(j: JsonValue)
    ensures
        primitive_of(j) matches Ok(m) ==> primitive_by_order(j) == Some(m),
        primitive_of(j) is Err ==> primitive_by_order(j) is None,
{
    lemma_boolean_tag(j);
    lemma_integer_tag(j);
    lemma_string_tag(j);
    lemma_unknown_tag(j);
}

/// What `j` is read as where a [`LexBytes`] is expected.
#[verifier::opaque]
pub open spec fn bytes_of(j: JsonValue) -> Result<LexBytesModel, Failure> {
    let description = optional_field(j, "description"@, text_of(child(j, "description"@)));
    let default = optional_field(j, "default"@, text_of(child(j, "default"@)));
    let const_value = optional_field(j, "const"@, text_of(child(j, "const"@)));
    match tagged(j, Kind::Bytes) {
        Some(e) => Err(e),
        None => if description is Err {
            Err(description->Err_0)
        } else if default is Err {
            Err(default->Err_0)
        } else if const_value is Err {
            Err(const_value->Err_0)
        } else {
            Ok(LexBytesModel {
                description: description->Ok_0,
                default: default->Ok_0,
                const_value: const_value->Ok_0,
            })
        },
    }
}

/// Reads a [`LexBytes`] out of `j`.
pub fn decode_bytes(j: &Json) -> (r: Result<LexBytes, ParseError>)
    ensures
        outcome(r) == bytes_of(j@),
{
    reveal(bytes_of);
    match check_tag(j, Kind::Bytes) {
        Some(e) => {
            return Err(e);
        },
        None => {},
    }
    let description = match opt_text_field(j, "description") {
        Ok(v) => v,
        Err(e) => {
            return Err(e);
        },
    };
    let default = match opt_text_field(j, "default") {
        Ok(v) => v,
        Err(e) => {
            return Err(e);
        },
    };
    let const_value = match opt_text_field(j, "const") {
        Ok(v) => v,
        Err(e) => {
            return Err(e);
        },
    };
    Ok(LexBytes::Bytes { description, default, const_value })
}

/// A value that is read as a [`LexBytes`] has the tag of its kind.
pub proof fn lemma_bytes_tag(j: JsonValue)
    ensures
        bytes_of(j) is Ok ==> tag_of(j) == Ok::<Kind, Failure>(Kind::Bytes),
{
    reveal(bytes_of);
}

/// What `j` is read as where a [`LexCidLink`] is expected.
#[verifier::opaque]
pub open spec fn cid_link_of(j: JsonValue) -> Result<LexCidLinkModel, Failure> {
    let description = optional_field(j, "description"@, text_of(child(j, "description"@)));
    match tagged(j, Kind::CidLink) {
        Some(e) => Err(e),
        None => if description is Err {
            Err(description->Err_0)
        } else {
            Ok(LexCidLinkModel {
                description: description->Ok_0,
            })
        },
    }
}

/// Reads a [`LexCidLink`] out of `j`.
pub fn decode_cid_link(j: &Json) -> (r: Result<LexCidLink, ParseError>)
    ensures
        outcome(r) == cid_link_of(j@),
{
    reveal(cid_link_of);
    match check_tag(j, Kind::CidLink) {
        Some(e) => {
            return Err(e);
        },
        None => {},
    }
    let description = match opt_text_field(j, "description") {
        Ok(v) => v,
        Err(e) => {
            return Err(e);
        },
    };
    Ok(LexCidLink::CidLink { description })
}

/// A value that is read as a [`LexCidLink`] has the tag of its kind.
pub proof fn lemma_cid_link_tag(j: JsonValue)
    ensures
        cid_link_of(j) is Ok ==> tag_of(j) == Ok::<Kind, Failure>(Kind::CidLink),
{
    reveal(cid_link_of);
}

/// What `j` is read as where a [`LexIpldType`] is expected: the variant that its
/// tag names.
pub open spec fn ipld_of(j: JsonValue) -> Result<LexIpldTypeModel, Failure> {
    match tag_of(j) {
        Err(e) => Err(e),
        Ok(Kind::Bytes) => match bytes_of(j) {
            Ok(m) => Ok(LexIpldTypeModel::Bytes(m)),
            Err(e) => Err(e),
        },
        Ok(Kind::CidLink) => match cid_link_of(j) {
            Ok(m) => Ok(LexIpldTypeModel::CidLink(m)),
            Err(e) => Err(e),
        },
        Ok(_) => Err(unknown_type()),
    }
}

/// Reads a [`LexIpldType`] out of `j`.
pub fn decode_ipld(j: &Json) -> (r: Result<LexIpldType, ParseError>)
    ensures
        outcome(r) == ipld_of(j@),
{
    match read_tag(j) {
        Err(e) => Err(e),
        Ok(Kind::Bytes) => match decode_bytes(j) {
            Ok(v) => Ok(LexIpldType::Bytes(v)),
            Err(e) => Err(e),
        },
        Ok(Kind::CidLink) => match decode_cid_link(j) {
            Ok(v) => Ok(LexIpldType::CidLink(v)),
            Err(e) => Err(e),
        },
        Ok(_) => Err(fail_unknown_type()),
    }
}

/// A value that is read as a [`LexIpldType`] has one of its tags.
pub proof fn lemma_ipld_tag(j: JsonValue)
    ensures
        ipld_of(j) is Ok ==> tag_of(j) == Ok::<Kind, Failure>(Kind::Bytes) || tag_of(j) == Ok::<Kind, Failure>(Kind::CidLink),
{
}

/// What `j` is read as where the variants of [`LexIpldType`] are tried in their
/// declared order and the first that reads is taken.
pub open spec fn ipld_by_order(j: JsonValue) -> Option<LexIpldTypeModel> {
    if bytes_of(j) is Ok {
        Some(LexIpldTypeModel::Bytes(bytes_of(j)->Ok_0))
    } else if cid_link_of(j) is Ok {
        Some(LexIpldTypeModel::CidLink(cid_link_of(j)->Ok_0))
    } else {
        None
    }
}

/// Reading by the tag and trying the variants in their declared order
/// come to the same: the tags of the variants are pairwise different, so
/// at most one variant reads.
pub proof fn lemma_ipld_first_match(j: JsonValue)
    ensures
        ipld_of(j) matches Ok(m) ==> ipld_by_order(j) == Some(m),
        ipld_of(j) is Err ==> ipld_by_order(j) is None,
{
    lemma_bytes_tag(j);
    lemma_cid_link_tag(j);
}

/// What `j` is read as where a [`LexRef`] is expected.
#[verifier::opaque]
pub open spec fn reference_of(j: JsonValue) -> Result<LexRefModel, Failure> {
    let description = optional_field(j, "description"@, text_of(child(j, "description"@)));
    let reference = required_field(j, "ref"@, text_of(child(j, "ref"@)));
    match tagged(j, Kind::Ref) {
        Some(e) => Err(e),
        None => if description is Err {
            Err(description->Err_0)
        } else if reference is Err {
            Err(reference->Err_0)
        } else {
            Ok(LexRefModel {
                description: description->Ok_0,
                reference: reference->Ok_0,
            })
        },
    }
}

/// Reads a [`LexRef`] out of `j`.
pub fn decode_reference(j: &Json) -> (r: Result<LexRef, ParseError>)
    ensures
        outcome(r) == reference_of(j@),
{
    reveal(reference_of);
    match check_tag(j, Kind::Ref) {
        Some(e) => {
            return Err(e);
        },
        None => {},
    }
    let description = match opt_text_field(j, "description") {
        Ok(v) => v,
        Err(e) => {
            return Err(e);
        },
    };
    let reference = match req_text_field(j, "ref") {
        Ok(v) => v,
        Err(e) => {
            return Err(e);
        },
    };
    Ok(LexRef::Ref { description, reference })
}

/// A value that is read as a [`LexRef`] has the tag of its kind.
pub proof fn lemma_reference_tag(j: JsonValue)
    ensures
        reference_of(j) is Ok ==> tag_of(j) == Ok::<Kind, Failure>(Kind::Ref),
{
    reveal(reference_of);
}

/// What `j` is read as where a [`LexRefUnion`] is expected.
#[verifier::opaque]
pub open spec fn ref_union_of(j: JsonValue) -> Result<LexRefUnionModel, Failure> {
    let description = optional_field(j, "description"@, text_of(child(j, "description"@)));
    let refs = required_field(j, "refs"@, texts_of(child(j, "refs"@)));
    let closed = optional_field(j, "closed"@, bool_of(child(j, "closed"@)));
    match tagged(j, Kind::Union) {
        Some(e) => Err(e),
        None => if description is Err {
            Err(description->Err_0)
        } else if refs is Err {
            Err(refs->Err_0)
        } else if closed is Err {
            Err(closed->Err_0)
        } else {
            Ok(LexRefUnionModel {
                description: description->Ok_0,
                refs: refs->Ok_0,
                closed: closed->Ok_0,
            })
        },
    }
}

/// Reads a [`LexRefUnion`] out of `j`.
pub fn decode_ref_union(j: &Json) -> (r: Result<LexRefUnion, ParseError>)
    ensures
        outcome(r) == ref_union_of(j@),
{
    reveal(ref_union_of);
    match check_tag(j, Kind::Union) {
        Some(e) => {
            return Err(e);
        },
        None => {},
    }
    let description = match opt_text_field(j, "description") {
        Ok(v) => v,
        Err(e) => {
            return Err(e);
        },
    };
    let refs = match req_texts_field(j, "refs") {
        Ok(v) => v,
        Err(e) => {
            return Err(e);
        },
    };
    let closed = match opt_bool_field(j, "closed") {
        Ok(v) => v,
        Err(e) => {
            return Err(e);
        },
    };
    Ok(LexRefUnion::Union { description, refs, closed })
}

/// A value that is read as a [`LexRefUnion`] has the tag of its kind.
pub proof fn lemma_ref_union_tag(j: JsonValue)
    ensures
        ref_union_of(j) is Ok ==> tag_of(j) == Ok::<Kind, Failure>(Kind::Union),
{
    reveal(ref_union_of);
}

/// What `j` is read as where a [`LexRefVariant`] is expected: the variant that its
/// tag names.
pub open spec fn ref_variant_of(j: JsonValue) -> Result<LexRefVariantModel, Failure> {
    match tag_of(j) {
        Err(e) => Err(e),
        Ok(Kind::Ref) => match reference_of(j) {
            Ok(m) => Ok(LexRefVariantModel::Ref(m)),
            Err(e) => Err(e),
        },
        Ok(Kind::Union) => match ref_union_of(j) {
            Ok(m) => Ok(LexRefVariantModel::RefUnion(m)),
            Err(e) => Err(e),
        },
        Ok(_) => Err(unknown_type()),
    }
}

/// Reads a [`LexRefVariant`] out of `j`.
pub fn decode_ref_variant(j: &Json) -> (r: Result<LexRefVariant, ParseError>)
    ensures
        outcome(r) == ref_variant_of(j@),
{
    match read_tag(j) {
        Err(e) => Err(e),
        Ok(Kind::Ref) => match decode_reference(j) {
            Ok(v) => Ok(LexRefVariant::Ref(v)),
            Err(e) => Err(e),
        },
        Ok(Kind::Union) => match decode_ref_union(j) {
            Ok(v) => Ok(LexRefVariant::RefUnion(v)),
            Err(e) => Err(e),
        },
        Ok(_) => Err(fail_unknown_type()),
    }
}

/// A value that is read as a [`LexRefVariant`] has one of its tags.
pub proof fn lemma_ref_variant_tag(j: JsonValue)
    ensures
        ref_variant_of(j) is Ok ==> tag_of(j) == Ok::<Kind, Failure>(Kind::Ref) || tag_of(j) == Ok::<Kind, Failure>(Kind::Union),
{
}

/// What `j` is read as where the variants of [`LexRefVariant`] are tried in their
/// declared order and the first that reads is taken.
pub open spec fn ref_variant_by_order(j: JsonValue) -> Option<LexRefVariantModel> {
    if reference_of(j) is Ok {
        Some(LexRefVariantModel::Ref(reference_of(j)->Ok_0))
    } else if ref_union_of(j) is Ok {
        Some(LexRefVariantModel::RefUnion(ref_union_of(j)->Ok_0))
    } else {
        None
    }
}

/// Reading by the tag and trying the variants in their declared order
/// come to the same: the tags of the variants are pairwise different, so
/// at most one variant reads.
pub proof fn lemma_ref_variant_first_match(j: JsonValue)
    ensures
        ref_variant_of(j) matches Ok(m) ==> ref_variant_by_order(j) == Some(m),
        ref_variant_of(j) is Err ==> ref_variant_by_order(j) is None,
{
    lemma_reference_tag(j);
    lemma_ref_union_tag(j);
}

/// What `j` is read as where a [`LexBlob`] is expected.
#[verifier::opaque]
pub open spec fn blob_of(j: JsonValue) -> Result<LexBlobModel, Failure> {
    let description = optional_field(j, "description"@, text_of(child(j, "description"@)));
    let accept = optional_field(j, "accept"@, texts_of(child(j, "accept"@)));
    let max_size = optional_field(j, "maxSize"@, int_of(child(j, "maxSize"@)));
    match tagged(j, Kind::Blob) {
        Some(e) => Err(e),
        None => if description is Err {
            Err(description->Err_0)
        } else if accept is Err {
            Err(accept->Err_0)
        } else if max_size is Err {
            Err(max_size->Err_0)
        } else {
            Ok(LexBlobModel {
                description: description->Ok_0,
                accept: accept->Ok_0,
                max_size: max_size->Ok_0,
            })
        },
    }
}

/// Reads a [`LexBlob`] out of `j`.
pub fn decode_blob(j: &Json) -> (r: Result<LexBlob, ParseError>)
    ensures
        outcome(r) == blob_of(j@),
{
    reveal(blob_of);
    match check_tag(j, Kind::Blob) {
        Some(e) => {
            return Err(e);
        },
        None => {},
    }
    let description = match opt_text_field(j, "description") {
        Ok(v) => v,
        Err(e) => {
            return Err(e);
        },
    };
    let accept = match opt_texts_field(j, "accept") {
        Ok(v) => v,
        Err(e) => {
            return Err(e);
        },
    };
    let max_size = match opt_int_field(j, "maxSize") {
        Ok(v) => v,
        Err(e) => {
            return Err(e);
        },
    };
    Ok(LexBlob::Blob { description, accept, max_size })
}

/// A value that is read as a [`LexBlob`] has the tag of its kind.
pub proof fn lemma_blob_tag(j: JsonValue)
    ensures
        blob_of(j) is Ok ==> tag_of(j) == Ok::<Kind, Failure>(Kind::Blob),
{
    reveal(blob_of);
}

/// What `j` is read as where a [`LexItems`] is expected: the variant that its
/// tag names.
pub open spec fn items_of(j: JsonValue) -> Result<LexItemsModel, Failure> {
    match tag_of(j) {
        Err(e) => Err(e),
        Ok(Kind::Boolean) => match primitive_of(j) {
            Ok(m) => Ok(LexItemsModel::Primitive(m)),
            Err(e) => Err(e),
        },
        Ok(Kind::Integer) => match primitive_of(j) {
            Ok(m) => Ok(LexItemsModel::Primitive(m)),
            Err(e) => Err(e),
        },
        Ok(Kind::String) => match primitive_of(j) {
            Ok(m) => Ok(LexItemsModel::Primitive(m)),
            Err(e) => Err(e),
        },
        Ok(Kind::Unknown) => match primitive_of(j) {
            Ok(m) => Ok(LexItemsModel::Primitive(m)),
            Err(e) => Err(e),
        },
        Ok(Kind::Bytes) => match ipld_of(j) {
            Ok(m) => Ok(LexItemsModel::IpldType(m)),
            Err(e) => Err(e),
        },
        Ok(Kind::CidLink) => match ipld_of(j) {
            Ok(m) => Ok(LexItemsModel::IpldType(m)),
            Err(e) => Err(e),
        },
        Ok(Kind::Blob) => match blob_of(j) {
            Ok(m) => Ok(LexItemsModel::Blob(m)),
            Err(e) => Err(e),
        },
        Ok(Kind::Ref) => match ref_variant_of(j) {
            Ok(m) => Ok(LexItemsModel::RefVariant(m)),
            Err(e) => Err(e),
        },
        Ok(Kind::Union) => match ref_variant_of(j) {
            Ok(m) => Ok(LexItemsModel::RefVariant(m)),
            Err(e) => Err(e),
        },
        Ok(_) => Err(unknown_type()),
    }
}

/// Reads a [`LexItems`] out of `j`.
pub fn decode_items(j: &Json) -> (r: Result<LexItems, ParseError>)
    ensures
        outcome(r) == items_of(j@),
{
    match read_tag(j) {
        Err(e) => Err(e),
        Ok(Kind::Boolean) => match decode_primitive(j) {
            Ok(v) => Ok(LexItems::Primitive(v)),
            Err(e) => Err(e),
        },
        Ok(Kind::Integer) => match decode_primitive(j) {
            Ok(v) => Ok(LexItems::Primitive(v)),
            Err(e) => Err(e),
        },
        Ok(Kind::String) => match decode_primitive(j) {
            Ok(v) => Ok(LexItems::Primitive(v)),
            Err(e) => Err(e),
        },
        Ok(Kind::Unknown) => match decode_primitive(j) {
            Ok(v) => Ok(LexItems::Primitive(v)),
            Err(e) => Err(e),
        },
        Ok(Kind::Bytes) => match decode_ipld(j) {
            Ok(v) => Ok(LexItems::IpldType(v)),
            Err(e) => Err(e),
        },
        Ok(Kind::CidLink) => match decode_ipld(j) {
            Ok(v) => Ok(LexItems::IpldType(v)),
            Err(e) => Err(e),
        },
        Ok(Kind::Blob) => match decode_blob(j) {
            Ok(v) => Ok(LexItems::Blob(v)),
            Err(e) => Err(e),
        },
        Ok(Kind::Ref) => match decode_ref_variant(j) {
            Ok(v) => Ok(LexItems::RefVariant(v)),
            Err(e) => Err(e),
        },
        Ok(Kind::Union) => match decode_ref_variant(j) {
            Ok(v) => Ok(LexItems::RefVariant(v)),
            Err(e) => Err(e),
        },
        Ok(_) => Err(fail_unknown_type()),
    }
}

/// What `j` is read as where the variants of [`LexItems`] are tried in their
/// declared order and the first that reads is taken.
pub open spec fn items_by_order(j: JsonValue) -> Option<LexItemsModel> {
    if primitive_of(j) is Ok {
        Some(LexItemsModel::Primitive(primitive_of(j)->Ok_0))
    } else if ipld_of(j) is Ok {
        Some(LexItemsModel::IpldType(ipld_of(j)->Ok_0))
    } else if blob_of(j) is Ok {
        Some(LexItemsModel::Blob(blob_of(j)->Ok_0))
    } else if ref_variant_of(j) is Ok {
        Some(LexItemsModel::RefVariant(ref_variant_of(j)->Ok_0))
    } else {
        None
    }
}

/// Reading by the tag and trying the variants in their declared order
/// come to the same: the tags of the variants are pairwise different, so
/// at most one variant reads.
pub proof fn lemma_items_first_match(j: JsonValue)
    ensures
        items_of(j) matches Ok(m) ==> items_by_order(j) == Some(m),
        items_of(j) is Err ==> items_by_order(j) is None,
{
    lemma_primitive_tag(j);
    lemma_ipld_tag(j);
    lemma_blob_tag(j);
    lemma_ref_variant_tag(j);
}

/// What `j` is read as where a [`LexArray`] is expected.
#[verifier::opaque]
pub open spec fn array_of(j: JsonValue) -> Result<LexArrayModel, Failure> {
    let description = optional_field(j, "description"@, text_of(child(j, "description"@)));
    let items = required_field(j, "items"@, items_of(child(j, "items"@)));
    let min_length = optional_field(j, "minLength"@, int_of(child(j, "minLength"@)));
    let max_length = optional_field(j, "maxLength"@, int_of(child(j, "maxLength"@)));
    match tagged(j, Kind::Array) {
        Some(e) => Err(e),
        None => if description is Err {
            Err(description->Err_0)
        } else if items is Err {
            Err(items->Err_0)
        } else if min_length is Err {
            Err(min_length->Err_0)
        } else if max_length is Err {
            Err(max_length->Err_0)
        } else {
            Ok(LexArrayModel {
                description: description->Ok_0,
                items: items->Ok_0,
                min_length: min_length->Ok_0,
                max_length: max_length->Ok_0,
            })
        },
    }
}

/// Reads a [`LexArray`] out of `j`.
pub fn decode_array(j: &Json) -> (r: Result<LexArray, ParseError>)
    ensures
        outcome(r) == array_of(j@),
{
    reveal(array_of);
    match check_tag(j, Kind::Array) {
        Some(e) => {
            return Err(e);
        },
        None => {},
    }
    let description = match opt_text_field(j, "description") {
        Ok(v) => v,
        Err(e) => {
            return Err(e);
        },
    };
    let items = match find(j, "items") {
        None => {
            return Err(fail_missing("items"));
        },
        Some(c) => match decode_items(c) {
            Ok(v) => v,
            Err(e) => {
                return Err(under_key(e, "items"));
            },
        },
    };
    let min_length = match opt_int_field(j, "minLength") {
        Ok(v) => v,
        Err(e) => {
            return Err(e);
        },
    };
    let max_length = match opt_int_field(j, "maxLength") {
        Ok(v) => v,
        Err(e) => {
            return Err(e);
        },
    };
    Ok(LexArray::Array { description, items, min_length, max_length })
}

/// A value that is read as a [`LexArray`] has the tag of its kind.
pub proof fn lemma_array_tag(j: JsonValue)
    ensures
        array_of(j) is Ok ==> tag_of(j) == Ok::<Kind, Failure>(Kind::Array),
{
    reveal(array_of);
}

/// What `j` is read as where a [`LexPrimitiveArray`] is expected.
#[verifier::opaque]
pub open spec fn primitive_array_of(j: JsonValue) -> Result<LexPrimitiveArrayModel, Failure> {
    let description = optional_field(j, "description"@, text_of(child(j, "description"@)));
    let items = required_field(j, "items"@, primitive_of(child(j, "items"@)));
    let min_length = optional_field(j, "minLength"@, int_of(child(j, "minLength"@)));
    let max_length = optional_field(j, "maxLength"@, int_of(child(j, "maxLength"@)));
    match tagged(j, Kind::Array) {
        Some(e) => Err(e),
        None => if description is Err {
            Err(description->Err_0)
        } else if items is Err {
            Err(items->Err_0)
        } else if min_length is Err {
            Err(min_length->Err_0)
        } else if max_length is Err {
            Err(max_length->Err_0)
        } else {
            Ok(LexPrimitiveArrayModel {
                description: description->Ok_0,
                items: items->Ok_0,
                min_length: min_length->Ok_0,
                max_length: max_length->Ok_0,
            })
        },
    }
}

/// Reads a [`LexPrimitiveArray`] out of `j`.
pub fn decode_primitive_array(j: &Json) -> (r: Result<LexPrimitiveArray, ParseError>)
    ensures
        outcome(r) == primitive_array_of(j@),
{
    reveal(primitive_array_of);
    match check_tag(j, Kind::Array) {
        Some(e) => {
            return Err(e);
        },
        None => {},
    }
    let description = match opt_text_field(j, "description") {
        Ok(v) => v,
        Err(e) => {
            return Err(e);
        },
    };
    let items = match find(j, "items") {
        None => {
            return Err(fail_missing("items"));
        },
        Some(c) => match decode_primitive(c) {
            Ok(v) => v,
            Err(e) => {
                return Err(under_key(e, "items"));
            },
        },
    };
    let min_length = match opt_int_field(j, "minLength") {
        Ok(v) => v,
        Err(e) => {
            return Err(e);
        },
    };
    let max_length = match opt_int_field(j, "maxLength") {
        Ok(v) => v,
        Err(e) => {
            return Err(e);
        },
    };
    Ok(LexPrimitiveArray::Array { description, items, min_length, max_length })
}

/// A value that is read as a [`LexPrimitiveArray`] has the tag of its kind.
pub proof fn lemma_primitive_array_tag(j: JsonValue)
    ensures
        primitive_array_of(j) is Ok ==> tag_of(j) == Ok::<Kind, Failure>(Kind::Array),
{
    reveal(primitive_array_of);
}

/// What `j` is read as where a [`LexToken`] is expected.
#[verifier::opaque]
pub open spec fn token_of(j: JsonValue) -> Result<LexTokenModel, Failure> {
    let description = optional_field(j, "description"@, text_of(child(j, "description"@)));
    match tagged(j, Kind::Token) {
        Some(e) => Err(e),
        None => if description is Err {
            Err(description->Err_0)
        } else {
            Ok(LexTokenModel {
                description: description->Ok_0,
            })
        },
    }
}

/// Reads a [`LexToken`] out of `j`.
pub fn decode_token(j: &Json) -> (r: Result<LexToken, ParseError>)
    ensures
        outcome(r) == token_of(j@),
{
    reveal(token_of);
    match check_tag(j, Kind::Token) {
        Some(e) => {
            return Err(e);
        },
        None => {},
    }
    let description = match opt_text_field(j, "description") {
        Ok(v) => v,
        Err(e) => {
            return Err(e);
        },
    };
    Ok(LexToken::Token { description })
}

/// What `j` is read as where a [`LexProperty`] is expected: the variant that its
/// tag names.
pub open spec fn property_of(j: JsonValue) -> Result<LexPropertyModel, Failure> {
    match tag_of(j) {
        Err(e) => Err(e),
        Ok(Kind::Ref) => match ref_variant_of(j) {
            Ok(m) => Ok(LexPropertyModel::RefVariant(m)),
            Err(e) => Err(e),
        },
        Ok(Kind::Union) => match ref_variant_of(j) {
            Ok(m) => Ok(LexPropertyModel::RefVariant(m)),
            Err(e) => Err(e),
        },
        Ok(Kind::Bytes) => match ipld_of(j) {
            Ok(m) => Ok(LexPropertyModel::IpldType(m)),
            Err(e) => Err(e),
        },
        Ok(Kind::CidLink) => match ipld_of(j) {
            Ok(m) => Ok(LexPropertyModel::IpldType(m)),
            Err(e) => Err(e),
        },
        Ok(Kind::Array) => match array_of(j) {
            Ok(m) => Ok(LexPropertyModel::Array(m)),
            Err(e) => Err(e),
        },
        Ok(Kind::Blob) => match blob_of(j) {
            Ok(m) => Ok(LexPropertyModel::Blob(m)),
            Err(e) => Err(e),
        },
        Ok(Kind::Boolean) => match primitive_of(j) {
            Ok(m) => Ok(LexPropertyModel::Primitive(m)),
            Err(e) => Err(e),
        },
        Ok(Kind::Integer) => match primitive_of(j) {
            Ok(m) => Ok(LexPropertyModel::Primitive(m)),
            Err(e) => Err(e),
        },
        Ok(Kind::String) => match primitive_of(j) {
            Ok(m) => Ok(LexPropertyModel::Primitive(m)),
            Err(e) => Err(e),
        },
        Ok(Kind::Unknown) => match primitive_of(j) {
            Ok(m) => Ok(LexPropertyModel::Primitive(m)),
            Err(e) => Err(e),
        },
        Ok(_) => Err(unknown_type()),
    }
}

/// Reads a [`LexProperty`] out of `j`.
pub fn decode_property(j: &Json) -> (r: Result<LexProperty, ParseError>)
    ensures
        outcome(r) == property_of(j@),
{
    match read_tag(j) {
        Err(e) => Err(e),
        Ok(Kind::Ref) => match decode_ref_variant(j) {
            Ok(v) => Ok(LexProperty::RefVariant(v)),
            Err(e) => Err(e),
        },
        Ok(Kind::Union) => match decode_ref_variant(j) {
            Ok(v) => Ok(LexProperty::RefVariant(v)),
            Err(e) => Err(e),
        },
        Ok(Kind::Bytes) => match decode_ipld(j) {
            Ok(v) => Ok(LexProperty::IpldType(v)),
            Err(e) => Err(e),
        },
        Ok(Kind::CidLink) => match decode_ipld(j) {
            Ok(v) => Ok(LexProperty::IpldType(v)),
            Err(e) => Err(e),
        },
        Ok(Kind::Array) => match decode_array(j) {
            Ok(v) => Ok(LexProperty::Array(v)),
            Err(e) => Err(e),
        },
        Ok(Kind::Blob) => match decode_blob(j) {
            Ok(v) => Ok(LexProperty::Blob(v)),
            Err(e) => Err(e),
        },
        Ok(Kind::Boolean) => match decode_primitive(j) {
            Ok(v) => Ok(LexProperty::Primitive(v)),
            Err(e) => Err(e),
        },
        Ok(Kind::Integer) => match decode_primitive(j) {
            Ok(v) => Ok(LexProperty::Primitive(v)),
            Err(e) => Err(e),
        },
        Ok(Kind::String) => match decode_primitive(j) {
            Ok(v) => Ok(LexProperty::Primitive(v)),
            Err(e) => Err(e),
        },
        Ok(Kind::Unknown) => match decode_primitive(j) {
            Ok(v) => Ok(LexProperty::Primitive(v)),
            Err(e) => Err(e),
        },
        Ok(_) => Err(fail_unknown_type()),
    }
}

/// What `j` is read as where the variants of [`LexProperty`] are tried in their
/// declared order and the first that reads is taken.
pub open spec fn property_by_order(j: JsonValue) -> Option<LexPropertyModel> {
    if ref_variant_of(j) is Ok {
        Some(LexPropertyModel::RefVariant(ref_variant_of(j)->Ok_0))
    } else if ipld_of(j) is Ok {
        Some(LexPropertyModel::IpldType(ipld_of(j)->Ok_0))
    } else if array_of(j) is Ok {
        Some(LexPropertyModel::Array(array_of(j)->Ok_0))
    } else if blob_of(j) is Ok {
        Some(LexPropertyModel::Blob(blob_of(j)->Ok_0))
    } else if primitive_of(j) is Ok {
        Some(LexPropertyModel::Primitive(primitive_of(j)->Ok_0))
    } else {
        None
    }
}

/// Reading by the tag and trying the variants in their declared order
/// come to the same: the tags of the variants are pairwise different, so
/// at most one variant reads.
pub proof fn lemma_property_first_match(j: JsonValue)
    ensures
        property_of(j) matches Ok(m) ==> property_by_order(j) == Some(m),
        property_of(j) is Err ==> property_by_order(j) is None,
{
    lemma_ref_variant_tag(j);
    lemma_ipld_tag(j);
    lemma_array_tag(j);
    lemma_blob_tag(j);
    lemma_primitive_tag(j);
}

/// The first `n` entries read one by one: the first failure among them,
/// placed under its key, or all of them. A key that stands twice is a
/// failure at its second place.
pub open spec fn properties_upto(entries: Seq<Member>, n: int) -> Result<Seq<NamedModel<LexPropertyModel>>, Failure>
    decreases n,
{
    if n <= 0 {
        Ok(Seq::empty())
    } else {
        match properties_upto(entries, n - 1) {
            Err(e) => Err(e),
            Ok(before) => if key_before(entries, n - 1) {
                Err(mismatch().under(Step::Key(entries[n - 1].key)))
            } else {
                match property_of(entries[n - 1].value) {
                    Err(e) => Err(e.under(Step::Key(entries[n - 1].key))),
                    Ok(m) => Ok(before.push(NamedModel { name: entries[n - 1].key, value: m })),
                }
            },
        }
    }
}

/// What `j` is read as where a map is expected: an object, entry by entry.
pub open spec fn properties_of(j: JsonValue) -> Result<Seq<NamedModel<LexPropertyModel>>, Failure> {
    match j {
        JsonValue::Obj(entries) => properties_upto(entries, entries.len() as int),
        _ => Err(mismatch()),
    }
}

/// A failure among the first entries is the failure of the whole.
pub proof fn lemma_properties_upto_stays(entries: Seq<Member>, k: int, n: int)
    requires
        k <= n,
        properties_upto(entries, k) is Err,
    ensures
        properties_upto(entries, n) == properties_upto(entries, k),
    decreases n,
{
    if k < n {
        lemma_properties_upto_stays(entries, k, n - 1);
    }
}

/// Reads a map out of `j`, its entries in the order of `j`.
pub fn decode_properties(j: &Json) -> (r: Result<Vec<Named<LexProperty>>, ParseError>)
    ensures
        outcome(r) == properties_of(j@),
{
    match j {
        Json::Obj(entries) => {
            proof {
                lemma_view_obj(*entries);
            }
            let ghost members = j@->Obj_0;
            let mut out: Vec<Named<LexProperty>> = Vec::new();
            assert(out.deep_view() =~= Seq::empty());
            let mut i: usize = 0;
            while i < entries.len()
                invariant
                    i <= entries.len(),
                    j@ == JsonValue::Obj(members),
                    members == Json::Obj(*entries)@->Obj_0,
                    members.len() == entries.len(),
                    forall|k: int|
                        0 <= k < entries.len() ==> (#[trigger] members[k]) == (Member {
                            key: entries[k].0@,
                            value: entries[k].1@,
                        }),
                    properties_upto(members, i as int) == Ok::<Seq<NamedModel<LexPropertyModel>>, Failure>(
                        out.deep_view(),
                    ),
                decreases entries.len() - i,
            {
                assert(members[i as int] == (Member { key: entries[i as int].0@, value: entries[i as int].1@ }));
                if key_seen(entries, i) {
                    proof {
                        assert(properties_upto(members, i + 1) is Err);
                        lemma_properties_upto_stays(members, i + 1, members.len() as int);
                    }
                    return Err(under_key(fail_mismatch(), entries[i].0.as_str()));
                }
                match decode_property(&entries[i].1) {
                    Err(e) => {
                        proof {
                            assert(properties_upto(members, i + 1) is Err);
                            lemma_properties_upto_stays(members, i + 1, members.len() as int);
                        }
                        return Err(under_key(e, entries[i].0.as_str()));
                    },
                    Ok(v) => {
                        let ghost before = out.deep_view();
                        let ghost model = NamedModel { name: entries[i as int].0@, value: v.deep_view() };
                        out.push(Named { name: entries[i].0.clone(), value: v });
                        assert(out.deep_view() =~= before.push(model));
                    },
                }
                i += 1;
            }
            Ok(out)
        },
        _ => Err(fail_mismatch()),
    }
}

/// What `j` is read as where a [`LexObject`] is expected.
#[verifier::opaque]
pub open spec fn object_of(j: JsonValue) -> Result<LexObjectModel, Failure> {
    let description = optional_field(j, "description"@, text_of(child(j, "description"@)));
    let required = optional_field(j, "required"@, texts_of(child(j, "required"@)));
    let nullable = optional_field(j, "nullable"@, texts_of(child(j, "nullable"@)));
    let properties = optional_field(j, "properties"@, properties_of(child(j, "properties"@)));
    match tagged(j, Kind::Object) {
        Some(e) => Err(e),
        None => if description is Err {
            Err(description->Err_0)
        } else if required is Err {
            Err(required->Err_0)
        } else if nullable is Err {
            Err(nullable->Err_0)
        } else if properties is Err {
            Err(properties->Err_0)
        } else if !names_known(required->Ok_0, properties->Ok_0) {
            Err(mismatch().under(Step::Key("required"@)))
        } else if !names_known(nullable->Ok_0, properties->Ok_0) {
            Err(mismatch().under(Step::Key("nullable"@)))
        } else {
            Ok(LexObjectModel {
                description: description->Ok_0,
                required: required->Ok_0,
                nullable: nullable->Ok_0,
                properties: properties->Ok_0,
            })
        },
    }
}

/// Reads a [`LexObject`] out of `j`.
pub fn decode_object(j: &Json) -> (r: Result<LexObject, ParseError>)
    ensures
        outcome(r) == object_of(j@),
{
    reveal(object_of);
    match check_tag(j, Kind::Object) {
        Some(e) => {
            return Err(e);
        },
        None => {},
    }
    let description = match opt_text_field(j, "description") {
        Ok(v) => v,
        Err(e) => {
            return Err(e);
        },
    };
    let required = match opt_texts_field(j, "required") {
        Ok(v) => v,
        Err(e) => {
            return Err(e);
        },
    };
    let nullable = match opt_texts_field(j, "nullable") {
        Ok(v) => v,
        Err(e) => {
            return Err(e);
        },
    };
    let properties = match present(j, "properties") {
        None => None,
        Some(c) => match decode_properties(c) {
            Ok(v) => Some(v),
            Err(e) => {
                return Err(under_key(e, "properties"));
            },
        },
    };
    if !names_listed(&required, &properties) {
        return Err(under_key(fail_mismatch(), "required"));
    }
    if !names_listed(&nullable, &properties) {
        return Err(under_key(fail_mismatch(), "nullable"));
    }
    Ok(LexObject::Object { description, required, nullable, properties })
}

/// A value that is read as a [`LexObject`] has the tag of its kind.
pub proof fn lemma_object_tag(j: JsonValue)
    ensures
        object_of(j) is Ok ==> tag_of(j) == Ok::<Kind, Failure>(Kind::Object),
{
    reveal(object_of);
}

/// What `j` is read as where a [`LexXrpcParameter`] is expected: the variant that its
/// tag names.
pub open spec fn parameter_of(j: JsonValue) -> Result<LexXrpcParameterModel, Failure> {
    match tag_of(j) {
        Err(e) => Err(e),
        Ok(Kind::Boolean) => match primitive_of(j) {
            Ok(m) => Ok(LexXrpcParameterModel::Primitive(m)),
            Err(e) => Err(e),
        },
        Ok(Kind::Integer) => match primitive_of(j) {
            Ok(m) => Ok(LexXrpcParameterModel::Primitive(m)),
            Err(e) => Err(e),
        },
        Ok(Kind::String) => match primitive_of(j) {
            Ok(m) => Ok(LexXrpcParameterModel::Primitive(m)),
            Err(e) => Err(e),
        },
        Ok(Kind::Unknown) => match primitive_of(j) {
            Ok(m) => Ok(LexXrpcParameterModel::Primitive(m)),
            Err(e) => Err(e),
        },
        Ok(Kind::Array) => match primitive_array_of(j) {
            Ok(m) => Ok(LexXrpcParameterModel::PrimitiveArray(m)),
            Err(e) => Err(e),
        },
        Ok(_) => Err(unknown_type()),
    }
}

/// Reads a [`LexXrpcParameter`] out of `j`.
pub fn decode_parameter(j: &Json) -> (r: Result<LexXrpcParameter, ParseError>)
    ensures
        outcome(r) == parameter_of(j@),
{
    match read_tag(j) {
        Err(e) => Err(e),
        Ok(Kind::Boolean) => match decode_primitive(j) {
            Ok(v) => Ok(LexXrpcParameter::Primitive(v)),
            Err(e) => Err(e),
        },
        Ok(Kind::Integer) => match decode_primitive(j) {
            Ok(v) => Ok(LexXrpcParameter::Primitive(v)),
            Err(e) => Err(e),
        },
        Ok(Kind::String) => match decode_primitive(j) {
            Ok(v) => Ok(LexXrpcParameter::Primitive(v)),
            Err(e) => Err(e),
        },
        Ok(Kind::Unknown) => match decode_primitive(j) {
            Ok(v) => Ok(LexXrpcParameter::Primitive(v)),
            Err(e) => Err(e),
        },
        Ok(Kind::Array) => match decode_primitive_array(j) {
            Ok(v) => Ok(LexXrpcParameter::PrimitiveArray(v)),
            Err(e) => Err(e),
        },
        Ok(_) => Err(fail_unknown_type()),
    }
}

/// What `j` is read as where the variants of [`LexXrpcParameter`] are tried in their
/// declared order and the first that reads is taken.
pub open spec fn parameter_by_order(j: JsonValue) -> Option<LexXrpcParameterModel> {
    if primitive_of(j) is Ok {
        Some(LexXrpcParameterModel::Primitive(primitive_of(j)->Ok_0))
    } else if primitive_array_of(j) is Ok {
        Some(LexXrpcParameterModel::PrimitiveArray(primitive_array_of(j)->Ok_0))
    } else {
        None
    }
}

/// Reading by the tag and trying the variants in their declared order
/// come to the same: the tags of the variants are pairwise different, so
/// at most one variant reads.
pub proof fn lemma_parameter_first_match(j: JsonValue)
    ensures
        parameter_of(j) matches Ok(m) ==> parameter_by_order(j) == Some(m),
        parameter_of(j) is Err ==> parameter_by_order(j) is None,
{
    lemma_primitive_tag(j);
    lemma_primitive_array_tag(j);
}

/// The first `n` entries read one by one: the first failure among them,
/// placed under its key, or all of them. A key that stands twice is a
/// failure at its second place.
pub open spec fn parameters_upto(entries: Seq<Member>, n: int) -> Result<Seq<NamedModel<LexXrpcParameterModel>>, Failure>
    decreases n,
{
    if n <= 0 {
        Ok(Seq::empty())
    } else {
        match parameters_upto(entries, n - 1) {
            Err(e) => Err(e),
            Ok(before) => if key_before(entries, n - 1) {
                Err(mismatch().under(Step::Key(entries[n - 1].key)))
            } else {
                match parameter_of(entries[n - 1].value) {
                    Err(e) => Err(e.under(Step::Key(entries[n - 1].key))),
                    Ok(m) => Ok(before.push(NamedModel { name: entries[n - 1].key, value: m })),
                }
            },
        }
    }
}

/// What `j` is read as where a map is expected: an object, entry by entry.
pub open spec fn parameters_of(j: JsonValue) -> Result<Seq<NamedModel<LexXrpcParameterModel>>, Failure> {
    match j {
        JsonValue::Obj(entries) => parameters_upto(entries, entries.len() as int),
        _ => Err(mismatch()),
    }
}

/// A failure among the first entries is the failure of the whole.
pub proof fn lemma_parameters_upto_stays(entries: Seq<Member>, k: int, n: int)
    requires
        k <= n,
        parameters_upto(entries, k) is Err,
    ensures
        parameters_upto(entries, n) == parameters_upto(entries, k),
    decreases n,
{
    if k < n {
        lemma_parameters_upto_stays(entries, k, n - 1);
    }
}

/// Reads a map out of `j`, its entries in the order of `j`.
pub fn decode_parameters(j: &Json) -> (r: Result<Vec<Named<LexXrpcParameter>>, ParseError>)
    ensures
        outcome(r) == parameters_of(j@),
{
    match j {
        Json::Obj(entries) => {
            proof {
                lemma_view_obj(*entries);
            }
            let ghost members = j@->Obj_0;
            let mut out: Vec<Named<LexXrpcParameter>> = Vec::new();
            assert(out.deep_view() =~= Seq::empty());
            let mut i: usize = 0;
            while i < entries.len()
                invariant
                    i <= entries.len(),
                    j@ == JsonValue::Obj(members),
                    members == Json::Obj(*entries)@->Obj_0,
                    members.len() == entries.len(),
                    forall|k: int|
                        0 <= k < entries.len() ==> (#[trigger] members[k]) == (Member {
                            key: entries[k].0@,
                            value: entries[k].1@,
                        }),
                    parameters_upto(members, i as int) == Ok::<Seq<NamedModel<LexXrpcParameterModel>>, Failure>(
                        out.deep_view(),
                    ),
                decreases entries.len() - i,
            {
                assert(members[i as int] == (Member { key: entries[i as int].0@, value: entries[i as int].1@ }));
                if key_seen(entries, i) {
                    proof {
                        assert(parameters_upto(members, i + 1) is Err);
                        lemma_parameters_upto_stays(members, i + 1, members.len() as int);
                    }
                    return Err(under_key(fail_mismatch(), entries[i].0.as_str()));
                }
                match decode_parameter(&entries[i].1) {
                    Err(e) => {
                        proof {
                            assert(parameters_upto(members, i + 1) is Err);
                            lemma_parameters_upto_stays(members, i + 1, members.len() as int);
                        }
                        return Err(under_key(e, entries[i].0.as_str()));
                    },
                    Ok(v) => {
                        let ghost before = out.deep_view();
                        let ghost model = NamedModel { name: entries[i as int].0@, value: v.deep_view() };
                        out.push(Named { name: entries[i].0.clone(), value: v });
                        assert(out.deep_view() =~= before.push(model));
                    },
                }
                i += 1;
            }
            Ok(out)
        },
        _ => Err(fail_mismatch()),
    }
}

/// What `j` is read as where a [`LexXrpcParameters`] is expected.
#[verifier::opaque]
pub open spec fn params_of(j: JsonValue) -> Result<LexXrpcParametersModel, Failure> {
    let description = optional_field(j, "description"@, text_of(child(j, "description"@)));
    let required = optional_field(j, "required"@, texts_of(child(j, "required"@)));
    let properties = required_field(j, "properties"@, parameters_of(child(j, "properties"@)));
    match tagged(j, Kind::Params) {
        Some(e) => Err(e),
        None => if description is Err {
            Err(description->Err_0)
        } else if required is Err {
            Err(required->Err_0)
        } else if properties is Err {
            Err(properties->Err_0)
        } else {
            Ok(LexXrpcParametersModel {
                description: description->Ok_0,
                required: required->Ok_0,
                properties: properties->Ok_0,
            })
        },
    }
}

/// Reads a [`LexXrpcParameters`] out of `j`.
pub fn decode_params(j: &Json) -> (r: Result<LexXrpcParameters, ParseError>)
    ensures
        outcome(r) == params_of(j@),
{
    reveal(params_of);
    match check_tag(j, Kind::Params) {
        Some(e) => {
            return Err(e);
        },
        None => {},
    }
    let description = match opt_text_field(j, "description") {
        Ok(v) => v,
        Err(e) => {
            return Err(e);
        },
    };
    let required = match opt_texts_field(j, "required") {
        Ok(v) => v,
        Err(e) => {
            return Err(e);
        },
    };
    let properties = match find(j, "properties") {
        None => {
            return Err(fail_missing("properties"));
        },
        Some(c) => match decode_parameters(c) {
            Ok(v) => v,
            Err(e) => {
                return Err(under_key(e, "properties"));
            },
        },
    };
    Ok(LexXrpcParameters::Params { description, required, properties })
}

/// What `j` is read as where a [`LexXrpcBodySchema`] is expected: the variant that its
/// tag names.
pub open spec fn body_schema_of(j: JsonValue) -> Result<LexXrpcBodySchemaModel, Failure> {
    match tag_of(j) {
        Err(e) => Err(e),
        Ok(Kind::Ref) => match ref_variant_of(j) {
            Ok(m) => Ok(LexXrpcBodySchemaModel::RefVariant(m)),
            Err(e) => Err(e),
        },
        Ok(Kind::Union) => match ref_variant_of(j) {
            Ok(m) => Ok(LexXrpcBodySchemaModel::RefVariant(m)),
            Err(e) => Err(e),
        },
        Ok(Kind::Object) => match object_of(j) {
            Ok(m) => Ok(LexXrpcBodySchemaModel::Object(m)),
            Err(e) => Err(e),
        },
        Ok(_) => Err(unknown_type()),
    }
}

/// Reads a [`LexXrpcBodySchema`] out of `j`.
pub fn decode_body_schema(j: &Json) -> (r: Result<LexXrpcBodySchema, ParseError>)
    ensures
        outcome(r) == body_schema_of(j@),
{
    match read_tag(j) {
        Err(e) => Err(e),
        Ok(Kind::Ref) => match decode_ref_variant(j) {
            Ok(v) => Ok(LexXrpcBodySchema::RefVariant(v)),
            Err(e) => Err(e),
        },
        Ok(Kind::Union) => match decode_ref_variant(j) {
            Ok(v) => Ok(LexXrpcBodySchema::RefVariant(v)),
            Err(e) => Err(e),
        },
        Ok(Kind::Object) => match decode_object(j) {
            Ok(v) => Ok(LexXrpcBodySchema::Object(v)),
            Err(e) => Err(e),
        },
        Ok(_) => Err(fail_unknown_type()),
    }
}

/// What `j` is read as where the variants of [`LexXrpcBodySchema`] are tried in their
/// declared order and the first that reads is taken.
pub open spec fn body_schema_by_order(j: JsonValue) -> Option<LexXrpcBodySchemaModel> {
    if ref_variant_of(j) is Ok {
        Some(LexXrpcBodySchemaModel::RefVariant(ref_variant_of(j)->Ok_0))
    } else if object_of(j) is Ok {
        Some(LexXrpcBodySchemaModel::Object(object_of(j)->Ok_0))
    } else {
        None
    }
}

/// Reading by the tag and trying the variants in their declared order
/// come to the same: the tags of the variants are pairwise different, so
/// at most one variant reads.
pub proof fn lemma_body_schema_first_match(j: JsonValue)
    ensures
        body_schema_of(j) matches Ok(m) ==> body_schema_by_order(j) == Some(m),
        body_schema_of(j) is Err ==> body_schema_by_order(j) is None,
{
    lemma_ref_variant_tag(j);
    lemma_object_tag(j);
}

/// What `j` is read as where a [`LexXrpcBody`] is expected.
#[verifier::opaque]
pub open spec fn body_of(j: JsonValue) -> Result<LexXrpcBodyModel, Failure> {
    let description = optional_field(j, "description"@, text_of(child(j, "description"@)));
    let encoding = required_field(j, "encoding"@, text_of(child(j, "encoding"@)));
    let schema = optional_field(j, "schema"@, body_schema_of(child(j, "schema"@)));
    match shaped(j) {
        Some(e) => Err(e),
        None => if description is Err {
            Err(description->Err_0)
        } else if encoding is Err {
            Err(encoding->Err_0)
        } else if schema is Err {
            Err(schema->Err_0)
        } else {
            Ok(LexXrpcBodyModel {
                description: description->Ok_0,
                encoding: encoding->Ok_0,
                schema: schema->Ok_0,
            })
        },
    }
}

/// Reads a [`LexXrpcBody`] out of `j`.
pub fn decode_body(j: &Json) -> (r: Result<LexXrpcBody, ParseError>)
    ensures
        outcome(r) == body_of(j@),
{
    reveal(body_of);
    match check_shape(j) {
        Some(e) => {
            return Err(e);
        },
        None => {},
    }
    let description = match opt_text_field(j, "description") {
        Ok(v) => v,
        Err(e) => {
            return Err(e);
        },
    };
    let encoding = match req_text_field(j, "encoding") {
        Ok(v) => v,
        Err(e) => {
            return Err(e);
        },
    };
    let schema = match present(j, "schema") {
        None => None,
        Some(c) => match decode_body_schema(c) {
            Ok(v) => Some(v),
            Err(e) => {
                return Err(under_key(e, "schema"));
            },
        },
    };
    Ok(LexXrpcBody { description, encoding, schema })
}

/// What `j` is read as where a [`LexXrpcSubscriptionMessageSchema`] is expected: the variant that its
/// tag names.
pub open spec fn message_schema_of(j: JsonValue) -> Result<LexXrpcSubscriptionMessageSchemaModel, Failure> {
    match tag_of(j) {
        Err(e) => Err(e),
        Ok(Kind::Ref) => match ref_variant_of(j) {
            Ok(m) => Ok(LexXrpcSubscriptionMessageSchemaModel::RefVariant(m)),
            Err(e) => Err(e),
        },
        Ok(Kind::Union) => match ref_variant_of(j) {
            Ok(m) => Ok(LexXrpcSubscriptionMessageSchemaModel::RefVariant(m)),
            Err(e) => Err(e),
        },
        Ok(Kind::Object) => match object_of(j) {
            Ok(m) => Ok(LexXrpcSubscriptionMessageSchemaModel::Object(m)),
            Err(e) => Err(e),
        },
        Ok(_) => Err(unknown_type()),
    }
}

/// Reads a [`LexXrpcSubscriptionMessageSchema`] out of `j`.
pub fn decode_message_schema(j: &Json) -> (r: Result<LexXrpcSubscriptionMessageSchema, ParseError>)
    ensures
        outcome(r) == message_schema_of(j@),
{
    match read_tag(j) {
        Err(e) => Err(e),
        Ok(Kind::Ref) => match decode_ref_variant(j) {
            Ok(v) => Ok(LexXrpcSubscriptionMessageSchema::RefVariant(v)),
            Err(e) => Err(e),
        },
        Ok(Kind::Union) => match decode_ref_variant(j) {
            Ok(v) => Ok(LexXrpcSubscriptionMessageSchema::RefVariant(v)),
            Err(e) => Err(e),
        },
        Ok(Kind::Object) => match decode_object(j) {
            Ok(v) => Ok(LexXrpcSubscriptionMessageSchema::Object(v)),
            Err(e) => Err(e),
        },
        Ok(_) => Err(fail_unknown_type()),
    }
}

/// What `j` is read as where the variants of [`LexXrpcSubscriptionMessageSchema`] are tried in their
/// declared order and the first that reads is taken.
pub open spec fn message_schema_by_order(j: JsonValue) -> Option<LexXrpcSubscriptionMessageSchemaModel> {
    if ref_variant_of(j) is Ok {
        Some(LexXrpcSubscriptionMessageSchemaModel::RefVariant(ref_variant_of(j)->Ok_0))
    } else if object_of(j) is Ok {
        Some(LexXrpcSubscriptionMessageSchemaModel::Object(object_of(j)->Ok_0))
    } else {
        None
    }
}

/// Reading by the tag and trying the variants in their declared order
/// come to the same: the tags of the variants are pairwise different, so
/// at most one variant reads.
pub proof fn lemma_message_schema_first_match(j: JsonValue)
    ensures
        message_schema_of(j) matches Ok(m) ==> message_schema_by_order(j) == Some(m),
        message_schema_of(j) is Err ==> message_schema_by_order(j) is None,
{
    lemma_ref_variant_tag(j);
    lemma_object_tag(j);
}

/// What `j` is read as where a [`LexXrpcSubscriptionMessage`] is expected.
#[verifier::opaque]
pub open spec fn message_of(j: JsonValue) -> Result<LexXrpcSubscriptionMessageModel, Failure> {
    let description = optional_field(j, "description"@, text_of(child(j, "description"@)));
    let schema = optional_field(j, "schema"@, message_schema_of(child(j, "schema"@)));
    match shaped(j) {
        Some(e) => Err(e),
        None => if description is Err {
            Err(description->Err_0)
        } else if schema is Err {
            Err(schema->Err_0)
        } else {
            Ok(LexXrpcSubscriptionMessageModel {
                description: description->Ok_0,
                schema: schema->Ok_0,
            })
        },
    }
}

/// Reads a [`LexXrpcSubscriptionMessage`] out of `j`.
pub fn decode_message(j: &Json) -> (r: Result<LexXrpcSubscriptionMessage, ParseError>)
    ensures
        outcome(r) == message_of(j@),
{
    reveal(message_of);
    match check_shape(j) {
        Some(e) => {
            return Err(e);
        },
        None => {},
    }
    let description = match opt_text_field(j, "description") {
        Ok(v) => v,
        Err(e) => {
            return Err(e);
        },
    };
    let schema = match present(j, "schema") {
        None => None,
        Some(c) => match decode_message_schema(c) {
            Ok(v) => Some(v),
            Err(e) => {
                return Err(under_key(e, "schema"));
            },
        },
    };
    Ok(LexXrpcSubscriptionMessage { description, schema })
}

/// What `j` is read as where a [`LexXrpcError`] is expected.
#[verifier::opaque]
pub open spec fn method_error_of(j: JsonValue) -> Result<LexXrpcErrorModel, Failure> {
    let name = required_field(j, "name"@, text_of(child(j, "name"@)));
    let description = optional_field(j, "description"@, text_of(child(j, "description"@)));
    match shaped(j) {
        Some(e) => Err(e),
        None => if name is Err {
            Err(name->Err_0)
        } else if description is Err {
            Err(description->Err_0)
        } else {
            Ok(LexXrpcErrorModel {
                name: name->Ok_0,
                description: description->Ok_0,
            })
        },
    }
}

/// Reads a [`LexXrpcError`] out of `j`.
pub fn decode_method_error(j: &Json) -> (r: Result<LexXrpcError, ParseError>)
    ensures
        outcome(r) == method_error_of(j@),
{
    reveal(method_error_of);
    match check_shape(j) {
        Some(e) => {
            return Err(e);
        },
        None => {},
    }
    let name = match req_text_field(j, "name") {
        Ok(v) => v,
        Err(e) => {
            return Err(e);
        },
    };
    let description = match opt_text_field(j, "description") {
        Ok(v) => v,
        Err(e) => {
            return Err(e);
        },
    };
    Ok(LexXrpcError { name, description })
}

/// The first `n` items read one by one: the first failure among them,
/// placed under its index, or all of them.
pub open spec fn method_errors_upto(items: Seq<JsonValue>, n: int) -> Result<Seq<LexXrpcErrorModel>, Failure>
    decreases n,
{
    if n <= 0 {
        Ok(Seq::empty())
    } else {
        match method_errors_upto(items, n - 1) {
            Err(e) => Err(e),
            Ok(before) => match method_error_of(items[n - 1]) {
                Err(e) => Err(e.under(Step::Index(n - 1))),
                Ok(m) => Ok(before.push(m)),
            },
        }
    }
}

/// What `j` is read as where a list is expected: an array, item by item.
pub open spec fn method_errors_of(j: JsonValue) -> Result<Seq<LexXrpcErrorModel>, Failure> {
    match j {
        JsonValue::Arr(items) => method_errors_upto(items, items.len() as int),
        _ => Err(mismatch()),
    }
}

/// A failure among the first entries is the failure of the whole.
pub proof fn lemma_method_errors_upto_stays(items: Seq<JsonValue>, k: int, n: int)
    requires
        k <= n,
        method_errors_upto(items, k) is Err,
    ensures
        method_errors_upto(items, n) == method_errors_upto(items, k),
    decreases n,
{
    if k < n {
        lemma_method_errors_upto_stays(items, k, n - 1);
    }
}

/// Reads a list out of `j`.
pub fn decode_method_errors(j: &Json) -> (r: Result<Vec<LexXrpcError>, ParseError>)
    ensures
        outcome(r) == method_errors_of(j@),
{
    match j {
        Json::Arr(items) => {
            proof {
                lemma_view_arr(*items);
            }
            let ghost models = j@->Arr_0;
            let mut out: Vec<LexXrpcError> = Vec::new();
            assert(out.deep_view() =~= Seq::empty());
            let mut i: usize = 0;
            while i < items.len()
                invariant
                    i <= items.len(),
                    j@ == JsonValue::Arr(models),
                    models.len() == items.len(),
                    forall|k: int| 0 <= k < items.len() ==> (#[trigger] models[k]) == items[k]@,
                    method_errors_upto(models, i as int) == Ok::<Seq<LexXrpcErrorModel>, Failure>(out.deep_view()),
                decreases items.len() - i,
            {
                assert(models[i as int] == items[i as int]@);
                match decode_method_error(&items[i]) {
                    Err(e) => {
                        proof {
                            assert(method_errors_upto(models, i + 1) is Err);
                            lemma_method_errors_upto_stays(models, i + 1, models.len() as int);
                        }
                        return Err(under_index(e, i));
                    },
                    Ok(v) => {
                        let ghost before = out.deep_view();
                        let ghost model = v.deep_view();
                        out.push(v);
                        assert(out.deep_view() =~= before.push(model));
                    },
                }
                i += 1;
            }
            Ok(out)
        },
        _ => Err(fail_mismatch()),
    }
}

/// What `j` is read as where a [`LexXrpcQuery`] is expected.
#[verifier::opaque]
pub open spec fn query_of(j: JsonValue) -> Result<LexXrpcQueryModel, Failure> {
    let description = optional_field(j, "description"@, text_of(child(j, "description"@)));
    let parameters = optional_field(j, "parameters"@, params_of(child(j, "parameters"@)));
    let output = optional_field(j, "output"@, body_of(child(j, "output"@)));
    let errors = optional_field(j, "errors"@, method_errors_of(child(j, "errors"@)));
    match tagged(j, Kind::Query) {
        Some(e) => Err(e),
        None => if description is Err {
            Err(description->Err_0)
        } else if parameters is Err {
            Err(parameters->Err_0)
        } else if output is Err {
            Err(output->Err_0)
        } else if errors is Err {
            Err(errors->Err_0)
        } else {
            Ok(LexXrpcQueryModel {
                description: description->Ok_0,
                parameters: parameters->Ok_0,
                output: output->Ok_0,
                errors: errors->Ok_0,
            })
        },
    }
}

/// Reads a [`LexXrpcQuery`] out of `j`.
pub fn decode_query(j: &Json) -> (r: Result<LexXrpcQuery, ParseError>)
    ensures
        outcome(r) == query_of(j@),
{
    reveal(query_of);
    match check_tag(j, Kind::Query) {
        Some(e) => {
            return Err(e);
        },
        None => {},
    }
    let description = match opt_text_field(j, "description") {
        Ok(v) => v,
        Err(e) => {
            return Err(e);
        },
    };
    let parameters = match present(j, "parameters") {
        None => None,
        Some(c) => match decode_params(c) {
            Ok(v) => Some(v),
            Err(e) => {
                return Err(under_key(e, "parameters"));
            },
        },
    };
    let output = match present(j, "output") {
        None => None,
        Some(c) => match decode_body(c) {
            Ok(v) => Some(v),
            Err(e) => {
                return Err(under_key(e, "output"));
            },
        },
    };
    let errors = match present(j, "errors") {
        None => None,
        Some(c) => match decode_method_errors(c) {
            Ok(v) => Some(v),
            Err(e) => {
                return Err(under_key(e, "errors"));
            },
        },
    };
    Ok(LexXrpcQuery::Query { description, parameters, output, errors })
}

/// What `j` is read as where a [`LexXrpcProcedure`] is expected.
#[verifier::opaque]
pub open spec fn procedure_of(j: JsonValue) -> Result<LexXrpcProcedureModel, Failure> {
    let description = optional_field(j, "description"@, text_of(child(j, "description"@)));
    let parameters = optional_field(j, "parameters"@, params_of(child(j, "parameters"@)));
    let input = optional_field(j, "input"@, body_of(child(j, "input"@)));
    let output = optional_field(j, "output"@, body_of(child(j, "output"@)));
    let errors = optional_field(j, "errors"@, method_errors_of(child(j, "errors"@)));
    match tagged(j, Kind::Procedure) {
        Some(e) => Err(e),
        None => if description is Err {
            Err(description->Err_0)
        } else if parameters is Err {
            Err(parameters->Err_0)
        } else if input is Err {
            Err(input->Err_0)
        } else if output is Err {
            Err(output->Err_0)
        } else if errors is Err {
            Err(errors->Err_0)
        } else {
            Ok(LexXrpcProcedureModel {
                description: description->Ok_0,
                parameters: parameters->Ok_0,
                input: input->Ok_0,
                output: output->Ok_0,
                errors: errors->Ok_0,
            })
        },
    }
}

/// Reads a [`LexXrpcProcedure`] out of `j`.
pub fn decode_procedure(j: &Json) -> (r: Result<LexXrpcProcedure, ParseError>)
    ensures
        outcome(r) == procedure_of(j@),
{
    reveal(procedure_of);
    match check_tag(j, Kind::Procedure) {
        Some(e) => {
            return Err(e);
        },
        None => {},
    }
    let description = match opt_text_field(j, "description") {
        Ok(v) => v,
        Err(e) => {
            return Err(e);
        },
    };
    let parameters = match present(j, "parameters") {
        None => None,
        Some(c) => match decode_params(c) {
            Ok(v) => Some(v),
            Err(e) => {
                return Err(under_key(e, "parameters"));
            },
        },
    };
    let input = match present(j, "input") {
        None => None,
        Some(c) => match decode_body(c) {
            Ok(v) => Some(v),
            Err(e) => {
                return Err(under_key(e, "input"));
            },
        },
    };
    let output = match present(j, "output") {
        None => None,
        Some(c) => match decode_body(c) {
            Ok(v) => Some(v),
            Err(e) => {
                return Err(under_key(e, "output"));
            },
        },
    };
    let errors = match present(j, "errors") {
        None => None,
        Some(c) => match decode_method_errors(c) {
            Ok(v) => Some(v),
            Err(e) => {
                return Err(under_key(e, "errors"));
            },
        },
    };
    Ok(LexXrpcProcedure::Procedure { description, parameters, input, output, errors })
}

/// What `j` is read as where a [`LexXrpcSubscription`] is expected.
#[verifier::opaque]
pub open spec fn subscription_of(j: JsonValue) -> Result<LexXrpcSubscriptionModel, Failure> {
    let description = optional_field(j, "description"@, text_of(child(j, "description"@)));
    let parameters = optional_field(j, "parameters"@, params_of(child(j, "parameters"@)));
    let message = optional_field(j, "message"@, message_of(child(j, "message"@)));
    let infos = optional_field(j, "infos"@, method_errors_of(child(j, "infos"@)));
    let errors = optional_field(j, "errors"@, method_errors_of(child(j, "errors"@)));
    match tagged(j, Kind::Subscription) {
        Some(e) => Err(e),
        None => if description is Err {
            Err(description->Err_0)
        } else if parameters is Err {
            Err(parameters->Err_0)
        } else if message is Err {
            Err(message->Err_0)
        } else if infos is Err {
            Err(infos->Err_0)
        } else if errors is Err {
            Err(errors->Err_0)
        } else {
            Ok(LexXrpcSubscriptionModel {
                description: description->Ok_0,
                parameters: parameters->Ok_0,
                message: message->Ok_0,
                infos: infos->Ok_0,
                errors: errors->Ok_0,
            })
        },
    }
}

/// Reads a [`LexXrpcSubscription`] out of `j`.
pub fn decode_subscription(j: &Json) -> (r: Result<LexXrpcSubscription, ParseError>)
    ensures
        outcome(r) == subscription_of(j@),
{
    reveal(subscription_of);
    match check_tag(j, Kind::Subscription) {
        Some(e) => {
            return Err(e);
        },
        None => {},
    }
    let description = match opt_text_field(j, "description") {
        Ok(v) => v,
        Err(e) => {
            return Err(e);
        },
    };
    let parameters = match present(j, "parameters") {
        None => None,
        Some(c) => match decode_params(c) {
            Ok(v) => Some(v),
            Err(e) => {
                return Err(under_key(e, "parameters"));
            },
        },
    };
    let message = match present(j, "message") {
        None => None,
        Some(c) => match decode_message(c) {
            Ok(v) => Some(v),
            Err(e) => {
                return Err(under_key(e, "message"));
            },
        },
    };
    let infos = match present(j, "infos") {
        None => None,
        Some(c) => match decode_method_errors(c) {
            Ok(v) => Some(v),
            Err(e) => {
                return Err(under_key(e, "infos"));
            },
        },
    };
    let errors = match present(j, "errors") {
        None => None,
        Some(c) => match decode_method_errors(c) {
            Ok(v) => Some(v),
            Err(e) => {
                return Err(under_key(e, "errors"));
            },
        },
    };
    Ok(LexXrpcSubscription::Subscription { description, parameters, message, infos, errors })
}

/// What `j` is read as where a [`LexRecord`] is expected.
#[verifier::opaque]
pub open spec fn record_of(j: JsonValue) -> Result<LexRecordModel, Failure> {
    let description = optional_field(j, "description"@, text_of(child(j, "description"@)));
    let key = optional_field(j, "key"@, text_of(child(j, "key"@)));
    let record = required_field(j, "record"@, object_of(child(j, "record"@)));
    match tagged(j, Kind::Record) {
        Some(e) => Err(e),
        None => if description is Err {
            Err(description->Err_0)
        } else if key is Err {
            Err(key->Err_0)
        } else if record is Err {
            Err(record->Err_0)
        } else {
            Ok(LexRecordModel {
                description: description->Ok_0,
                key: key->Ok_0,
                record: record->Ok_0,
            })
        },
    }
}

/// Reads a [`LexRecord`] out of `j`.
pub fn decode_record(j: &Json) -> (r: Result<LexRecord, ParseError>)
    ensures
        outcome(r) == record_of(j@),
{
    reveal(record_of);
    match check_tag(j, Kind::Record) {
        Some(e) => {
            return Err(e);
        },
        None => {},
    }
    let description = match opt_text_field(j, "description") {
        Ok(v) => v,
        Err(e) => {
            return Err(e);
        },
    };
    let key = match opt_text_field(j, "key") {
        Ok(v) => v,
        Err(e) => {
            return Err(e);
        },
    };
    let record = match find(j, "record") {
        None => {
            return Err(fail_missing("record"));
        },
        Some(c) => match decode_object(c) {
            Ok(v) => v,
            Err(e) => {
                return Err(under_key(e, "record"));
            },
        },
    };
    Ok(LexRecord::Record { description, key, record })
}

/// What `j` is read as where a [`LexUserType`] is expected: the variant that its
/// tag names.
pub open spec fn user_type_of(j: JsonValue) -> Result<LexUserTypeModel, Failure> {
    match tag_of(j) {
        Err(e) => Err(e),
        Ok(Kind::Record) => match record_of(j) {
            Ok(m) => Ok(LexUserTypeModel::Record(m)),
            Err(e) => Err(e),
        },
        Ok(Kind::Query) => match query_of(j) {
            Ok(m) => Ok(LexUserTypeModel::XrpcQuery(m)),
            Err(e) => Err(e),
        },
        Ok(Kind::Procedure) => match procedure_of(j) {
            Ok(m) => Ok(LexUserTypeModel::XrpcProcedure(m)),
            Err(e) => Err(e),
        },
        Ok(Kind::Subscription) => match subscription_of(j) {
            Ok(m) => Ok(LexUserTypeModel::XrpcSubscription(m)),
            Err(e) => Err(e),
        },
        Ok(Kind::Blob) => match blob_of(j) {
            Ok(m) => Ok(LexUserTypeModel::Blob(m)),
            Err(e) => Err(e),
        },
        Ok(Kind::Array) => match array_of(j) {
            Ok(m) => Ok(LexUserTypeModel::Array(m)),
            Err(e) => Err(e),
        },
        Ok(Kind::Token) => match token_of(j) {
            Ok(m) => Ok(LexUserTypeModel::Token(m)),
            Err(e) => Err(e),
        },
        Ok(Kind::Object) => match object_of(j) {
            Ok(m) => Ok(LexUserTypeModel::Object(m)),
            Err(e) => Err(e),
        },
        Ok(Kind::Boolean) => match primitive_of(j) {
            Ok(m) => Ok(LexUserTypeModel::Boolean(m)),
            Err(e) => Err(e),
        },
        Ok(Kind::Integer) => match primitive_of(j) {
            Ok(m) => Ok(LexUserTypeModel::Integer(m)),
            Err(e) => Err(e),
        },
        Ok(Kind::String) => match primitive_of(j) {
            Ok(m) => Ok(LexUserTypeModel::String(m)),
            Err(e) => Err(e),
        },
        Ok(Kind::Bytes) => match ipld_of(j) {
            Ok(m) => Ok(LexUserTypeModel::Bytes(m)),
            Err(e) => Err(e),
        },
        Ok(Kind::CidLink) => match ipld_of(j) {
            Ok(m) => Ok(LexUserTypeModel::CidLink(m)),
            Err(e) => Err(e),
        },
        Ok(Kind::Unknown) => match primitive_of(j) {
            Ok(m) => Ok(LexUserTypeModel::Unknown(m)),
            Err(e) => Err(e),
        },
        Ok(_) => Err(unknown_type()),
    }
}

/// Reads a [`LexUserType`] out of `j`.
pub fn decode_user_type(j: &Json) -> (r: Result<LexUserType, ParseError>)
    ensures
        outcome(r) == user_type_of(j@),
{
    match read_tag(j) {
        Err(e) => Err(e),
        Ok(Kind::Record) => match decode_record(j) {
            Ok(v) => Ok(LexUserType::Record(v)),
            Err(e) => Err(e),
        },
        Ok(Kind::Query) => match decode_query(j) {
            Ok(v) => Ok(LexUserType::XrpcQuery(v)),
            Err(e) => Err(e),
        },
        Ok(Kind::Procedure) => match decode_procedure(j) {
            Ok(v) => Ok(LexUserType::XrpcProcedure(v)),
            Err(e) => Err(e),
        },
        Ok(Kind::Subscription) => match decode_subscription(j) {
            Ok(v) => Ok(LexUserType::XrpcSubscription(v)),
            Err(e) => Err(e),
        },
        Ok(Kind::Blob) => match decode_blob(j) {
            Ok(v) => Ok(LexUserType::Blob(v)),
            Err(e) => Err(e),
        },
        Ok(Kind::Array) => match decode_array(j) {
            Ok(v) => Ok(LexUserType::Array(v)),
            Err(e) => Err(e),
        },
        Ok(Kind::Token) => match decode_token(j) {
            Ok(v) => Ok(LexUserType::Token(v)),
            Err(e) => Err(e),
        },
        Ok(Kind::Object) => match decode_object(j) {
            Ok(v) => Ok(LexUserType::Object(v)),
            Err(e) => Err(e),
        },
        Ok(Kind::Boolean) => match decode_primitive(j) {
            Ok(v) => Ok(LexUserType::Boolean(v)),
            Err(e) => Err(e),
        },
        Ok(Kind::Integer) => match decode_primitive(j) {
            Ok(v) => Ok(LexUserType::Integer(v)),
            Err(e) => Err(e),
        },
        Ok(Kind::String) => match decode_primitive(j) {
            Ok(v) => Ok(LexUserType::String(v)),
            Err(e) => Err(e),
        },
        Ok(Kind::Bytes) => match decode_ipld(j) {
            Ok(v) => Ok(LexUserType::Bytes(v)),
            Err(e) => Err(e),
        },
        Ok(Kind::CidLink) => match decode_ipld(j) {
            Ok(v) => Ok(LexUserType::CidLink(v)),
            Err(e) => Err(e),
        },
        Ok(Kind::Unknown) => match decode_primitive(j) {
            Ok(v) => Ok(LexUserType::Unknown(v)),
            Err(e) => Err(e),
        },
        Ok(_) => Err(fail_unknown_type()),
    }
}

/// The first `n` entries read one by one: the first failure among them,
/// placed under its key, or all of them. A key that stands twice is a
/// failure at its second place.
pub open spec fn defs_upto(entries: Seq<Member>, n: int) -> Result<Seq<NamedModel<LexUserTypeModel>>, Failure>
    decreases n,
{
    if n <= 0 {
        Ok(Seq::empty())
    } else {
        match defs_upto(entries, n - 1) {
            Err(e) => Err(e),
            Ok(before) => if key_before(entries, n - 1) {
                Err(mismatch().under(Step::Key(entries[n - 1].key)))
            } else {
                match user_type_of(entries[n - 1].value) {
                    Err(e) => Err(e.under(Step::Key(entries[n - 1].key))),
                    Ok(m) => Ok(before.push(NamedModel { name: entries[n - 1].key, value: m })),
                }
            },
        }
    }
}

/// What `j` is read as where a map is expected: an object, entry by entry.
pub open spec fn defs_of(j: JsonValue) -> Result<Seq<NamedModel<LexUserTypeModel>>, Failure> {
    match j {
        JsonValue::Obj(entries) => defs_upto(entries, entries.len() as int),
        _ => Err(mismatch()),
    }
}

/// A failure among the first entries is the failure of the whole.
pub proof fn lemma_defs_upto_stays(entries: Seq<Member>, k: int, n: int)
    requires
        k <= n,
        defs_upto(entries, k) is Err,
    ensures
        defs_upto(entries, n) == defs_upto(entries, k),
    decreases n,
{
    if k < n {
        lemma_defs_upto_stays(entries, k, n - 1);
    }
}

/// Reads a map out of `j`, its entries in the order of `j`.
pub fn decode_defs(j: &Json) -> (r: Result<Vec<Named<LexUserType>>, ParseError>)
    ensures
        outcome(r) == defs_of(j@),
{
    match j {
        Json::Obj(entries) => {
            proof {
                lemma_view_obj(*entries);
            }
            let ghost members = j@->Obj_0;
            let mut out: Vec<Named<LexUserType>> = Vec::new();
            assert(out.deep_view() =~= Seq::empty());
            let mut i: usize = 0;
            while i < entries.len()
                invariant
                    i <= entries.len(),
                    j@ == JsonValue::Obj(members),
                    members == Json::Obj(*entries)@->Obj_0,
                    members.len() == entries.len(),
                    forall|k: int|
                        0 <= k < entries.len() ==> (#[trigger] members[k]) == (Member {
                            key: entries[k].0@,
                            value: entries[k].1@,
                        }),
                    defs_upto(members, i as int) == Ok::<Seq<NamedModel<LexUserTypeModel>>, Failure>(
                        out.deep_view(),
                    ),
                decreases entries.len() - i,
            {
                assert(members[i as int] == (Member { key: entries[i as int].0@, value: entries[i as int].1@ }));
                if key_seen(entries, i) {
                    proof {
                        assert(defs_upto(members, i + 1) is Err);
                        lemma_defs_upto_stays(members, i + 1, members.len() as int);
                    }
                    return Err(under_key(fail_mismatch(), entries[i].0.as_str()));
                }
                match decode_user_type(&entries[i].1) {
                    Err(e) => {
                        proof {
                            assert(defs_upto(members, i + 1) is Err);
                            lemma_defs_upto_stays(members, i + 1, members.len() as int);
                        }
                        return Err(under_key(e, entries[i].0.as_str()));
                    },
                    Ok(v) => {
                        let ghost before = out.deep_view();
                        let ghost model = NamedModel { name: entries[i as int].0@, value: v.deep_view() };
                        out.push(Named { name: entries[i].0.clone(), value: v });
                        assert(out.deep_view() =~= before.push(model));
                    },
                }
                i += 1;
            }
            Ok(out)
        },
        _ => Err(fail_mismatch()),
    }
}

/// What `j` is read as where a [`LexiconDoc`] is expected.
#[verifier::opaque]
pub open spec fn doc_of(j: JsonValue) -> Result<LexiconDocModel, Failure> {
    let lexicon = required_field(j, "lexicon"@, version_of(child(j, "lexicon"@)));
    let id = required_field(j, "id"@, nsid_of(child(j, "id"@)));
    let revision = optional_field(j, "revision"@, number_of(child(j, "revision"@)));
    let description = optional_field(j, "description"@, text_of(child(j, "description"@)));
    let defs = required_field(j, "defs"@, defs_of(child(j, "defs"@)));
    match shaped(j) {
        Some(e) => Err(e),
        None => if lexicon is Err {
            Err(lexicon->Err_0)
        } else if id is Err {
            Err(id->Err_0)
        } else if revision is Err {
            Err(revision->Err_0)
        } else if description is Err {
            Err(description->Err_0)
        } else if defs is Err {
            Err(defs->Err_0)
        } else {
            Ok(LexiconDocModel {
                lexicon: lexicon->Ok_0,
                id: id->Ok_0,
                revision: revision->Ok_0,
                description: description->Ok_0,
                defs: defs->Ok_0,
            })
        },
    }
}

/// Reads a [`LexiconDoc`] out of `j`. A document that is read is well formed.
pub fn decode_doc(j: &Json) -> (r: Result<LexiconDoc, ParseError>)
    ensures
        outcome(r) == doc_of(j@),
        r matches Ok(d) ==> doc_well_formed(d.deep_view()),
{
    reveal(doc_of);
    proof {
        lemma_doc_sound(j@);
    }
    match check_shape(j) {
        Some(e) => {
            return Err(e);
        },
        None => {},
    }
    let lexicon = match find(j, "lexicon") {
        None => {
            return Err(fail_missing("lexicon"));
        },
        Some(c) => match decode_version(c) {
            Ok(v) => v,
            Err(e) => {
                return Err(under_key(e, "lexicon"));
            },
        },
    };
    let id = match find(j, "id") {
        None => {
            return Err(fail_missing("id"));
        },
        Some(c) => match decode_nsid(c) {
            Ok(v) => v,
            Err(e) => {
                return Err(under_key(e, "id"));
            },
        },
    };
    let revision = match present(j, "revision") {
        None => None,
        Some(c) => match decode_number(c) {
            Ok(v) => Some(v),
            Err(e) => {
                return Err(under_key(e, "revision"));
            },
        },
    };
    let description = match opt_text_field(j, "description") {
        Ok(v) => v,
        Err(e) => {
            return Err(e);
        },
    };
    let defs = match find(j, "defs") {
        None => {
            return Err(fail_missing("defs"));
        },
        Some(c) => match decode_defs(c) {
            Ok(v) => v,
            Err(e) => {
                return Err(under_key(e, "defs"));
            },
        },
    };
    Ok(LexiconDoc { lexicon, id, revision, description, defs })
}

/// What a text is read as: the document in it, or the failure to read one.
///
/// The text is first read as JSON, which is `serde_json`'s work and is only
/// named here; the document is then read out of the JSON value.
pub open spec fn parse_outcome(text: Seq<char>) -> Result<LexiconDocModel, Failure> {
    match text_model(text) {
        Err(place) => Err(
            Failure { kind: ParseErrorKind::Syntax, path: Seq::empty(), position: Some(place) },
        ),
        Ok(j) => doc_of(j),
    }
}

/// Reads one document from its text. A document that is read is well
/// formed.
pub fn parse_lexicon_doc(doc: &str) -> (r: Result<LexiconDoc, ParseError>)
    ensures
        outcome(r) == parse_outcome(doc@),
        r matches Ok(d) ==> doc_well_formed(d.deep_view()),
{
    match parse_json(doc) {
        Err(place) => {
            let e = ParseError { kind: ParseErrorKind::Syntax, path: Vec::new(), position: Some(place) };
            assert(e.path.deep_view() =~= Seq::empty());
            Err(e)
        },
        Ok(j) => decode_doc(&j),
    }
}


} // verus!
