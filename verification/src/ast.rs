//! The syntax tree of a Lexicon document, and the mathematical model of each
//! of its types.
//!
//! A type that is a map in the JSON text is a list of [`Named`] entries
//! here. A list that was read has no name twice and keeps the order of the
//! entries of the JSON value it was read from; for a value that
//! `serde_json` made of a text, that is the order of the keys, not the
//! order of the text.

use vstd::prelude::*;

verus! {

/// A value together with the name it stands under.
#[derive(Debug, Clone, PartialEq, Eq)]
pub struct Named<T> {
    pub name: String,
    pub value: T,
}

/// The mathematical value of a [`Named`].
pub struct NamedModel<M> {
    pub name: Seq<char>,
    pub value: M,
}

impl<T: DeepView> DeepView for Named<T> {
    type V = NamedModel<T::V>;

    open spec fn deep_view(&self) -> NamedModel<T::V> {
        NamedModel { name: self.name@, value: self.value.deep_view() }
    }
}

/// A JSON number: an integer, or the decimal text of any other number.
#[derive(Debug, Clone, PartialEq, Eq)]
pub enum LexNumber {
    Int(i64),
    Real(String),
}

/// The mathematical value of a [`LexNumber`].
pub enum NumberModel {
    Int(i64),
    Real(Seq<char>),
}

impl DeepView for LexNumber {
    type V = NumberModel;

    open spec fn deep_view(&self) -> NumberModel {
        match self {
            LexNumber::Int(i) => NumberModel::Int(*i),
            LexNumber::Real(t) => NumberModel::Real(t@),
        }
    }
}

/// The formats that a string can be held to.
#[derive(Debug, Clone, Copy, PartialEq, Eq, Structural)]
pub enum LexStringFormat {
    Datetime,
    Uri,
    AtUri,
    Did,
    Handle,
    AtIdentifier,
    Nsid,
    Cid,
}

impl DeepView for LexStringFormat {
    type V = LexStringFormat;

    open spec fn deep_view(&self) -> LexStringFormat {
        *self
    }
}

/// A boolean leaf.
#[derive(Debug, Clone, PartialEq, Eq)]
pub enum LexBoolean {
    Boolean {
        description: Option<String>,
        default: Option<bool>,
        const_value: Option<bool>,
    },
}

/// The mathematical value of a [`LexBoolean`].
pub struct LexBooleanModel {
    pub description: Option<Seq<char>>,
    pub default: Option<bool>,
    pub const_value: Option<bool>,
}

impl DeepView for LexBoolean {
    type V = LexBooleanModel;

    open spec fn deep_view(&self) -> LexBooleanModel {
        match self {
            LexBoolean::Boolean { description, default, const_value } => LexBooleanModel {
                description: description.deep_view(),
                default: default.deep_view(),
                const_value: const_value.deep_view(),
            },
        }
    }
}

/// An integer leaf with its range, choices and fixed value.
#[derive(Debug, Clone, PartialEq, Eq)]
pub enum LexInteger {
    Integer {
        description: Option<String>,
        default: Option<i64>,
        minimum: Option<i64>,
        maximum: Option<i64>,
        enum_values: Option<Vec<i64>>,
        const_value: Option<i64>,
    },
}

/// The mathematical value of a [`LexInteger`].
pub struct LexIntegerModel {
    pub description: Option<Seq<char>>,
    pub default: Option<i64>,
    pub minimum: Option<i64>,
    pub maximum: Option<i64>,
    pub enum_values: Option<Seq<i64>>,
    pub const_value: Option<i64>,
}

impl DeepView for LexInteger {
    type V = LexIntegerModel;

    open spec fn deep_view(&self) -> LexIntegerModel {
        match self {
            LexInteger::Integer { description, default, minimum, maximum, enum_values, const_value } => LexIntegerModel {
                description: description.deep_view(),
                default: default.deep_view(),
                minimum: minimum.deep_view(),
                maximum: maximum.deep_view(),
                enum_values: enum_values.deep_view(),
                const_value: const_value.deep_view(),
            },
        }
    }
}

/// A string leaf with its format, length bounds, choices and fixed value.
#[derive(Debug, Clone, PartialEq, Eq)]
pub enum LexString {
    String {
        format: Option<LexStringFormat>,
        description: Option<String>,
        default: Option<String>,
        min_length: Option<i64>,
        max_length: Option<i64>,
        min_graphemes: Option<i64>,
        max_graphemes: Option<i64>,
        enum_values: Option<Vec<String>>,
        const_value: Option<String>,
        known_values: Option<Vec<String>>,
    },
}

/// The mathematical value of a [`LexString`].
pub struct LexStringModel {
    pub format: Option<LexStringFormat>,
    pub description: Option<Seq<char>>,
    pub default: Option<Seq<char>>,
    pub min_length: Option<i64>,
    pub max_length: Option<i64>,
    pub min_graphemes: Option<i64>,
    pub max_graphemes: Option<i64>,
    pub enum_values: Option<Seq<Seq<char>>>,
    pub const_value: Option<Seq<char>>,
    pub known_values: Option<Seq<Seq<char>>>,
}

impl DeepView for LexString {
    type V = LexStringModel;

    open spec fn deep_view(&self) -> LexStringModel {
        match self {
            LexString::String { format, description, default, min_length, max_length, min_graphemes, max_graphemes, enum_values, const_value, known_values } => LexStringModel {
                format: format.deep_view(),
                description: description.deep_view(),
                default: default.deep_view(),
                min_length: min_length.deep_view(),
                max_length: max_length.deep_view(),
                min_graphemes: min_graphemes.deep_view(),
                max_graphemes: max_graphemes.deep_view(),
                enum_values: enum_values.deep_view(),
                const_value: const_value.deep_view(),
                known_values: known_values.deep_view(),
            },
        }
    }
}

/// A leaf of which nothing is known.
#[derive(Debug, Clone, PartialEq, Eq)]
pub enum LexUnknown {
    Unknown {
        description: Option<String>,
    },
}

/// The mathematical value of a [`LexUnknown`].
pub struct LexUnknownModel {
    pub description: Option<Seq<char>>,
}

impl DeepView for LexUnknown {
    type V = LexUnknownModel;

    open spec fn deep_view(&self) -> LexUnknownModel {
        match self {
            LexUnknown::Unknown { description } => LexUnknownModel {
                description: description.deep_view(),
            },
        }
    }
}

/// One of the primitive leaves.
#[derive(Debug, Clone, PartialEq, Eq)]
pub enum LexPrimitive {
    Boolean(LexBoolean),
    Integer(LexInteger),
    String(LexString),
    Unknown(LexUnknown),
}

/// The mathematical value of a [`LexPrimitive`].
pub enum LexPrimitiveModel {
    Boolean(LexBooleanModel),
    Integer(LexIntegerModel),
    String(LexStringModel),
    Unknown(LexUnknownModel),
}

impl DeepView for LexPrimitive {
    type V = LexPrimitiveModel;

    open spec fn deep_view(&self) -> LexPrimitiveModel {
        match self {
            LexPrimitive::Boolean(x) => LexPrimitiveModel::Boolean(x.deep_view()),
            LexPrimitive::Integer(x) => LexPrimitiveModel::Integer(x.deep_view()),
            LexPrimitive::String(x) => LexPrimitiveModel::String(x.deep_view()),
            LexPrimitive::Unknown(x) => LexPrimitiveModel::Unknown(x.deep_view()),
        }
    }
}

/// A byte string.
#[derive(Debug, Clone, PartialEq, Eq)]
pub enum LexBytes {
    Bytes {
        description: Option<String>,
        default: Option<String>,
        const_value: Option<String>,
    },
}

/// The mathematical value of a [`LexBytes`].
pub struct LexBytesModel {
    pub description: Option<Seq<char>>,
    pub default: Option<Seq<char>>,
    pub const_value: Option<Seq<char>>,
}

impl DeepView for LexBytes {
    type V = LexBytesModel;

    open spec fn deep_view(&self) -> LexBytesModel {
        match self {
            LexBytes::Bytes { description, default, const_value } => LexBytesModel {
                description: description.deep_view(),
                default: default.deep_view(),
                const_value: const_value.deep_view(),
            },
        }
    }
}

/// A link by content identifier.
#[derive(Debug, Clone, PartialEq, Eq)]
pub enum LexCidLink {
    CidLink {
        description: Option<String>,
    },
}

/// The mathematical value of a [`LexCidLink`].
pub struct LexCidLinkModel {
    pub description: Option<Seq<char>>,
}

impl DeepView for LexCidLink {
    type V = LexCidLinkModel;

    open spec fn deep_view(&self) -> LexCidLinkModel {
        match self {
            LexCidLink::CidLink { description } => LexCidLinkModel {
                description: description.deep_view(),
            },
        }
    }
}

/// One of the two linked-data leaves.
#[derive(Debug, Clone, PartialEq, Eq)]
pub enum LexIpldType {
    Bytes(LexBytes),
    CidLink(LexCidLink),
}

/// The mathematical value of a [`LexIpldType`].
pub enum LexIpldTypeModel {
    Bytes(LexBytesModel),
    CidLink(LexCidLinkModel),
}

impl DeepView for LexIpldType {
    type V = LexIpldTypeModel;

    open spec fn deep_view(&self) -> LexIpldTypeModel {
        match self {
            LexIpldType::Bytes(x) => LexIpldTypeModel::Bytes(x.deep_view()),
            LexIpldType::CidLink(x) => LexIpldTypeModel::CidLink(x.deep_view()),
        }
    }
}

/// A pointer to one definition.
#[derive(Debug, Clone, PartialEq, Eq)]
pub enum LexRef {
    Ref {
        description: Option<String>,
        reference: String,
    },
}

/// The mathematical value of a [`LexRef`].
pub struct LexRefModel {
    pub description: Option<Seq<char>>,
    pub reference: Seq<char>,
}

impl DeepView for LexRef {
    type V = LexRefModel;

    open spec fn deep_view(&self) -> LexRefModel {
        match self {
            LexRef::Ref { description, reference } => LexRefModel {
                description: description.deep_view(),
                reference: reference.deep_view(),
            },
        }
    }
}

/// A pointer to one of several definitions; closed, it admits no other.
#[derive(Debug, Clone, PartialEq, Eq)]
pub enum LexRefUnion {
    Union {
        description: Option<String>,
        refs: Vec<String>,
        closed: Option<bool>,
    },
}

/// The mathematical value of a [`LexRefUnion`].
pub struct LexRefUnionModel {
    pub description: Option<Seq<char>>,
    pub refs: Seq<Seq<char>>,
    pub closed: Option<bool>,
}

impl DeepView for LexRefUnion {
    type V = LexRefUnionModel;

    open spec fn deep_view(&self) -> LexRefUnionModel {
        match self {
            LexRefUnion::Union { description, refs, closed } => LexRefUnionModel {
                description: description.deep_view(),
                refs: refs.deep_view(),
                closed: closed.deep_view(),
            },
        }
    }
}

/// A single pointer or a union of pointers.
#[derive(Debug, Clone, PartialEq, Eq)]
pub enum LexRefVariant {
    Ref(LexRef),
    RefUnion(LexRefUnion),
}

/// The mathematical value of a [`LexRefVariant`].
pub enum LexRefVariantModel {
    Ref(LexRefModel),
    RefUnion(LexRefUnionModel),
}

impl DeepView for LexRefVariant {
    type V = LexRefVariantModel;

    open spec fn deep_view(&self) -> LexRefVariantModel {
        match self {
            LexRefVariant::Ref(x) => LexRefVariantModel::Ref(x.deep_view()),
            LexRefVariant::RefUnion(x) => LexRefVariantModel::RefUnion(x.deep_view()),
        }
    }
}

/// A blob with the media types it accepts and its size limit.
#[derive(Debug, Clone, PartialEq, Eq)]
pub enum LexBlob {
    Blob {
        description: Option<String>,
        accept: Option<Vec<String>>,
        max_size: Option<i64>,
    },
}

/// The mathematical value of a [`LexBlob`].
pub struct LexBlobModel {
    pub description: Option<Seq<char>>,
    pub accept: Option<Seq<Seq<char>>>,
    pub max_size: Option<i64>,
}

impl DeepView for LexBlob {
    type V = LexBlobModel;

    open spec fn deep_view(&self) -> LexBlobModel {
        match self {
            LexBlob::Blob { description, accept, max_size } => LexBlobModel {
                description: description.deep_view(),
                accept: accept.deep_view(),
                max_size: max_size.deep_view(),
            },
        }
    }
}

/// What an array can hold: anything but another array.
#[derive(Debug, Clone, PartialEq, Eq)]
pub enum LexItems {
    Primitive(LexPrimitive),
    IpldType(LexIpldType),
    Blob(LexBlob),
    RefVariant(LexRefVariant),
}

/// The mathematical value of a [`LexItems`].
pub enum LexItemsModel {
    Primitive(LexPrimitiveModel),
    IpldType(LexIpldTypeModel),
    Blob(LexBlobModel),
    RefVariant(LexRefVariantModel),
}

impl DeepView for LexItems {
    type V = LexItemsModel;

    open spec fn deep_view(&self) -> LexItemsModel {
        match self {
            LexItems::Primitive(x) => LexItemsModel::Primitive(x.deep_view()),
            LexItems::IpldType(x) => LexItemsModel::IpldType(x.deep_view()),
            LexItems::Blob(x) => LexItemsModel::Blob(x.deep_view()),
            LexItems::RefVariant(x) => LexItemsModel::RefVariant(x.deep_view()),
        }
    }
}

/// An array with its item type and length bounds.
#[derive(Debug, Clone, PartialEq, Eq)]
pub enum LexArray {
    Array {
        description: Option<String>,
        items: LexItems,
        min_length: Option<i64>,
        max_length: Option<i64>,
    },
}

/// The mathematical value of a [`LexArray`].
pub struct LexArrayModel {
    pub description: Option<Seq<char>>,
    pub items: LexItemsModel,
    pub min_length: Option<i64>,
    pub max_length: Option<i64>,
}

impl DeepView for LexArray {
    type V = LexArrayModel;

    open spec fn deep_view(&self) -> LexArrayModel {
        match self {
            LexArray::Array { description, items, min_length, max_length } => LexArrayModel {
                description: description.deep_view(),
                items: items.deep_view(),
                min_length: min_length.deep_view(),
                max_length: max_length.deep_view(),
            },
        }
    }
}

/// An array of primitive leaves, as a method parameter may be.
#[derive(Debug, Clone, PartialEq, Eq)]
pub enum LexPrimitiveArray {
    Array {
        description: Option<String>,
        items: LexPrimitive,
        min_length: Option<i64>,
        max_length: Option<i64>,
    },
}

/// The mathematical value of a [`LexPrimitiveArray`].
pub struct LexPrimitiveArrayModel {
    pub description: Option<Seq<char>>,
    pub items: LexPrimitiveModel,
    pub min_length: Option<i64>,
    pub max_length: Option<i64>,
}

impl DeepView for LexPrimitiveArray {
    type V = LexPrimitiveArrayModel;

    open spec fn deep_view(&self) -> LexPrimitiveArrayModel {
        match self {
            LexPrimitiveArray::Array { description, items, min_length, max_length } => LexPrimitiveArrayModel {
                description: description.deep_view(),
                items: items.deep_view(),
                min_length: min_length.deep_view(),
                max_length: max_length.deep_view(),
            },
        }
    }
}

/// A bare name with no data.
#[derive(Debug, Clone, PartialEq, Eq)]
pub enum LexToken {
    Token {
        description: Option<String>,
    },
}

/// The mathematical value of a [`LexToken`].
pub struct LexTokenModel {
    pub description: Option<Seq<char>>,
}

impl DeepView for LexToken {
    type V = LexTokenModel;

    open spec fn deep_view(&self) -> LexTokenModel {
        match self {
            LexToken::Token { description } => LexTokenModel {
                description: description.deep_view(),
            },
        }
    }
}

/// What a property of an object can be.
#[derive(Debug, Clone, PartialEq, Eq)]
pub enum LexProperty {
    RefVariant(LexRefVariant),
    IpldType(LexIpldType),
    Array(LexArray),
    Blob(LexBlob),
    Primitive(LexPrimitive),
}

/// The mathematical value of a [`LexProperty`].
pub enum LexPropertyModel {
    RefVariant(LexRefVariantModel),
    IpldType(LexIpldTypeModel),
    Array(LexArrayModel),
    Blob(LexBlobModel),
    Primitive(LexPrimitiveModel),
}

impl DeepView for LexProperty {
    type V = LexPropertyModel;

    open spec fn deep_view(&self) -> LexPropertyModel {
        match self {
            LexProperty::RefVariant(x) => LexPropertyModel::RefVariant(x.deep_view()),
            LexProperty::IpldType(x) => LexPropertyModel::IpldType(x.deep_view()),
            LexProperty::Array(x) => LexPropertyModel::Array(x.deep_view()),
            LexProperty::Blob(x) => LexPropertyModel::Blob(x.deep_view()),
            LexProperty::Primitive(x) => LexPropertyModel::Primitive(x.deep_view()),
        }
    }
}

/// An object: its properties by name, and which of them are required and which may be null.
#[derive(Debug, Clone, PartialEq, Eq)]
pub enum LexObject {
    Object {
        description: Option<String>,
        required: Option<Vec<String>>,
        nullable: Option<Vec<String>>,
        properties: Option<Vec<Named<LexProperty>>>,
    },
}

/// The mathematical value of a [`LexObject`].
pub struct LexObjectModel {
    pub description: Option<Seq<char>>,
    pub required: Option<Seq<Seq<char>>>,
    pub nullable: Option<Seq<Seq<char>>>,
    pub properties: Option<Seq<NamedModel<LexPropertyModel>>>,
}

impl DeepView for LexObject {
    type V = LexObjectModel;

    open spec fn deep_view(&self) -> LexObjectModel {
        match self {
            LexObject::Object { description, required, nullable, properties } => LexObjectModel {
                description: description.deep_view(),
                required: required.deep_view(),
                nullable: nullable.deep_view(),
                properties: properties.deep_view(),
            },
        }
    }
}

/// One parameter of a method.
#[derive(Debug, Clone, PartialEq, Eq)]
pub enum LexXrpcParameter {
    Primitive(LexPrimitive),
    PrimitiveArray(LexPrimitiveArray),
}

/// The mathematical value of a [`LexXrpcParameter`].
pub enum LexXrpcParameterModel {
    Primitive(LexPrimitiveModel),
    PrimitiveArray(LexPrimitiveArrayModel),
}

impl DeepView for LexXrpcParameter {
    type V = LexXrpcParameterModel;

    open spec fn deep_view(&self) -> LexXrpcParameterModel {
        match self {
            LexXrpcParameter::Primitive(x) => LexXrpcParameterModel::Primitive(x.deep_view()),
            LexXrpcParameter::PrimitiveArray(x) => LexXrpcParameterModel::PrimitiveArray(x.deep_view()),
        }
    }
}

/// The parameters of a method.
#[derive(Debug, Clone, PartialEq, Eq)]
pub enum LexXrpcParameters {
    Params {
        description: Option<String>,
        required: Option<Vec<String>>,
        properties: Vec<Named<LexXrpcParameter>>,
    },
}

/// The mathematical value of a [`LexXrpcParameters`].
pub struct LexXrpcParametersModel {
    pub description: Option<Seq<char>>,
    pub required: Option<Seq<Seq<char>>>,
    pub properties: Seq<NamedModel<LexXrpcParameterModel>>,
}

impl DeepView for LexXrpcParameters {
    type V = LexXrpcParametersModel;

    open spec fn deep_view(&self) -> LexXrpcParametersModel {
        match self {
            LexXrpcParameters::Params { description, required, properties } => LexXrpcParametersModel {
                description: description.deep_view(),
                required: required.deep_view(),
                properties: properties.deep_view(),
            },
        }
    }
}

/// The schema of a method body.
#[derive(Debug, Clone, PartialEq, Eq)]
pub enum LexXrpcBodySchema {
    RefVariant(LexRefVariant),
    Object(LexObject),
}

/// The mathematical value of a [`LexXrpcBodySchema`].
pub enum LexXrpcBodySchemaModel {
    RefVariant(LexRefVariantModel),
    Object(LexObjectModel),
}

impl DeepView for LexXrpcBodySchema {
    type V = LexXrpcBodySchemaModel;

    open spec fn deep_view(&self) -> LexXrpcBodySchemaModel {
        match self {
            LexXrpcBodySchema::RefVariant(x) => LexXrpcBodySchemaModel::RefVariant(x.deep_view()),
            LexXrpcBodySchema::Object(x) => LexXrpcBodySchemaModel::Object(x.deep_view()),
        }
    }
}

/// The input or output body of a method.
#[derive(Debug, Clone, PartialEq, Eq)]
pub struct LexXrpcBody {
    pub description: Option<String>,
    pub encoding: String,
    pub schema: Option<LexXrpcBodySchema>,
}

/// The mathematical value of a [`LexXrpcBody`].
pub struct LexXrpcBodyModel {
    pub description: Option<Seq<char>>,
    pub encoding: Seq<char>,
    pub schema: Option<LexXrpcBodySchemaModel>,
}

impl DeepView for LexXrpcBody {
    type V = LexXrpcBodyModel;

    open spec fn deep_view(&self) -> LexXrpcBodyModel {
        LexXrpcBodyModel {
            description: self.description.deep_view(),
            encoding: self.encoding.deep_view(),
            schema: self.schema.deep_view(),
        }
    }
}

/// The schema of a subscription message.
#[derive(Debug, Clone, PartialEq, Eq)]
pub enum LexXrpcSubscriptionMessageSchema {
    RefVariant(LexRefVariant),
    Object(LexObject),
}

/// The mathematical value of a [`LexXrpcSubscriptionMessageSchema`].
pub enum LexXrpcSubscriptionMessageSchemaModel {
    RefVariant(LexRefVariantModel),
    Object(LexObjectModel),
}

impl DeepView for LexXrpcSubscriptionMessageSchema {
    type V = LexXrpcSubscriptionMessageSchemaModel;

    open spec fn deep_view(&self) -> LexXrpcSubscriptionMessageSchemaModel {
        match self {
            LexXrpcSubscriptionMessageSchema::RefVariant(x) => LexXrpcSubscriptionMessageSchemaModel::RefVariant(x.deep_view()),
            LexXrpcSubscriptionMessageSchema::Object(x) => LexXrpcSubscriptionMessageSchemaModel::Object(x.deep_view()),
        }
    }
}

/// The message of a subscription.
#[derive(Debug, Clone, PartialEq, Eq)]
pub struct LexXrpcSubscriptionMessage {
    pub description: Option<String>,
    pub schema: Option<LexXrpcSubscriptionMessageSchema>,
}

/// The mathematical value of a [`LexXrpcSubscriptionMessage`].
pub struct LexXrpcSubscriptionMessageModel {
    pub description: Option<Seq<char>>,
    pub schema: Option<LexXrpcSubscriptionMessageSchemaModel>,
}

impl DeepView for LexXrpcSubscriptionMessage {
    type V = LexXrpcSubscriptionMessageModel;

    open spec fn deep_view(&self) -> LexXrpcSubscriptionMessageModel {
        LexXrpcSubscriptionMessageModel {
            description: self.description.deep_view(),
            schema: self.schema.deep_view(),
        }
    }
}

/// A named error or info of a method.
#[derive(Debug, Clone, PartialEq, Eq)]
pub struct LexXrpcError {
    pub name: String,
    pub description: Option<String>,
}

/// The mathematical value of a [`LexXrpcError`].
pub struct LexXrpcErrorModel {
    pub name: Seq<char>,
    pub description: Option<Seq<char>>,
}

impl DeepView for LexXrpcError {
    type V = LexXrpcErrorModel;

    open spec fn deep_view(&self) -> LexXrpcErrorModel {
        LexXrpcErrorModel {
            name: self.name.deep_view(),
            description: self.description.deep_view(),
        }
    }
}

/// A query method.
#[derive(Debug, Clone, PartialEq, Eq)]
pub enum LexXrpcQuery {
    Query {
        description: Option<String>,
        parameters: Option<LexXrpcParameters>,
        output: Option<LexXrpcBody>,
        errors: Option<Vec<LexXrpcError>>,
    },
}

/// The mathematical value of a [`LexXrpcQuery`].
pub struct LexXrpcQueryModel {
    pub description: Option<Seq<char>>,
    pub parameters: Option<LexXrpcParametersModel>,
    pub output: Option<LexXrpcBodyModel>,
    pub errors: Option<Seq<LexXrpcErrorModel>>,
}

impl DeepView for LexXrpcQuery {
    type V = LexXrpcQueryModel;

    open spec fn deep_view(&self) -> LexXrpcQueryModel {
        match self {
            LexXrpcQuery::Query { description, parameters, output, errors } => LexXrpcQueryModel {
                description: description.deep_view(),
                parameters: parameters.deep_view(),
                output: output.deep_view(),
                errors: errors.deep_view(),
            },
        }
    }
}

/// A procedure method.
#[derive(Debug, Clone, PartialEq, Eq)]
pub enum LexXrpcProcedure {
    Procedure {
        description: Option<String>,
        parameters: Option<LexXrpcParameters>,
        input: Option<LexXrpcBody>,
        output: Option<LexXrpcBody>,
        errors: Option<Vec<LexXrpcError>>,
    },
}

/// The mathematical value of a [`LexXrpcProcedure`].
pub struct LexXrpcProcedureModel {
    pub description: Option<Seq<char>>,
    pub parameters: Option<LexXrpcParametersModel>,
    pub input: Option<LexXrpcBodyModel>,
    pub output: Option<LexXrpcBodyModel>,
    pub errors: Option<Seq<LexXrpcErrorModel>>,
}

impl DeepView for LexXrpcProcedure {
    type V = LexXrpcProcedureModel;

    open spec fn deep_view(&self) -> LexXrpcProcedureModel {
        match self {
            LexXrpcProcedure::Procedure { description, parameters, input, output, errors } => LexXrpcProcedureModel {
                description: description.deep_view(),
                parameters: parameters.deep_view(),
                input: input.deep_view(),
                output: output.deep_view(),
                errors: errors.deep_view(),
            },
        }
    }
}

/// A subscription method.
#[derive(Debug, Clone, PartialEq, Eq)]
pub enum LexXrpcSubscription {
    Subscription {
        description: Option<String>,
        parameters: Option<LexXrpcParameters>,
        message: Option<LexXrpcSubscriptionMessage>,
        infos: Option<Vec<LexXrpcError>>,
        errors: Option<Vec<LexXrpcError>>,
    },
}

/// The mathematical value of a [`LexXrpcSubscription`].
pub struct LexXrpcSubscriptionModel {
    pub description: Option<Seq<char>>,
    pub parameters: Option<LexXrpcParametersModel>,
    pub message: Option<LexXrpcSubscriptionMessageModel>,
    pub infos: Option<Seq<LexXrpcErrorModel>>,
    pub errors: Option<Seq<LexXrpcErrorModel>>,
}

impl DeepView for LexXrpcSubscription {
    type V = LexXrpcSubscriptionModel;

    open spec fn deep_view(&self) -> LexXrpcSubscriptionModel {
        match self {
            LexXrpcSubscription::Subscription { description, parameters, message, infos, errors } => LexXrpcSubscriptionModel {
                description: description.deep_view(),
                parameters: parameters.deep_view(),
                message: message.deep_view(),
                infos: infos.deep_view(),
                errors: errors.deep_view(),
            },
        }
    }
}

/// A record: one object and the strategy for its key.
#[derive(Debug, Clone, PartialEq, Eq)]
pub enum LexRecord {
    Record {
        description: Option<String>,
        key: Option<String>,
        record: LexObject,
    },
}

/// The mathematical value of a [`LexRecord`].
pub struct LexRecordModel {
    pub description: Option<Seq<char>>,
    pub key: Option<Seq<char>>,
    pub record: LexObjectModel,
}

impl DeepView for LexRecord {
    type V = LexRecordModel;

    open spec fn deep_view(&self) -> LexRecordModel {
        match self {
            LexRecord::Record { description, key, record } => LexRecordModel {
                description: description.deep_view(),
                key: key.deep_view(),
                record: record.deep_view(),
            },
        }
    }
}

/// A definition of a document.
#[derive(Debug, Clone, PartialEq, Eq)]
pub enum LexUserType {
    Record(LexRecord),
    XrpcQuery(LexXrpcQuery),
    XrpcProcedure(LexXrpcProcedure),
    XrpcSubscription(LexXrpcSubscription),
    Blob(LexBlob),
    Array(LexArray),
    Token(LexToken),
    Object(LexObject),
    Boolean(LexPrimitive),
    Integer(LexPrimitive),
    String(LexPrimitive),
    Bytes(LexIpldType),
    CidLink(LexIpldType),
    Unknown(LexPrimitive),
}

/// The mathematical value of a [`LexUserType`].
pub enum LexUserTypeModel {
    Record(LexRecordModel),
    XrpcQuery(LexXrpcQueryModel),
    XrpcProcedure(LexXrpcProcedureModel),
    XrpcSubscription(LexXrpcSubscriptionModel),
    Blob(LexBlobModel),
    Array(LexArrayModel),
    Token(LexTokenModel),
    Object(LexObjectModel),
    Boolean(LexPrimitiveModel),
    Integer(LexPrimitiveModel),
    String(LexPrimitiveModel),
    Bytes(LexIpldTypeModel),
    CidLink(LexIpldTypeModel),
    Unknown(LexPrimitiveModel),
}

impl DeepView for LexUserType {
    type V = LexUserTypeModel;

    open spec fn deep_view(&self) -> LexUserTypeModel {
        match self {
            LexUserType::Record(x) => LexUserTypeModel::Record(x.deep_view()),
            LexUserType::XrpcQuery(x) => LexUserTypeModel::XrpcQuery(x.deep_view()),
            LexUserType::XrpcProcedure(x) => LexUserTypeModel::XrpcProcedure(x.deep_view()),
            LexUserType::XrpcSubscription(x) => LexUserTypeModel::XrpcSubscription(x.deep_view()),
            LexUserType::Blob(x) => LexUserTypeModel::Blob(x.deep_view()),
            LexUserType::Array(x) => LexUserTypeModel::Array(x.deep_view()),
            LexUserType::Token(x) => LexUserTypeModel::Token(x.deep_view()),
            LexUserType::Object(x) => LexUserTypeModel::Object(x.deep_view()),
            LexUserType::Boolean(x) => LexUserTypeModel::Boolean(x.deep_view()),
            LexUserType::Integer(x) => LexUserTypeModel::Integer(x.deep_view()),
            LexUserType::String(x) => LexUserTypeModel::String(x.deep_view()),
            LexUserType::Bytes(x) => LexUserTypeModel::Bytes(x.deep_view()),
            LexUserType::CidLink(x) => LexUserTypeModel::CidLink(x.deep_view()),
            LexUserType::Unknown(x) => LexUserTypeModel::Unknown(x.deep_view()),
        }
    }
}

/// One document: its identifier and its definitions by name, in the order of the JSON value they were read from.
#[derive(Debug, Clone, PartialEq, Eq)]
pub struct LexiconDoc {
    pub lexicon: u8,
    pub id: String,
    pub revision: Option<LexNumber>,
    pub description: Option<String>,
    pub defs: Vec<Named<LexUserType>>,
}

/// The mathematical value of a [`LexiconDoc`].
pub struct LexiconDocModel {
    pub lexicon: u8,
    pub id: Seq<char>,
    pub revision: Option<NumberModel>,
    pub description: Option<Seq<char>>,
    pub defs: Seq<NamedModel<LexUserTypeModel>>,
}

impl DeepView for LexiconDoc {
    type V = LexiconDocModel;

    open spec fn deep_view(&self) -> LexiconDocModel {
        LexiconDocModel {
            lexicon: self.lexicon.deep_view(),
            id: self.id.deep_view(),
            revision: self.revision.deep_view(),
            description: self.description.deep_view(),
            defs: self.defs.deep_view(),
        }
    }
}

} // verus!
