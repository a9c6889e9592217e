//! Lexicon schema documents: a typed syntax tree read from JSON, a registry of
//! documents, a resolver for the references between their definitions, a
//! mapper to a neutral intermediate form, and identifier generation for the
//! declarations derived from it.

pub mod json;
pub mod text;
pub mod reader;
pub mod names;
pub mod ast;
pub mod decode;
pub mod spelling;
pub mod encode;
pub mod registry;
pub mod refs;
pub mod graph;
pub mod resolve;
pub mod ir;
pub mod mapper;
pub mod generate;
pub mod linked;
pub mod pipeline;

pub use crate::ast::{
    LexArray, LexBlob, LexBoolean, LexBytes, LexCidLink, LexInteger, LexIpldType, LexItems, LexNumber,
    LexObject, LexPrimitive, LexPrimitiveArray, LexProperty, LexRecord, LexRef, LexRefUnion,
    LexRefVariant, LexString, LexStringFormat, LexToken, LexUnknown, LexUserType, LexXrpcBody,
    LexXrpcBodySchema, LexXrpcError, LexXrpcParameter, LexXrpcParameters, LexXrpcProcedure,
    LexXrpcQuery, LexXrpcSubscription, LexXrpcSubscriptionMessage, LexXrpcSubscriptionMessageSchema,
    LexiconDoc, Named,
};
pub use crate::decode::{decode_doc, parse_lexicon_doc};
pub use crate::encode::encode_doc;
pub use crate::generate::{
    generate, Artifact, Declaration, FailedDoc, GenError, GenErrorKind, Generation, Part, PartKind,
};
pub use crate::json::{parse_json, Json, SyntaxError};
pub use crate::mapper::{map_node, MapError};
pub use crate::pipeline::{compile, parse_all, register_all, CompileError, Compiled, Report, Source};
pub use crate::reader::{ParseError, ParseErrorKind, PathStep};
pub use crate::registry::{DuplicateNsid, Registry, SealedRegistry};
pub use crate::resolve::{resolve, NodeId, RefGraph, ResolveError, ResolveErrorKind};
