//! The type mapper: from a definition of the syntax tree to its
//! intermediate form.
//!
//! Parts are mapped in the order of their fields and the first failure is
//! the result.

use vstd::prelude::*;
use crate::ast::{
    LexArray, LexArrayModel, LexBlob, LexBlobModel, LexBoolean, LexBooleanModel, LexBytes,
    LexBytesModel, LexInteger, LexIntegerModel, LexIpldType, LexIpldTypeModel, LexItems,
    LexItemsModel, LexObject, LexObjectModel, LexPrimitive, LexPrimitiveArray,
    LexPrimitiveArrayModel, LexPrimitiveModel, LexProperty, LexPropertyModel, LexRecord,
    LexRecordModel, LexRef, LexRefUnion, LexRefUnionModel, LexRefVariant, LexRefVariantModel,
    LexString, LexStringModel, LexUserType, LexUserTypeModel, LexXrpcBody, LexXrpcBodyModel,
    LexXrpcBodySchema, LexXrpcBodySchemaModel, LexXrpcError, LexXrpcErrorModel, LexXrpcParameter,
    LexXrpcParameterModel, LexXrpcParameters, LexXrpcParametersModel, LexXrpcProcedure,
    LexXrpcProcedureModel, LexXrpcQuery, LexXrpcQueryModel, LexXrpcSubscription,
    LexXrpcSubscriptionMessage, LexXrpcSubscriptionMessageModel, LexXrpcSubscriptionMessageSchema,
    LexXrpcSubscriptionMessageSchemaModel, LexXrpcSubscriptionModel, LexiconDoc, LexiconDocModel,
    NamedModel,
};
use crate::ir::{
    ConstraintSet, ConstraintSetModel, IrArray, IrArrayModel, IrBlob, IrBlobModel, IrBody,
    IrBodyModel, IrField, IrFieldModel, IrItem, IrItemModel, IrLeaf, IrLeafModel, IrMethod,
    IrMethodModel, IrNode, IrNodeModel, IrRecord, IrRecordModel, IrSchema, IrSchemaModel, IrType,
    IrTypeModel, IrUnion, IrUnionModel, LeafKind, Literal, LiteralModel, Presence, Range,
};
use crate::refs::{is_nullable, may_be_null};
use crate::registry::SealedRegistry;
use crate::resolve::{NodeId, NodeModel, node_in, resolve, resolve_target, resolve_use};

verus! {

/// Why a definition has no intermediate form.
#[derive(Debug, Clone, Copy, PartialEq, Eq, Structural)]
pub enum MapError {
    /// A lower bound exceeds its upper bound.
    InvalidConstraintRange,
    /// A reference does not resolve.
    UnresolvedRef,
}

/// The outcome of a mapping, seen through the model of its value.
pub open spec fn mapped<T: DeepView>(r: Result<T, MapError>) -> Result<T::V, MapError> {
    match r {
        Ok(v) => Ok(v.deep_view()),
        Err(e) => Err(e),
    }
}

/// How a property stands by the lists of required and of nullable names.
pub open spec fn presence_of(
    required: Option<Seq<Seq<char>>>,
    nullable: Option<Seq<Seq<char>>>,
    name: Seq<char>,
) -> Presence {
    if may_be_null(required, name) {
        if may_be_null(nullable, name) {
            Presence::MandatoryNullable
        } else {
            Presence::MandatoryNonNull
        }
    } else {
        if may_be_null(nullable, name) {
            Presence::OptionalNullable
        } else {
            Presence::OptionalNonNull
        }
    }
}

/// How a property stands by the lists of required and of nullable names.
pub fn classify_presence(required: &Option<Vec<String>>, nullable: &Option<Vec<String>>, name: &str) -> (r:
    Presence)
    ensures
        r == presence_of(required.deep_view(), nullable.deep_view(), name@),
{
    let req = is_nullable(required, name);
    let nul = is_nullable(nullable, name);
    if req {
        if nul {
            Presence::MandatoryNullable
        } else {
            Presence::MandatoryNonNull
        }
    } else {
        if nul {
            Presence::OptionalNullable
        } else {
            Presence::OptionalNonNull
        }
    }
}

/// The range without bounds.
pub open spec fn unbounded() -> Range {
    Range { min: None, max: None }
}

/// A boolean as a literal.
pub open spec fn bool_literal(o: Option<bool>) -> Option<LiteralModel> {
    match o {
        None => None,
        Some(b) => Some(LiteralModel::Bool(b)),
    }
}

/// An integer as a literal.
pub open spec fn int_literal(o: Option<i64>) -> Option<LiteralModel> {
    match o {
        None => None,
        Some(i) => Some(LiteralModel::Int(i)),
    }
}

/// A text as a literal.
pub open spec fn text_literal(o: Option<Seq<char>>) -> Option<LiteralModel> {
    match o {
        None => None,
        Some(t) => Some(LiteralModel::Text(t)),
    }
}

/// Integers as literals.
pub open spec fn int_literals(s: Seq<i64>) -> Seq<LiteralModel> {
    Seq::new(s.len(), |i: int| LiteralModel::Int(s[i]))
}

/// Texts as literals.
pub open spec fn text_literals(s: Seq<Seq<char>>) -> Seq<LiteralModel> {
    Seq::new(s.len(), |i: int| LiteralModel::Text(s[i]))
}

/// The integers that a leaf is held to, as literals.
pub open spec fn int_choices(o: Option<Seq<i64>>) -> Option<Seq<LiteralModel>> {
    match o {
        None => None,
        Some(s) => Some(int_literals(s)),
    }
}

/// The texts that a leaf is held to, as literals.
pub open spec fn text_choices(o: Option<Seq<Seq<char>>>) -> Option<Seq<LiteralModel>> {
    match o {
        None => None,
        Some(s) => Some(text_literals(s)),
    }
}

fn lit_bool(o: &Option<bool>) -> (r: Option<Literal>)
    ensures
        r.deep_view() == bool_literal(*o),
{
    match o {
        None => None,
        Some(b) => Some(Literal::Bool(*b)),
    }
}

fn lit_int(o: &Option<i64>) -> (r: Option<Literal>)
    ensures
        r.deep_view() == int_literal(*o),
{
    match o {
        None => None,
        Some(i) => Some(Literal::Int(*i)),
    }
}

fn lit_text(o: &Option<String>) -> (r: Option<Literal>)
    ensures
        r.deep_view() == text_literal(o.deep_view()),
{
    match o {
        None => None,
        Some(t) => Some(Literal::Text(t.clone())),
    }
}

fn lit_ints(o: &Option<Vec<i64>>) -> (r: Option<Vec<Literal>>)
    ensures
        r.deep_view() == int_choices(o.deep_view()),
{
    match o {
        None => None,
        Some(s) => {
            let ghost models = s.deep_view();
            let mut out: Vec<Literal> = Vec::new();
            let mut i: usize = 0;
            while i < s.len()
                invariant
                    i <= s.len(),
                    models == s.deep_view(),
                    models.len() == s.len(),
                    out.len() == i,
                    forall|k: int| 0 <= k < i ==> (#[trigger] out[k]).deep_view() == LiteralModel::Int(models[k]),
                decreases s.len() - i,
            {
                assert(models[i as int] == s[i as int]);
                out.push(Literal::Int(s[i]));
                i += 1;
            }
            assert(out.deep_view() =~= int_literals(models));
            Some(out)
        },
    }
}

fn lit_texts(o: &Option<Vec<String>>) -> (r: Option<Vec<Literal>>)
    ensures
        r.deep_view() == text_choices(o.deep_view()),
{
    match o {
        None => None,
        Some(s) => {
            let ghost models = s.deep_view();
            let mut out: Vec<Literal> = Vec::new();
            let mut i: usize = 0;
            while i < s.len()
                invariant
                    i <= s.len(),
                    models == s.deep_view(),
                    models.len() == s.len(),
                    out.len() == i,
                    forall|k: int| 0 <= k < i ==> (#[trigger] out[k]).deep_view() == LiteralModel::Text(models[k]),
                decreases s.len() - i,
            {
                assert(models[i as int] == s[i as int]@);
                out.push(Literal::Text(s[i].clone()));
                i += 1;
            }
            assert(out.deep_view() =~= text_literals(models));
            Some(out)
        },
    }
}

/// A boolean leaf: no bounds, its fixed value and its default.
pub open spec fn ir_boolean(b: LexBooleanModel) -> IrLeafModel {
    IrLeafModel {
        kind: LeafKind::Boolean,
        format: None,
        default: bool_literal(b.default),
        constraints: ConstraintSetModel {
            value: unbounded(),
            length: unbounded(),
            graphemes: unbounded(),
            choices: None,
            fixed: bool_literal(b.const_value),
        },
    }
}

/// An integer leaf: its minimum and maximum bound the value.
pub open spec fn ir_integer(n: LexIntegerModel) -> Result<IrLeafModel, MapError> {
    let value = Range { min: n.minimum, max: n.maximum };
    if !value.consistent() {
        Err(MapError::InvalidConstraintRange)
    } else {
        Ok(
            IrLeafModel {
                kind: LeafKind::Integer,
                format: None,
                default: int_literal(n.default),
                constraints: ConstraintSetModel {
                    value,
                    length: unbounded(),
                    graphemes: unbounded(),
                    choices: int_choices(n.enum_values),
                    fixed: int_literal(n.const_value),
                },
            },
        )
    }
}

/// A string leaf: its length bounds and grapheme bounds are two ranges.
pub open spec fn ir_string(s: LexStringModel) -> Result<IrLeafModel, MapError> {
    let length = Range { min: s.min_length, max: s.max_length };
    let graphemes = Range { min: s.min_graphemes, max: s.max_graphemes };
    if !length.consistent() || !graphemes.consistent() {
        Err(MapError::InvalidConstraintRange)
    } else {
        Ok(
            IrLeafModel {
                kind: LeafKind::String,
                format: s.format,
                default: text_literal(s.default),
                constraints: ConstraintSetModel {
                    value: unbounded(),
                    length,
                    graphemes,
                    choices: text_choices(s.enum_values),
                    fixed: text_literal(s.const_value),
                },
            },
        )
    }
}

/// A leaf of the given kind without any constraint.
pub open spec fn bare_leaf(kind: LeafKind) -> IrLeafModel {
    IrLeafModel {
        kind,
        format: None,
        default: None,
        constraints: ConstraintSetModel {
            value: unbounded(),
            length: unbounded(),
            graphemes: unbounded(),
            choices: None,
            fixed: None,
        },
    }
}

/// The leaf of a primitive, or the failure of its range.
pub open spec fn ir_primitive(p: LexPrimitiveModel) -> Result<IrLeafModel, MapError> {
    match p {
        LexPrimitiveModel::Boolean(b) => Ok(ir_boolean(b)),
        LexPrimitiveModel::Integer(n) => ir_integer(n),
        LexPrimitiveModel::String(s) => ir_string(s),
        LexPrimitiveModel::Unknown(_) => Ok(bare_leaf(LeafKind::Unknown)),
    }
}

/// A byte string leaf.
pub open spec fn ir_bytes(b: LexBytesModel) -> IrLeafModel {
    IrLeafModel {
        kind: LeafKind::Bytes,
        format: None,
        default: text_literal(b.default),
        constraints: ConstraintSetModel {
            value: unbounded(),
            length: unbounded(),
            graphemes: unbounded(),
            choices: None,
            fixed: text_literal(b.const_value),
        },
    }
}

/// The leaf of a linked-data type.
pub open spec fn ir_ipld(p: LexIpldTypeModel) -> IrLeafModel {
    match p {
        LexIpldTypeModel::Bytes(b) => ir_bytes(b),
        LexIpldTypeModel::CidLink(_) => bare_leaf(LeafKind::CidLink),
    }
}

/// A blob with what it accepts and its size limit.
pub open spec fn ir_blob(b: LexBlobModel) -> IrBlobModel {
    IrBlobModel { accept: b.accept, max_size: b.max_size }
}

fn no_range() -> (r: Range)
    ensures
        r == unbounded(),
{
    Range { min: None, max: None }
}

fn make_bare_leaf(kind: LeafKind) -> (r: IrLeaf)
    ensures
        r.deep_view() == bare_leaf(kind),
{
    IrLeaf {
        kind,
        format: None,
        default: None,
        constraints: ConstraintSet {
            value: no_range(),
            length: no_range(),
            graphemes: no_range(),
            choices: None,
            fixed: None,
        },
    }
}

/// Maps a primitive to its leaf.
pub fn map_primitive(p: &LexPrimitive) -> (r: Result<IrLeaf, MapError>)
    ensures
        mapped(r) == ir_primitive(p.deep_view()),
{
    match p {
        LexPrimitive::Boolean(b) => match b {
            LexBoolean::Boolean { description: _, default, const_value } => Ok(
                IrLeaf {
                    kind: LeafKind::Boolean,
                    format: None,
                    default: lit_bool(default),
                    constraints: ConstraintSet {
                        value: no_range(),
                        length: no_range(),
                        graphemes: no_range(),
                        choices: None,
                        fixed: lit_bool(const_value),
                    },
                },
            ),
        },
        LexPrimitive::Integer(n) => match n {
            LexInteger::Integer { description: _, default, minimum, maximum, enum_values, const_value } => {
                let value = Range { min: *minimum, max: *maximum };
                if !value.is_consistent() {
                    Err(MapError::InvalidConstraintRange)
                } else {
                    Ok(
                        IrLeaf {
                            kind: LeafKind::Integer,
                            format: None,
                            default: lit_int(default),
                            constraints: ConstraintSet {
                                value,
                                length: no_range(),
                                graphemes: no_range(),
                                choices: lit_ints(enum_values),
                                fixed: lit_int(const_value),
                            },
                        },
                    )
                }
            },
        },
        LexPrimitive::String(s) => match s {
            LexString::String {
                format,
                description: _,
                default,
                min_length,
                max_length,
                min_graphemes,
                max_graphemes,
                enum_values,
                const_value,
                known_values: _,
            } => {
                let length = Range { min: *min_length, max: *max_length };
                let graphemes = Range { min: *min_graphemes, max: *max_graphemes };
                if !length.is_consistent() || !graphemes.is_consistent() {
                    Err(MapError::InvalidConstraintRange)
                } else {
                    Ok(
                        IrLeaf {
                            kind: LeafKind::String,
                            format: *format,
                            default: lit_text(default),
                            constraints: ConstraintSet {
                                value: no_range(),
                                length,
                                graphemes,
                                choices: lit_texts(enum_values),
                                fixed: lit_text(const_value),
                            },
                        },
                    )
                }
            },
        },
        LexPrimitive::Unknown(_) => Ok(make_bare_leaf(LeafKind::Unknown)),
    }
}

/// Maps a linked-data type to its leaf.
pub fn map_ipld(p: &LexIpldType) -> (r: IrLeaf)
    ensures
        r.deep_view() == ir_ipld(p.deep_view()),
{
    match p {
        LexIpldType::Bytes(b) => match b {
            LexBytes::Bytes { description: _, default, const_value } => IrLeaf {
                kind: LeafKind::Bytes,
                format: None,
                default: lit_text(default),
                constraints: ConstraintSet {
                    value: no_range(),
                    length: no_range(),
                    graphemes: no_range(),
                    choices: None,
                    fixed: lit_text(const_value),
                },
            },
        },
        LexIpldType::CidLink(_) => make_bare_leaf(LeafKind::CidLink),
    }
}

/// Maps a blob.
pub fn map_blob(b: &LexBlob) -> (r: IrBlob)
    ensures
        r.deep_view() == ir_blob(b.deep_view()),
{
    match b {
        LexBlob::Blob { description: _, accept, max_size } => IrBlob { accept: accept.clone(), max_size: *max_size },
    }
}

/// The node that a reference held in document `d` resolves to.
pub open spec fn ir_target(docs: Seq<LexiconDocModel>, d: int, target: Seq<char>) -> Result<NodeModel, MapError> {
    match resolve_target(docs, d, target) {
        Ok(node) => Ok(node),
        Err(_) => Err(MapError::UnresolvedRef),
    }
}

/// Resolves a reference held in document `d` to its node.
pub fn map_target(docs: &Vec<LexiconDoc>, d: usize, target: &str) -> (r: Result<NodeId, MapError>)
    requires
        d < docs.len(),
    ensures
        mapped(r) == ir_target(docs.deep_view(), d as int, target@),
{
    match resolve_use(docs, d, target) {
        Ok(node) => Ok(node),
        Err(_) => Err(MapError::UnresolvedRef),
    }
}

/// The nodes of the first `n` members of a union, or the first failure.
pub open spec fn ir_members(docs: Seq<LexiconDocModel>, d: int, refs: Seq<Seq<char>>, n: int) -> Result<
    Seq<NodeModel>,
    MapError,
>
    decreases n,
{
    if n <= 0 {
        Ok(Seq::empty())
    } else {
        match ir_members(docs, d, refs, n - 1) {
            Err(e) => Err(e),
            Ok(before) => match ir_target(docs, d, refs[n - 1]) {
                Err(e) => Err(e),
                Ok(node) => Ok(before.push(node)),
            },
        }
    }
}

/// A failure among the first members is the failure of the union.
pub proof fn lemma_ir_members_stays(docs: Seq<LexiconDocModel>, d: int, refs: Seq<Seq<char>>, m: int, n: int)
    requires
        m <= n,
        ir_members(docs, d, refs, m) is Err,
    ensures
        ir_members(docs, d, refs, n) == ir_members(docs, d, refs, m),
    decreases n,
{
    if m < n {
        lemma_ir_members_stays(docs, d, refs, m, n - 1);
    }
}

/// Whether a union is closed: only where it says so.
pub open spec fn is_closed(closed: Option<bool>) -> bool {
    match closed {
        Some(c) => c,
        None => false,
    }
}

/// A union: its members resolved in order, and whether it is closed.
pub open spec fn ir_union(docs: Seq<LexiconDocModel>, d: int, u: LexRefUnionModel) -> Result<IrUnionModel, MapError> {
    match ir_members(docs, d, u.refs, u.refs.len() as int) {
        Err(e) => Err(e),
        Ok(members) => Ok(IrUnionModel { members, closed: is_closed(u.closed) }),
    }
}

/// Maps a union.
pub fn map_union(docs: &Vec<LexiconDoc>, d: usize, u: &LexRefUnion) -> (r: Result<IrUnion, MapError>)
    requires
        d < docs.len(),
    ensures
        mapped(r) == ir_union(docs.deep_view(), d as int, u.deep_view()),
{
    let ghost models = docs.deep_view();
    match u {
        LexRefUnion::Union { description: _, refs, closed } => {
            let ghost targets = refs.deep_view();
            let mut members: Vec<NodeId> = Vec::new();
            assert(members.deep_view() =~= Seq::empty());
            let mut i: usize = 0;
            while i < refs.len()
                invariant
                    i <= refs.len(),
                    d < docs.len(),
                    models == docs.deep_view(),
                    targets == refs.deep_view(),
                    targets.len() == refs.len(),
                    u.deep_view().refs == targets,
                    ir_members(models, d as int, targets, i as int) == Ok::<Seq<NodeModel>, MapError>(
                        members.deep_view(),
                    ),
                decreases refs.len() - i,
            {
                assert(targets[i as int] == refs[i as int]@);
                match map_target(docs, d, refs[i].as_str()) {
                    Err(e) => {
                        proof {
                            assert(ir_members(models, d as int, targets, i + 1) is Err);
                            lemma_ir_members_stays(models, d as int, targets, i + 1, targets.len() as int);
                        }
                        return Err(e);
                    },
                    Ok(node) => {
                        let ghost before = members.deep_view();
                        members.push(node);
                        assert(members.deep_view() =~= before.push(node.deep_view()));
                    },
                }
                i += 1;
            }
            let c = match closed {
                Some(c) => *c,
                None => false,
            };
            Ok(IrUnion { members, closed: c })
        },
    }
}

/// A single pointer becomes a reference to its node; a union becomes a
/// union node with its members in order.
pub open spec fn ir_ref_variant(docs: Seq<LexiconDocModel>, d: int, v: LexRefVariantModel) -> Result<
    IrItemModel,
    MapError,
> {
    match v {
        LexRefVariantModel::Ref(r) => match ir_target(docs, d, r.reference) {
            Err(e) => Err(e),
            Ok(node) => Ok(IrItemModel::Ref(node)),
        },
        LexRefVariantModel::RefUnion(u) => match ir_union(docs, d, u) {
            Err(e) => Err(e),
            Ok(union) => Ok(IrItemModel::Union(union)),
        },
    }
}

/// Maps a pointer or a union of pointers.
pub fn map_ref_variant(docs: &Vec<LexiconDoc>, d: usize, v: &LexRefVariant) -> (r: Result<IrItem, MapError>)
    requires
        d < docs.len(),
    ensures
        mapped(r) == ir_ref_variant(docs.deep_view(), d as int, v.deep_view()),
{
    match v {
        LexRefVariant::Ref(r) => match r {
            LexRef::Ref { description: _, reference } => match map_target(docs, d, reference.as_str()) {
                Err(e) => Err(e),
                Ok(node) => Ok(IrItem::Ref(node)),
            },
        },
        LexRefVariant::RefUnion(u) => match map_union(docs, d, u) {
            Err(e) => Err(e),
            Ok(union) => Ok(IrItem::Union(union)),
        },
    }
}

/// The item of an array.
pub open spec fn ir_items(docs: Seq<LexiconDocModel>, d: int, items: LexItemsModel) -> Result<IrItemModel, MapError> {
    match items {
        LexItemsModel::Primitive(p) => match ir_primitive(p) {
            Err(e) => Err(e),
            Ok(leaf) => Ok(IrItemModel::Leaf(leaf)),
        },
        LexItemsModel::IpldType(p) => Ok(IrItemModel::Leaf(ir_ipld(p))),
        LexItemsModel::Blob(b) => Ok(IrItemModel::Blob(ir_blob(b))),
        LexItemsModel::RefVariant(v) => ir_ref_variant(docs, d, v),
    }
}

/// Maps the item type of an array.
pub fn map_items(docs: &Vec<LexiconDoc>, d: usize, items: &LexItems) -> (r: Result<IrItem, MapError>)
    requires
        d < docs.len(),
    ensures
        mapped(r) == ir_items(docs.deep_view(), d as int, items.deep_view()),
{
    match items {
        LexItems::Primitive(p) => match map_primitive(p) {
            Err(e) => Err(e),
            Ok(leaf) => Ok(IrItem::Leaf(leaf)),
        },
        LexItems::IpldType(p) => Ok(IrItem::Leaf(map_ipld(p))),
        LexItems::Blob(b) => Ok(IrItem::Blob(map_blob(b))),
        LexItems::RefVariant(v) => map_ref_variant(docs, d, v),
    }
}

/// An array: its item, then its length bounds, which must be consistent.
pub open spec fn ir_array(docs: Seq<LexiconDocModel>, d: int, a: LexArrayModel) -> Result<IrArrayModel, MapError> {
    let length = Range { min: a.min_length, max: a.max_length };
    match ir_items(docs, d, a.items) {
        Err(e) => Err(e),
        Ok(item) => if !length.consistent() {
            Err(MapError::InvalidConstraintRange)
        } else {
            Ok(IrArrayModel { item, length })
        },
    }
}

/// Maps an array.
pub fn map_array(docs: &Vec<LexiconDoc>, d: usize, a: &LexArray) -> (r: Result<IrArray, MapError>)
    requires
        d < docs.len(),
    ensures
        mapped(r) == ir_array(docs.deep_view(), d as int, a.deep_view()),
{
    match a {
        LexArray::Array { description: _, items, min_length, max_length } => {
            let length = Range { min: *min_length, max: *max_length };
            match map_items(docs, d, items) {
                Err(e) => Err(e),
                Ok(item) => if !length.is_consistent() {
                    Err(MapError::InvalidConstraintRange)
                } else {
                    Ok(IrArray { item, length })
                },
            }
        },
    }
}

/// An array of primitives: its item, then its length bounds.
pub open spec fn ir_primitive_array(a: LexPrimitiveArrayModel) -> Result<IrArrayModel, MapError> {
    let length = Range { min: a.min_length, max: a.max_length };
    match ir_primitive(a.items) {
        Err(e) => Err(e),
        Ok(leaf) => if !length.consistent() {
            Err(MapError::InvalidConstraintRange)
        } else {
            Ok(IrArrayModel { item: IrItemModel::Leaf(leaf), length })
        },
    }
}

/// Maps an array of primitives.
pub fn map_primitive_array(a: &LexPrimitiveArray) -> (r: Result<IrArray, MapError>)
    ensures
        mapped(r) == ir_primitive_array(a.deep_view()),
{
    match a {
        LexPrimitiveArray::Array { description: _, items, min_length, max_length } => {
            let length = Range { min: *min_length, max: *max_length };
            match map_primitive(items) {
                Err(e) => Err(e),
                Ok(leaf) => if !length.is_consistent() {
                    Err(MapError::InvalidConstraintRange)
                } else {
                    Ok(IrArray { item: IrItem::Leaf(leaf), length })
                },
            }
        },
    }
}

/// The type of a property.
pub open spec fn ir_property(docs: Seq<LexiconDocModel>, d: int, p: LexPropertyModel) -> Result<IrTypeModel, MapError> {
    match p {
        LexPropertyModel::RefVariant(v) => match ir_ref_variant(docs, d, v) {
            Err(e) => Err(e),
            Ok(item) => Ok(IrTypeModel::Item(item)),
        },
        LexPropertyModel::IpldType(t) => Ok(IrTypeModel::Item(IrItemModel::Leaf(ir_ipld(t)))),
        LexPropertyModel::Array(a) => match ir_array(docs, d, a) {
            Err(e) => Err(e),
            Ok(array) => Ok(IrTypeModel::Array(array)),
        },
        LexPropertyModel::Blob(b) => Ok(IrTypeModel::Item(IrItemModel::Blob(ir_blob(b)))),
        LexPropertyModel::Primitive(t) => match ir_primitive(t) {
            Err(e) => Err(e),
            Ok(leaf) => Ok(IrTypeModel::Item(IrItemModel::Leaf(leaf))),
        },
    }
}

/// Maps a property to its type.
pub fn map_property(docs: &Vec<LexiconDoc>, d: usize, p: &LexProperty) -> (r: Result<IrType, MapError>)
    requires
        d < docs.len(),
    ensures
        mapped(r) == ir_property(docs.deep_view(), d as int, p.deep_view()),
{
    match p {
        LexProperty::RefVariant(v) => match map_ref_variant(docs, d, v) {
            Err(e) => Err(e),
            Ok(item) => Ok(IrType::Item(item)),
        },
        LexProperty::IpldType(t) => Ok(IrType::Item(IrItem::Leaf(map_ipld(t)))),
        LexProperty::Array(a) => match map_array(docs, d, a) {
            Err(e) => Err(e),
            Ok(array) => Ok(IrType::Array(array)),
        },
        LexProperty::Blob(b) => Ok(IrType::Item(IrItem::Blob(map_blob(b)))),
        LexProperty::Primitive(t) => match map_primitive(t) {
            Err(e) => Err(e),
            Ok(leaf) => Ok(IrType::Item(IrItem::Leaf(leaf))),
        },
    }
}

/// The fields of the first `n` properties of an object, or the first
/// failure among them.
pub open spec fn ir_fields(
    docs: Seq<LexiconDocModel>,
    d: int,
    props: Seq<NamedModel<LexPropertyModel>>,
    required: Option<Seq<Seq<char>>>,
    nullable: Option<Seq<Seq<char>>>,
    n: int,
) -> Result<Seq<IrFieldModel>, MapError>
    decreases n,
{
    if n <= 0 {
        Ok(Seq::empty())
    } else {
        match ir_fields(docs, d, props, required, nullable, n - 1) {
            Err(e) => Err(e),
            Ok(before) => match ir_property(docs, d, props[n - 1].value) {
                Err(e) => Err(e),
                Ok(ty) => Ok(
                    before.push(
                        IrFieldModel {
                            name: props[n - 1].name,
                            presence: presence_of(required, nullable, props[n - 1].name),
                            ty,
                        },
                    ),
                ),
            },
        }
    }
}

/// A failure among the first properties is the failure of the object.
pub proof fn lemma_ir_fields_stays(
    docs: Seq<LexiconDocModel>,
    d: int,
    props: Seq<NamedModel<LexPropertyModel>>,
    required: Option<Seq<Seq<char>>>,
    nullable: Option<Seq<Seq<char>>>,
    m: int,
    n: int,
)
    requires
        m <= n,
        ir_fields(docs, d, props, required, nullable, m) is Err,
    ensures
        ir_fields(docs, d, props, required, nullable, n) == ir_fields(docs, d, props, required, nullable, m),
    decreases n,
{
    if m < n {
        lemma_ir_fields_stays(docs, d, props, required, nullable, m, n - 1);
    }
}

/// The fields of an object, one for each property, in order.
pub open spec fn ir_object(docs: Seq<LexiconDocModel>, d: int, o: LexObjectModel) -> Result<Seq<IrFieldModel>, MapError> {
    match o.properties {
        None => Ok(Seq::empty()),
        Some(props) => ir_fields(docs, d, props, o.required, o.nullable, props.len() as int),
    }
}

/// Maps an object to its fields.
pub fn map_object(docs: &Vec<LexiconDoc>, d: usize, o: &LexObject) -> (r: Result<Vec<IrField>, MapError>)
    requires
        d < docs.len(),
    ensures
        mapped(r) == ir_object(docs.deep_view(), d as int, o.deep_view()),
{
    let ghost models = docs.deep_view();
    match o {
        LexObject::Object { description: _, required, nullable, properties } => {
            let mut out: Vec<IrField> = Vec::new();
            assert(out.deep_view() =~= Seq::empty());
            match properties {
                None => Ok(out),
                Some(props) => {
                    let ghost pm = props.deep_view();
                    let ghost req = required.deep_view();
                    let ghost nul = nullable.deep_view();
                    let mut i: usize = 0;
                    while i < props.len()
                        invariant
                            i <= props.len(),
                            d < docs.len(),
                            models == docs.deep_view(),
                            pm == props.deep_view(),
                            pm.len() == props.len(),
                            req == required.deep_view(),
                            nul == nullable.deep_view(),
                            o.deep_view().properties == Some(pm),
                            o.deep_view().required == req,
                            o.deep_view().nullable == nul,
                            ir_fields(models, d as int, pm, req, nul, i as int) == Ok::<
                                Seq<IrFieldModel>,
                                MapError,
                            >(out.deep_view()),
                        decreases props.len() - i,
                    {
                        assert(pm[i as int] == props[i as int].deep_view());
                        match map_property(docs, d, &props[i].value) {
                            Err(e) => {
                                proof {
                                    assert(ir_fields(models, d as int, pm, req, nul, i + 1) is Err);
                                    lemma_ir_fields_stays(models, d as int, pm, req, nul, i + 1, pm.len() as int);
                                }
                                return Err(e);
                            },
                            Ok(ty) => {
                                let ghost before = out.deep_view();
                                let field = IrField {
                                    name: props[i].name.clone(),
                                    presence: classify_presence(required, nullable, props[i].name.as_str()),
                                    ty,
                                };
                                let ghost fm = field.deep_view();
                                out.push(field);
                                assert(out.deep_view() =~= before.push(fm));
                            },
                        }
                        i += 1;
                    }
                    Ok(out)
                },
            }
        },
    }
}

/// The type of a parameter.
pub open spec fn ir_parameter(p: LexXrpcParameterModel) -> Result<IrTypeModel, MapError> {
    match p {
        LexXrpcParameterModel::Primitive(t) => match ir_primitive(t) {
            Err(e) => Err(e),
            Ok(leaf) => Ok(IrTypeModel::Item(IrItemModel::Leaf(leaf))),
        },
        LexXrpcParameterModel::PrimitiveArray(a) => match ir_primitive_array(a) {
            Err(e) => Err(e),
            Ok(array) => Ok(IrTypeModel::Array(array)),
        },
    }
}

/// Maps a parameter to its type.
pub fn map_parameter(p: &LexXrpcParameter) -> (r: Result<IrType, MapError>)
    ensures
        mapped(r) == ir_parameter(p.deep_view()),
{
    match p {
        LexXrpcParameter::Primitive(t) => match map_primitive(t) {
            Err(e) => Err(e),
            Ok(leaf) => Ok(IrType::Item(IrItem::Leaf(leaf))),
        },
        LexXrpcParameter::PrimitiveArray(a) => match map_primitive_array(a) {
            Err(e) => Err(e),
            Ok(array) => Ok(IrType::Array(array)),
        },
    }
}

/// The fields of the first `n` parameters, or the first failure among
/// them. A parameter is never null: it is mandatory or optional.
pub open spec fn ir_params(
    props: Seq<NamedModel<LexXrpcParameterModel>>,
    required: Option<Seq<Seq<char>>>,
    n: int,
) -> Result<Seq<IrFieldModel>, MapError>
    decreases n,
{
    if n <= 0 {
        Ok(Seq::empty())
    } else {
        match ir_params(props, required, n - 1) {
            Err(e) => Err(e),
            Ok(before) => match ir_parameter(props[n - 1].value) {
                Err(e) => Err(e),
                Ok(ty) => Ok(
                    before.push(
                        IrFieldModel {
                            name: props[n - 1].name,
                            presence: presence_of(required, None, props[n - 1].name),
                            ty,
                        },
                    ),
                ),
            },
        }
    }
}

/// A failure among the first parameters is the failure of all.
pub proof fn lemma_ir_params_stays(
    props: Seq<NamedModel<LexXrpcParameterModel>>,
    required: Option<Seq<Seq<char>>>,
    m: int,
    n: int,
)
    requires
        m <= n,
        ir_params(props, required, m) is Err,
    ensures
        ir_params(props, required, n) == ir_params(props, required, m),
    decreases n,
{
    if m < n {
        lemma_ir_params_stays(props, required, m, n - 1);
    }
}

/// The fields of the parameters of a method; none where it has no parameters.
pub open spec fn ir_parameters(p: Option<LexXrpcParametersModel>) -> Result<Seq<IrFieldModel>, MapError> {
    match p {
        None => Ok(Seq::empty()),
        Some(params) => ir_params(params.properties, params.required, params.properties.len() as int),
    }
}

/// Maps the parameters of a method to fields.
pub fn map_parameters(p: &Option<LexXrpcParameters>) -> (r: Result<Vec<IrField>, MapError>)
    ensures
        mapped(r) == ir_parameters(p.deep_view()),
{
    let mut out: Vec<IrField> = Vec::new();
    assert(out.deep_view() =~= Seq::empty());
    match p {
        None => Ok(out),
        Some(params) => match params {
            LexXrpcParameters::Params { description: _, required, properties } => {
                let ghost pm = properties.deep_view();
                let ghost req = required.deep_view();
                let none: Option<Vec<String>> = None;
                let mut i: usize = 0;
                while i < properties.len()
                    invariant
                        i <= properties.len(),
                        pm == properties.deep_view(),
                        pm.len() == properties.len(),
                        req == required.deep_view(),
                        none.deep_view() == None::<Seq<Seq<char>>>,
                        p.deep_view() == Some(params.deep_view()),
                        params.deep_view().properties == pm,
                        params.deep_view().required == req,
                        ir_params(pm, req, i as int) == Ok::<Seq<IrFieldModel>, MapError>(out.deep_view()),
                    decreases properties.len() - i,
                {
                    assert(pm[i as int] == properties[i as int].deep_view());
                    match map_parameter(&properties[i].value) {
                        Err(e) => {
                            proof {
                                assert(ir_params(pm, req, i + 1) is Err);
                                lemma_ir_params_stays(pm, req, i + 1, pm.len() as int);
                            }
                            return Err(e);
                        },
                        Ok(ty) => {
                            let ghost before = out.deep_view();
                            let field = IrField {
                                name: properties[i].name.clone(),
                                presence: classify_presence(required, &none, properties[i].name.as_str()),
                                ty,
                            };
                            let ghost fm = field.deep_view();
                            out.push(field);
                            assert(out.deep_view() =~= before.push(fm));
                        },
                    }
                    i += 1;
                }
                Ok(out)
            },
        },
    }
}

/// A schema that is a pointer or a union, as a schema of the intermediate
/// form.
pub open spec fn schema_of_item(item: IrItemModel) -> IrSchemaModel {
    match item {
        IrItemModel::Ref(node) => IrSchemaModel::Ref(node),
        IrItemModel::Union(u) => IrSchemaModel::Union(u),
        _ => IrSchemaModel::Object(Seq::empty()),
    }
}

/// A schema that is a pointer or a union.
pub open spec fn ir_variant_schema(docs: Seq<LexiconDocModel>, d: int, v: LexRefVariantModel) -> Result<
    IrSchemaModel,
    MapError,
> {
    match ir_ref_variant(docs, d, v) {
        Err(e) => Err(e),
        Ok(item) => Ok(schema_of_item(item)),
    }
}

/// Maps a schema that is a pointer or a union.
pub fn map_variant_schema(docs: &Vec<LexiconDoc>, d: usize, v: &LexRefVariant) -> (r: Result<IrSchema, MapError>)
    requires
        d < docs.len(),
    ensures
        mapped(r) == ir_variant_schema(docs.deep_view(), d as int, v.deep_view()),
{
    match map_ref_variant(docs, d, v) {
        Err(e) => Err(e),
        Ok(item) => match item {
            IrItem::Ref(node) => Ok(IrSchema::Ref(node)),
            IrItem::Union(u) => Ok(IrSchema::Union(u)),
            _ => {
                let fields: Vec<IrField> = Vec::new();
                assert(fields.deep_view() =~= Seq::empty());
                Ok(IrSchema::Object(fields))
            },
        },
    }
}

/// The schema of a body.
pub open spec fn ir_body_schema(docs: Seq<LexiconDocModel>, d: int, s: LexXrpcBodySchemaModel) -> Result<
    IrSchemaModel,
    MapError,
> {
    match s {
        LexXrpcBodySchemaModel::RefVariant(v) => ir_variant_schema(docs, d, v),
        LexXrpcBodySchemaModel::Object(o) => match ir_object(docs, d, o) {
            Err(e) => Err(e),
            Ok(fields) => Ok(IrSchemaModel::Object(fields)),
        },
    }
}

/// The schema of a message.
pub open spec fn ir_message_schema(
    docs: Seq<LexiconDocModel>,
    d: int,
    s: LexXrpcSubscriptionMessageSchemaModel,
) -> Result<IrSchemaModel, MapError> {
    match s {
        LexXrpcSubscriptionMessageSchemaModel::RefVariant(v) => ir_variant_schema(docs, d, v),
        LexXrpcSubscriptionMessageSchemaModel::Object(o) => match ir_object(docs, d, o) {
            Err(e) => Err(e),
            Ok(fields) => Ok(IrSchemaModel::Object(fields)),
        },
    }
}

/// A body with its encoding and schema, if the method has one.
pub open spec fn ir_body(docs: Seq<LexiconDocModel>, d: int, b: Option<LexXrpcBodyModel>) -> Result<
    Option<IrBodyModel>,
    MapError,
> {
    match b {
        None => Ok(None),
        Some(body) => match body.schema {
            None => Ok(Some(IrBodyModel { encoding: body.encoding, schema: None })),
            Some(s) => match ir_body_schema(docs, d, s) {
                Err(e) => Err(e),
                Ok(schema) => Ok(Some(IrBodyModel { encoding: body.encoding, schema: Some(schema) })),
            },
        },
    }
}

/// Maps a body.
pub fn map_body(docs: &Vec<LexiconDoc>, d: usize, b: &Option<LexXrpcBody>) -> (r: Result<Option<IrBody>, MapError>)
    requires
        d < docs.len(),
    ensures
        mapped(r) == ir_body(docs.deep_view(), d as int, b.deep_view()),
{
    match b {
        None => Ok(None),
        Some(body) => match &body.schema {
            None => Ok(Some(IrBody { encoding: body.encoding.clone(), schema: None })),
            Some(s) => {
                let schema = match s {
                    LexXrpcBodySchema::RefVariant(v) => map_variant_schema(docs, d, v),
                    LexXrpcBodySchema::Object(o) => match map_object(docs, d, o) {
                        Err(e) => Err(e),
                        Ok(fields) => Ok(IrSchema::Object(fields)),
                    },
                };
                match schema {
                    Err(e) => Err(e),
                    Ok(schema) => Ok(Some(IrBody { encoding: body.encoding.clone(), schema: Some(schema) })),
                }
            },
        },
    }
}

/// The schema of the message of a subscription, if it has one.
pub open spec fn ir_message(
    docs: Seq<LexiconDocModel>,
    d: int,
    m: Option<LexXrpcSubscriptionMessageModel>,
) -> Result<Option<IrSchemaModel>, MapError> {
    match m {
        None => Ok(None),
        Some(message) => match message.schema {
            None => Ok(None),
            Some(s) => match ir_message_schema(docs, d, s) {
                Err(e) => Err(e),
                Ok(schema) => Ok(Some(schema)),
            },
        },
    }
}

/// Maps the message of a subscription.
pub fn map_message(docs: &Vec<LexiconDoc>, d: usize, m: &Option<LexXrpcSubscriptionMessage>) -> (r: Result<
    Option<IrSchema>,
    MapError,
>)
    requires
        d < docs.len(),
    ensures
        mapped(r) == ir_message(docs.deep_view(), d as int, m.deep_view()),
{
    match m {
        None => Ok(None),
        Some(message) => match &message.schema {
            None => Ok(None),
            Some(s) => {
                let schema = match s {
                    LexXrpcSubscriptionMessageSchema::RefVariant(v) => map_variant_schema(docs, d, v),
                    LexXrpcSubscriptionMessageSchema::Object(o) => match map_object(docs, d, o) {
                        Err(e) => Err(e),
                        Ok(fields) => Ok(IrSchema::Object(fields)),
                    },
                };
                match schema {
                    Err(e) => Err(e),
                    Ok(schema) => Ok(Some(schema)),
                }
            },
        },
    }
}

/// The names of the errors or infos of a method, in order.
pub open spec fn names_of(errors: Seq<LexXrpcErrorModel>) -> Seq<Seq<char>> {
    Seq::new(errors.len(), |i: int| errors[i].name)
}

/// The names of the errors or infos of a method; none where it has none.
pub open spec fn error_names(errors: Option<Seq<LexXrpcErrorModel>>) -> Seq<Seq<char>> {
    match errors {
        None => Seq::empty(),
        Some(es) => names_of(es),
    }
}

/// The names of the errors or infos of a method.
pub fn map_error_names(errors: &Option<Vec<LexXrpcError>>) -> (r: Vec<String>)
    ensures
        r.deep_view() == error_names(errors.deep_view()),
{
    let mut out: Vec<String> = Vec::new();
    match errors {
        None => {
            assert(out.deep_view() =~= Seq::empty());
        },
        Some(es) => {
            let ghost models = es.deep_view();
            let mut i: usize = 0;
            while i < es.len()
                invariant
                    i <= es.len(),
                    models == es.deep_view(),
                    models.len() == es.len(),
                    out.len() == i,
                    forall|k: int| 0 <= k < i ==> (#[trigger] out[k])@ == models[k].name,
                decreases es.len() - i,
            {
                assert(models[i as int] == es[i as int].deep_view());
                out.push(es[i].name.clone());
                i += 1;
            }
            assert(out.deep_view() =~= names_of(models));
        },
    }
    out
}

/// A query: its parameters, output and errors.
pub open spec fn ir_query(docs: Seq<LexiconDocModel>, d: int, q: LexXrpcQueryModel) -> Result<IrMethodModel, MapError> {
    match ir_parameters(q.parameters) {
        Err(e) => Err(e),
        Ok(parameters) => match ir_body(docs, d, q.output) {
            Err(e) => Err(e),
            Ok(output) => Ok(
                IrMethodModel {
                    parameters,
                    input: None,
                    output,
                    message: None,
                    infos: Seq::empty(),
                    errors: error_names(q.errors),
                },
            ),
        },
    }
}

/// A procedure: its parameters, input, output and errors.
pub open spec fn ir_procedure(docs: Seq<LexiconDocModel>, d: int, p: LexXrpcProcedureModel) -> Result<
    IrMethodModel,
    MapError,
> {
    match ir_parameters(p.parameters) {
        Err(e) => Err(e),
        Ok(parameters) => match ir_body(docs, d, p.input) {
            Err(e) => Err(e),
            Ok(input) => match ir_body(docs, d, p.output) {
                Err(e) => Err(e),
                Ok(output) => Ok(
                    IrMethodModel {
                        parameters,
                        input,
                        output,
                        message: None,
                        infos: Seq::empty(),
                        errors: error_names(p.errors),
                    },
                ),
            },
        },
    }
}

/// A subscription: its parameters, message, infos and errors.
pub open spec fn ir_subscription(docs: Seq<LexiconDocModel>, d: int, s: LexXrpcSubscriptionModel) -> Result<
    IrMethodModel,
    MapError,
> {
    match ir_parameters(s.parameters) {
        Err(e) => Err(e),
        Ok(parameters) => match ir_message(docs, d, s.message) {
            Err(e) => Err(e),
            Ok(message) => Ok(
                IrMethodModel {
                    parameters,
                    input: None,
                    output: None,
                    message,
                    infos: error_names(s.infos),
                    errors: error_names(s.errors),
                },
            ),
        },
    }
}

/// A record: its key strategy and the fields of its object.
pub open spec fn ir_record(docs: Seq<LexiconDocModel>, d: int, r: LexRecordModel) -> Result<IrRecordModel, MapError> {
    match ir_object(docs, d, r.record) {
        Err(e) => Err(e),
        Ok(fields) => Ok(IrRecordModel { key: r.key, fields }),
    }
}

/// The intermediate form of a definition held in document `d`.
pub open spec fn ir_node(docs: Seq<LexiconDocModel>, d: int, def: LexUserTypeModel) -> Result<IrNodeModel, MapError> {
    match def {
        LexUserTypeModel::Record(r) => match ir_record(docs, d, r) {
            Err(e) => Err(e),
            Ok(record) => Ok(IrNodeModel::Record(record)),
        },
        LexUserTypeModel::XrpcQuery(q) => match ir_query(docs, d, q) {
            Err(e) => Err(e),
            Ok(m) => Ok(IrNodeModel::Query(m)),
        },
        LexUserTypeModel::XrpcProcedure(p) => match ir_procedure(docs, d, p) {
            Err(e) => Err(e),
            Ok(m) => Ok(IrNodeModel::Procedure(m)),
        },
        LexUserTypeModel::XrpcSubscription(s) => match ir_subscription(docs, d, s) {
            Err(e) => Err(e),
            Ok(m) => Ok(IrNodeModel::Subscription(m)),
        },
        LexUserTypeModel::Blob(b) => Ok(IrNodeModel::Blob(ir_blob(b))),
        LexUserTypeModel::Array(a) => match ir_array(docs, d, a) {
            Err(e) => Err(e),
            Ok(array) => Ok(IrNodeModel::Array(array)),
        },
        LexUserTypeModel::Token(_) => Ok(IrNodeModel::Token),
        LexUserTypeModel::Object(o) => match ir_object(docs, d, o) {
            Err(e) => Err(e),
            Ok(fields) => Ok(IrNodeModel::Object(fields)),
        },
        LexUserTypeModel::Boolean(p) => ir_leaf_node(p),
        LexUserTypeModel::Integer(p) => ir_leaf_node(p),
        LexUserTypeModel::String(p) => ir_leaf_node(p),
        LexUserTypeModel::Bytes(p) => Ok(IrNodeModel::Leaf(ir_ipld(p))),
        LexUserTypeModel::CidLink(p) => Ok(IrNodeModel::Leaf(ir_ipld(p))),
        LexUserTypeModel::Unknown(p) => ir_leaf_node(p),
    }
}

/// A definition that is a primitive.
pub open spec fn ir_leaf_node(p: LexPrimitiveModel) -> Result<IrNodeModel, MapError> {
    match ir_primitive(p) {
        Err(e) => Err(e),
        Ok(leaf) => Ok(IrNodeModel::Leaf(leaf)),
    }
}

fn map_leaf_node(p: &LexPrimitive) -> (r: Result<IrNode, MapError>)
    ensures
        mapped(r) == ir_leaf_node(p.deep_view()),
{
    match map_primitive(p) {
        Err(e) => Err(e),
        Ok(leaf) => Ok(IrNode::Leaf(leaf)),
    }
}

fn map_method(docs: &Vec<LexiconDoc>, d: usize, def: &LexUserType) -> (r: Result<IrNode, MapError>)
    requires
        d < docs.len(),
        def is XrpcQuery || def is XrpcProcedure || def is XrpcSubscription,
    ensures
        mapped(r) == ir_node(docs.deep_view(), d as int, def.deep_view()),
{
    match def {
        LexUserType::XrpcQuery(q) => match q {
            LexXrpcQuery::Query { description: _, parameters, output, errors } => {
                let parameters = match map_parameters(parameters) {
                    Err(e) => {
                        return Err(e);
                    },
                    Ok(v) => v,
                };
                let output = match map_body(docs, d, output) {
                    Err(e) => {
                        return Err(e);
                    },
                    Ok(v) => v,
                };
                let infos: Vec<String> = Vec::new();
                assert(infos.deep_view() =~= Seq::empty());
                Ok(
                    IrNode::Query(
                        IrMethod {
                            parameters,
                            input: None,
                            output,
                            message: None,
                            infos,
                            errors: map_error_names(errors),
                        },
                    ),
                )
            },
        },
        LexUserType::XrpcProcedure(p) => match p {
            LexXrpcProcedure::Procedure { description: _, parameters, input, output, errors } => {
                let parameters = match map_parameters(parameters) {
                    Err(e) => {
                        return Err(e);
                    },
                    Ok(v) => v,
                };
                let input = match map_body(docs, d, input) {
                    Err(e) => {
                        return Err(e);
                    },
                    Ok(v) => v,
                };
                let output = match map_body(docs, d, output) {
                    Err(e) => {
                        return Err(e);
                    },
                    Ok(v) => v,
                };
                let infos: Vec<String> = Vec::new();
                assert(infos.deep_view() =~= Seq::empty());
                Ok(
                    IrNode::Procedure(
                        IrMethod {
                            parameters,
                            input,
                            output,
                            message: None,
                            infos,
                            errors: map_error_names(errors),
                        },
                    ),
                )
            },
        },
        LexUserType::XrpcSubscription(s) => match s {
            LexXrpcSubscription::Subscription { description: _, parameters, message, infos, errors } => {
                let parameters = match map_parameters(parameters) {
                    Err(e) => {
                        return Err(e);
                    },
                    Ok(v) => v,
                };
                let message = match map_message(docs, d, message) {
                    Err(e) => {
                        return Err(e);
                    },
                    Ok(v) => v,
                };
                Ok(
                    IrNode::Subscription(
                        IrMethod {
                            parameters,
                            input: None,
                            output: None,
                            message,
                            infos: map_error_names(infos),
                            errors: map_error_names(errors),
                        },
                    ),
                )
            },
        },
        _ => Ok(IrNode::Token),
    }
}

/// Maps one definition held in document `d` to its intermediate form.
pub fn map_def(docs: &Vec<LexiconDoc>, d: usize, def: &LexUserType) -> (r: Result<IrNode, MapError>)
    requires
        d < docs.len(),
    ensures
        mapped(r) == ir_node(docs.deep_view(), d as int, def.deep_view()),
{
    match def {
        LexUserType::Record(r) => match r {
            LexRecord::Record { description: _, key, record } => match map_object(docs, d, record) {
                Err(e) => Err(e),
                Ok(fields) => Ok(IrNode::Record(IrRecord { key: key.clone(), fields })),
            },
        },
        LexUserType::XrpcQuery(_) => map_method(docs, d, def),
        LexUserType::XrpcProcedure(_) => map_method(docs, d, def),
        LexUserType::XrpcSubscription(_) => map_method(docs, d, def),
        LexUserType::Blob(b) => Ok(IrNode::Blob(map_blob(b))),
        LexUserType::Array(a) => match map_array(docs, d, a) {
            Err(e) => Err(e),
            Ok(array) => Ok(IrNode::Array(array)),
        },
        LexUserType::Token(_) => Ok(IrNode::Token),
        LexUserType::Object(o) => match map_object(docs, d, o) {
            Err(e) => Err(e),
            Ok(fields) => Ok(IrNode::Object(fields)),
        },
        LexUserType::Boolean(p) => map_leaf_node(p),
        LexUserType::Integer(p) => map_leaf_node(p),
        LexUserType::String(p) => map_leaf_node(p),
        LexUserType::Bytes(p) => Ok(IrNode::Leaf(map_ipld(p))),
        LexUserType::CidLink(p) => Ok(IrNode::Leaf(map_ipld(p))),
        LexUserType::Unknown(p) => map_leaf_node(p),
    }
}

/// Maps a definition of a sealed registry, given by its node, to its
/// intermediate form.
pub fn map_node(registry: &SealedRegistry, node: NodeId) -> (r: Result<IrNode, MapError>)
    requires
        node_in(registry@, node.deep_view()),
    ensures
        mapped(r) == ir_node(
            registry@,
            node.doc as int,
            registry@[node.doc as int].defs[node.def as int].value,
        ),
{
    let docs = registry.all();
    assert(docs.deep_view()[node.doc as int] == docs[node.doc as int].deep_view());
    assert(docs[node.doc as int].deep_view().defs[node.def as int] == docs[node.doc as int].defs[node.def as int].deep_view());
    map_def(docs, node.doc, &docs[node.doc].defs[node.def].value)
}

} // verus!
