//! The intermediate form of a definition: what the type mapper makes and
//! the generator reads. References are held as node handles, never as
//! copies of their targets.

use vstd::prelude::*;
use crate::ast::LexStringFormat;
use crate::resolve::{NodeId, NodeModel};

verus! {

/// Whether a property must be present, and whether it may hold null.
#[derive(Debug, Clone, Copy, PartialEq, Eq, Structural)]
pub enum Presence {
    MandatoryNonNull,
    MandatoryNullable,
    OptionalNonNull,
    OptionalNullable,
}

impl DeepView for Presence {
    type V = Presence;

    open spec fn deep_view(&self) -> Presence {
        *self
    }
}

/// A lower and an upper bound, each of which may be absent.
#[derive(Debug, Clone, Copy, PartialEq, Eq, Structural)]
pub struct Range {
    pub min: Option<i64>,
    pub max: Option<i64>,
}

impl DeepView for Range {
    type V = Range;

    open spec fn deep_view(&self) -> Range {
        *self
    }
}

impl Range {
    /// Whether the lower bound, where both are given, does not exceed the
    /// upper one.
    pub open spec fn consistent(self) -> bool {
        match (self.min, self.max) {
            (Some(lo), Some(hi)) => lo <= hi,
            _ => true,
        }
    }

    pub fn is_consistent(&self) -> (r: bool)
        ensures
            r == self.consistent(),
    {
        match (self.min, self.max) {
            (Some(lo), Some(hi)) => lo <= hi,
            _ => true,
        }
    }
}

/// The kinds of leaf.
#[derive(Debug, Clone, Copy, PartialEq, Eq, Structural)]
pub enum LeafKind {
    Boolean,
    Integer,
    String,
    Bytes,
    CidLink,
    Unknown,
}

impl DeepView for LeafKind {
    type V = LeafKind;

    open spec fn deep_view(&self) -> LeafKind {
        *self
    }
}

/// A fixed value, a choice or a default of a leaf.
#[derive(Debug, Clone, PartialEq, Eq)]
pub enum Literal {
    Bool(bool),
    Int(i64),
    Text(String),
}

/// The mathematical value of a [`Literal`].
pub enum LiteralModel {
    Bool(bool),
    Int(i64),
    Text(Seq<char>),
}

impl DeepView for Literal {
    type V = LiteralModel;

    open spec fn deep_view(&self) -> LiteralModel {
        match self {
            Literal::Bool(x) => LiteralModel::Bool(x.deep_view()),
            Literal::Int(x) => LiteralModel::Int(x.deep_view()),
            Literal::Text(x) => LiteralModel::Text(x.deep_view()),
        }
    }
}

/// The constraints of a leaf, whatever its kind: bounds on the value, on
/// the length and on the number of graphemes, the choices it is held to,
/// and the one value it is fixed to.
#[derive(Debug, Clone, PartialEq, Eq)]
pub struct ConstraintSet {
    pub value: Range,
    pub length: Range,
    pub graphemes: Range,
    pub choices: Option<Vec<Literal>>,
    pub fixed: Option<Literal>,
}

/// The mathematical value of a [`ConstraintSet`].
pub struct ConstraintSetModel {
    pub value: Range,
    pub length: Range,
    pub graphemes: Range,
    pub choices: Option<Seq<LiteralModel>>,
    pub fixed: Option<LiteralModel>,
}

impl DeepView for ConstraintSet {
    type V = ConstraintSetModel;

    open spec fn deep_view(&self) -> ConstraintSetModel {
        ConstraintSetModel {
            value: self.value.deep_view(),
            length: self.length.deep_view(),
            graphemes: self.graphemes.deep_view(),
            choices: self.choices.deep_view(),
            fixed: self.fixed.deep_view(),
        }
    }
}

/// A leaf with its constraints.
#[derive(Debug, Clone, PartialEq, Eq)]
pub struct IrLeaf {
    pub kind: LeafKind,
    pub format: Option<LexStringFormat>,
    pub default: Option<Literal>,
    pub constraints: ConstraintSet,
}

/// The mathematical value of a [`IrLeaf`].
pub struct IrLeafModel {
    pub kind: LeafKind,
    pub format: Option<LexStringFormat>,
    pub default: Option<LiteralModel>,
    pub constraints: ConstraintSetModel,
}

impl DeepView for IrLeaf {
    type V = IrLeafModel;

    open spec fn deep_view(&self) -> IrLeafModel {
        IrLeafModel {
            kind: self.kind.deep_view(),
            format: self.format.deep_view(),
            default: self.default.deep_view(),
            constraints: self.constraints.deep_view(),
        }
    }
}

/// A blob.
#[derive(Debug, Clone, PartialEq, Eq)]
pub struct IrBlob {
    pub accept: Option<Vec<String>>,
    pub max_size: Option<i64>,
}

/// The mathematical value of a [`IrBlob`].
pub struct IrBlobModel {
    pub accept: Option<Seq<Seq<char>>>,
    pub max_size: Option<i64>,
}

impl DeepView for IrBlob {
    type V = IrBlobModel;

    open spec fn deep_view(&self) -> IrBlobModel {
        IrBlobModel {
            accept: self.accept.deep_view(),
            max_size: self.max_size.deep_view(),
        }
    }
}

/// A union of definitions. Closed, it admits its members only; open, it
/// admits any definition.
#[derive(Debug, Clone, PartialEq, Eq)]
pub struct IrUnion {
    pub members: Vec<NodeId>,
    pub closed: bool,
}

/// The mathematical value of a [`IrUnion`].
pub struct IrUnionModel {
    pub members: Seq<NodeModel>,
    pub closed: bool,
}

impl DeepView for IrUnion {
    type V = IrUnionModel;

    open spec fn deep_view(&self) -> IrUnionModel {
        IrUnionModel {
            members: self.members.deep_view(),
            closed: self.closed.deep_view(),
        }
    }
}

/// What an array can hold, and what a property that is no array can be.
#[derive(Debug, Clone, PartialEq, Eq)]
pub enum IrItem {
    Leaf(IrLeaf),
    Blob(IrBlob),
    Ref(NodeId),
    Union(IrUnion),
}

/// The mathematical value of a [`IrItem`].
pub enum IrItemModel {
    Leaf(IrLeafModel),
    Blob(IrBlobModel),
    Ref(NodeModel),
    Union(IrUnionModel),
}

impl DeepView for IrItem {
    type V = IrItemModel;

    open spec fn deep_view(&self) -> IrItemModel {
        match self {
            IrItem::Leaf(x) => IrItemModel::Leaf(x.deep_view()),
            IrItem::Blob(x) => IrItemModel::Blob(x.deep_view()),
            IrItem::Ref(x) => IrItemModel::Ref(x.deep_view()),
            IrItem::Union(x) => IrItemModel::Union(x.deep_view()),
        }
    }
}

/// An array: its item and the bounds on its length.
#[derive(Debug, Clone, PartialEq, Eq)]
pub struct IrArray {
    pub item: IrItem,
    pub length: Range,
}

/// The mathematical value of a [`IrArray`].
pub struct IrArrayModel {
    pub item: IrItemModel,
    pub length: Range,
}

impl DeepView for IrArray {
    type V = IrArrayModel;

    open spec fn deep_view(&self) -> IrArrayModel {
        IrArrayModel {
            item: self.item.deep_view(),
            length: self.length.deep_view(),
        }
    }
}

/// The type of a property or parameter.
#[derive(Debug, Clone, PartialEq, Eq)]
pub enum IrType {
    Item(IrItem),
    Array(IrArray),
}

/// The mathematical value of a [`IrType`].
pub enum IrTypeModel {
    Item(IrItemModel),
    Array(IrArrayModel),
}

impl DeepView for IrType {
    type V = IrTypeModel;

    open spec fn deep_view(&self) -> IrTypeModel {
        match self {
            IrType::Item(x) => IrTypeModel::Item(x.deep_view()),
            IrType::Array(x) => IrTypeModel::Array(x.deep_view()),
        }
    }
}

/// A property of an object or a parameter of a method.
#[derive(Debug, Clone, PartialEq, Eq)]
pub struct IrField {
    pub name: String,
    pub presence: Presence,
    pub ty: IrType,
}

/// The mathematical value of a [`IrField`].
pub struct IrFieldModel {
    pub name: Seq<char>,
    pub presence: Presence,
    pub ty: IrTypeModel,
}

impl DeepView for IrField {
    type V = IrFieldModel;

    open spec fn deep_view(&self) -> IrFieldModel {
        IrFieldModel {
            name: self.name.deep_view(),
            presence: self.presence.deep_view(),
            ty: self.ty.deep_view(),
        }
    }
}

/// The schema of a body or message: a pointer, a union or an object.
#[derive(Debug, Clone, PartialEq, Eq)]
pub enum IrSchema {
    Ref(NodeId),
    Union(IrUnion),
    Object(Vec<IrField>),
}

/// The mathematical value of a [`IrSchema`].
pub enum IrSchemaModel {
    Ref(NodeModel),
    Union(IrUnionModel),
    Object(Seq<IrFieldModel>),
}

impl DeepView for IrSchema {
    type V = IrSchemaModel;

    open spec fn deep_view(&self) -> IrSchemaModel {
        match self {
            IrSchema::Ref(x) => IrSchemaModel::Ref(x.deep_view()),
            IrSchema::Union(x) => IrSchemaModel::Union(x.deep_view()),
            IrSchema::Object(x) => IrSchemaModel::Object(x.deep_view()),
        }
    }
}

/// A body of a method.
#[derive(Debug, Clone, PartialEq, Eq)]
pub struct IrBody {
    pub encoding: String,
    pub schema: Option<IrSchema>,
}

/// The mathematical value of a [`IrBody`].
pub struct IrBodyModel {
    pub encoding: Seq<char>,
    pub schema: Option<IrSchemaModel>,
}

impl DeepView for IrBody {
    type V = IrBodyModel;

    open spec fn deep_view(&self) -> IrBodyModel {
        IrBodyModel {
            encoding: self.encoding.deep_view(),
            schema: self.schema.deep_view(),
        }
    }
}

/// A method: its parameters, bodies, message, and the names of its errors
/// and infos.
#[derive(Debug, Clone, PartialEq, Eq)]
pub struct IrMethod {
    pub parameters: Vec<IrField>,
    pub input: Option<IrBody>,
    pub output: Option<IrBody>,
    pub message: Option<IrSchema>,
    pub infos: Vec<String>,
    pub errors: Vec<String>,
}

/// The mathematical value of a [`IrMethod`].
pub struct IrMethodModel {
    pub parameters: Seq<IrFieldModel>,
    pub input: Option<IrBodyModel>,
    pub output: Option<IrBodyModel>,
    pub message: Option<IrSchemaModel>,
    pub infos: Seq<Seq<char>>,
    pub errors: Seq<Seq<char>>,
}

impl DeepView for IrMethod {
    type V = IrMethodModel;

    open spec fn deep_view(&self) -> IrMethodModel {
        IrMethodModel {
            parameters: self.parameters.deep_view(),
            input: self.input.deep_view(),
            output: self.output.deep_view(),
            message: self.message.deep_view(),
            infos: self.infos.deep_view(),
            errors: self.errors.deep_view(),
        }
    }
}

/// A record: the strategy for its key, and its object.
#[derive(Debug, Clone, PartialEq, Eq)]
pub struct IrRecord {
    pub key: Option<String>,
    pub fields: Vec<IrField>,
}

/// The mathematical value of a [`IrRecord`].
pub struct IrRecordModel {
    pub key: Option<Seq<char>>,
    pub fields: Seq<IrFieldModel>,
}

impl DeepView for IrRecord {
    type V = IrRecordModel;

    open spec fn deep_view(&self) -> IrRecordModel {
        IrRecordModel {
            key: self.key.deep_view(),
            fields: self.fields.deep_view(),
        }
    }
}

/// The intermediate form of one definition.
#[derive(Debug, Clone, PartialEq, Eq)]
pub enum IrNode {
    Leaf(IrLeaf),
    Object(Vec<IrField>),
    Array(IrArray),
    Blob(IrBlob),
    Token,
    Record(IrRecord),
    Query(IrMethod),
    Procedure(IrMethod),
    Subscription(IrMethod),
}

/// The mathematical value of a [`IrNode`].
pub enum IrNodeModel {
    Leaf(IrLeafModel),
    Object(Seq<IrFieldModel>),
    Array(IrArrayModel),
    Blob(IrBlobModel),
    Token,
    Record(IrRecordModel),
    Query(IrMethodModel),
    Procedure(IrMethodModel),
    Subscription(IrMethodModel),
}

impl DeepView for IrNode {
    type V = IrNodeModel;

    open spec fn deep_view(&self) -> IrNodeModel {
        match self {
            IrNode::Leaf(x) => IrNodeModel::Leaf(x.deep_view()),
            IrNode::Object(x) => IrNodeModel::Object(x.deep_view()),
            IrNode::Array(x) => IrNodeModel::Array(x.deep_view()),
            IrNode::Blob(x) => IrNodeModel::Blob(x.deep_view()),
            IrNode::Token => IrNodeModel::Token,
            IrNode::Record(x) => IrNodeModel::Record(x.deep_view()),
            IrNode::Query(x) => IrNodeModel::Query(x.deep_view()),
            IrNode::Procedure(x) => IrNodeModel::Procedure(x.deep_view()),
            IrNode::Subscription(x) => IrNodeModel::Subscription(x.deep_view()),
        }
    }
}

impl IrUnionModel {
    /// Whether the union admits `variant`: any definition where it is open,
    /// one of its members where it is closed.
    pub open spec fn admits(self, variant: NodeModel) -> bool {
        !self.closed || self.members.contains(variant)
    }
}

impl IrUnion {
    /// Whether the union admits `variant`.
    pub fn admits(&self, variant: NodeId) -> (r: bool)
        ensures
            r == self.deep_view().admits(variant.deep_view()),
    {
        if !self.closed {
            return true;
        }
        let ghost models = self.members.deep_view();
        let mut i: usize = 0;
        while i < self.members.len()
            invariant
                i <= self.members.len(),
                models == self.members.deep_view(),
                models.len() == self.members.len(),
                forall|k: int| 0 <= k < i ==> (#[trigger] models[k]) != variant.deep_view(),
            decreases self.members.len() - i,
        {
            assert(models[i as int] == self.members[i as int].deep_view());
            if self.members[i].doc == variant.doc && self.members[i].def == variant.def {
                assert(models[i as int] == variant.deep_view());
                return true;
            }
            i += 1;
        }
        false
    }
}

} // verus!
