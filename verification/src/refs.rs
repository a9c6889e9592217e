//! The references that a definition makes, in the order of its parts, and
//! whether each can be followed without nesting the target in place.

use vstd::prelude::*;
use vstd::string::*;
use crate::ast::{
    LexArray, LexArrayModel, LexItems, LexItemsModel, LexObject, LexObjectModel, LexProperty,
    LexPropertyModel, LexRefVariant, LexRefVariantModel, LexUserType, LexUserTypeModel, LexXrpcBody,
    LexXrpcBodyModel, LexXrpcBodySchema, LexXrpcBodySchemaModel, LexXrpcProcedure, LexXrpcQuery,
    LexXrpcSubscription, LexXrpcSubscriptionMessage, LexXrpcSubscriptionMessageModel,
    LexXrpcSubscriptionMessageSchema, LexXrpcSubscriptionMessageSchemaModel, LexRecord, Named,
    NamedModel,
};
use crate::names::{is_valid_nsid, valid_nsid};
use crate::text::{find_char, first_at, lemma_first_at, same_text, slice_text};

verus! {

/// One use of a reference. A use at a boundary stands behind an array, a
/// union or a nullable property, so its target can be held by indirection;
/// any other use would nest the target in place.
#[derive(Debug, Clone, PartialEq, Eq)]
pub struct RefUse {
    pub target: String,
    pub boundary: bool,
}

/// The mathematical value of a [`RefUse`].
pub struct RefUseModel {
    pub target: Seq<char>,
    pub boundary: bool,
}

impl DeepView for RefUse {
    type V = RefUseModel;

    open spec fn deep_view(&self) -> RefUseModel {
        RefUseModel { target: self.target@, boundary: self.boundary }
    }
}

/// Where a reference points: a definition by name, in the document named
/// or, where none is named, in the document that holds the reference.
#[derive(Debug, Clone, PartialEq, Eq)]
pub struct RefTarget {
    pub nsid: Option<String>,
    pub name: String,
}

/// The mathematical value of a [`RefTarget`].
pub struct RefTargetModel {
    pub nsid: Option<Seq<char>>,
    pub name: Seq<char>,
}

impl DeepView for RefTarget {
    type V = RefTargetModel;

    open spec fn deep_view(&self) -> RefTargetModel {
        RefTargetModel { nsid: self.nsid.deep_view(), name: self.name@ }
    }
}

/// The target that a reference text names, if the text is well formed.
///
/// Without `#` the whole text is a document identifier and the definition is
/// `main`. With one `#`, what follows it is the definition's name and must
/// not be empty; what precedes it is empty, for the same document, or a
/// document identifier. More than one `#` is ill formed.
pub open spec fn split_ref(r: Seq<char>) -> Option<RefTargetModel> {
    let h = first_at(r, '#', 0);
    if h >= r.len() {
        if valid_nsid(r) {
            Some(RefTargetModel { nsid: Some(r), name: "main"@ })
        } else {
            None
        }
    } else {
        let prefix = r.subrange(0, h);
        let name = r.subrange(h + 1, r.len() as int);
        if name.len() == 0 || first_at(name, '#', 0) < name.len() {
            None
        } else if prefix.len() == 0 {
            Some(RefTargetModel { nsid: None, name })
        } else if valid_nsid(prefix) {
            Some(RefTargetModel { nsid: Some(prefix), name })
        } else {
            None
        }
    }
}

/// The target that a reference text names, if the text is well formed.
pub fn parse_ref(r: &str) -> (t: Option<RefTarget>)
    ensures
        t.deep_view() == split_ref(r@),
{
    proof {
        lemma_first_at(r@, '#', 0);
    }
    let n: usize = r.unicode_len();
    let h: usize = find_char(r, '#');
    if h >= n {
        if is_valid_nsid(r) {
            Some(RefTarget { nsid: Some(String::from_str(r)), name: String::from_str("main") })
        } else {
            None
        }
    } else {
        let prefix = slice_text(r, 0, h);
        let name = slice_text(r, h + 1, n);
        let m: usize = name.as_str().unicode_len();
        if m == 0 || find_char(name.as_str(), '#') < m {
            None
        } else if h == 0 {
            Some(RefTarget { nsid: None, name })
        } else if is_valid_nsid(prefix.as_str()) {
            Some(RefTarget { nsid: Some(prefix), name })
        } else {
            None
        }
    }
}

/// Whether `name` is among the names that may be null.
pub open spec fn may_be_null(nullable: Option<Seq<Seq<char>>>, name: Seq<char>) -> bool {
    match nullable {
        None => false,
        Some(ns) => ns.contains(name),
    }
}

/// Whether `name` is among `nullable`.
pub fn is_nullable(nullable: &Option<Vec<String>>, name: &str) -> (r: bool)
    ensures
        r == may_be_null(nullable.deep_view(), name@),
{
    match nullable {
        None => false,
        Some(ns) => {
            let ghost models = ns.deep_view();
            let mut i: usize = 0;
            while i < ns.len()
                invariant
                    i <= ns.len(),
                    models == ns.deep_view(),
                    models.len() == ns.len(),
                    nullable.deep_view() == Some(models),
                    forall|k: int| 0 <= k < i ==> (#[trigger] models[k]) != name@,
                decreases ns.len() - i,
            {
                assert(models[i as int] == ns[i as int]@);
                if same_text(ns[i].as_str(), name) {
                    assert(models.contains(name@));
                    return true;
                }
                i += 1;
            }
            assert(!models.contains(name@));
            false
        },
    }
}

/// The uses that a single pointer or a union makes. A single pointer is at
/// a boundary where `behind` says so; the members of a union always are.
pub open spec fn variant_refs(v: LexRefVariantModel, behind: bool) -> Seq<RefUseModel> {
    match v {
        LexRefVariantModel::Ref(r) => seq![RefUseModel { target: r.reference, boundary: behind }],
        LexRefVariantModel::RefUnion(u) => union_refs(u.refs),
    }
}

/// One use at a boundary for each member of a union, in their order.
pub open spec fn union_refs(refs: Seq<Seq<char>>) -> Seq<RefUseModel> {
    Seq::new(refs.len(), |i: int| RefUseModel { target: refs[i], boundary: true })
}

/// The uses in the items of an array: all at a boundary.
pub open spec fn items_refs(items: LexItemsModel) -> Seq<RefUseModel> {
    match items {
        LexItemsModel::RefVariant(v) => variant_refs(v, true),
        _ => Seq::empty(),
    }
}

/// The uses in one property of an object. A pointer that is the property
/// itself is at a boundary only where the property may be null.
pub open spec fn property_refs(p: LexPropertyModel, nullable: bool) -> Seq<RefUseModel> {
    match p {
        LexPropertyModel::RefVariant(v) => variant_refs(v, nullable),
        LexPropertyModel::Array(a) => items_refs(a.items),
        _ => Seq::empty(),
    }
}

/// The uses in the first `n` properties of an object.
pub open spec fn properties_refs(
    props: Seq<NamedModel<LexPropertyModel>>,
    nullable: Option<Seq<Seq<char>>>,
    n: int,
) -> Seq<RefUseModel>
    decreases n,
{
    if n <= 0 {
        Seq::empty()
    } else {
        properties_refs(props, nullable, n - 1) + property_refs(
            props[n - 1].value,
            may_be_null(nullable, props[n - 1].name),
        )
    }
}

/// The uses in the properties of an object.
pub open spec fn object_refs(o: LexObjectModel) -> Seq<RefUseModel> {
    match o.properties {
        None => Seq::empty(),
        Some(props) => properties_refs(props, o.nullable, props.len() as int),
    }
}

/// The uses in the schema of a body or message. A pointer that is the whole
/// schema makes the body another name for its target: no boundary.
pub open spec fn body_schema_refs(s: LexXrpcBodySchemaModel) -> Seq<RefUseModel> {
    match s {
        LexXrpcBodySchemaModel::RefVariant(v) => variant_refs(v, false),
        LexXrpcBodySchemaModel::Object(o) => object_refs(o),
    }
}

/// The uses in the schema of a message.
pub open spec fn message_schema_refs(s: LexXrpcSubscriptionMessageSchemaModel) -> Seq<RefUseModel> {
    match s {
        LexXrpcSubscriptionMessageSchemaModel::RefVariant(v) => variant_refs(v, false),
        LexXrpcSubscriptionMessageSchemaModel::Object(o) => object_refs(o),
    }
}

/// The uses in a body, if there is one with a schema.
pub open spec fn body_refs(b: Option<LexXrpcBodyModel>) -> Seq<RefUseModel> {
    match b {
        None => Seq::empty(),
        Some(body) => match body.schema {
            None => Seq::empty(),
            Some(s) => body_schema_refs(s),
        },
    }
}

/// The uses in a message, if there is one with a schema.
pub open spec fn message_refs(m: Option<LexXrpcSubscriptionMessageModel>) -> Seq<RefUseModel> {
    match m {
        None => Seq::empty(),
        Some(message) => match message.schema {
            None => Seq::empty(),
            Some(s) => message_schema_refs(s),
        },
    }
}

/// The uses that a definition makes, in the order of its parts: the
/// properties of an object as the object lists them, the input of a
/// procedure before its output.
pub open spec fn user_type_refs(def: LexUserTypeModel) -> Seq<RefUseModel> {
    match def {
        LexUserTypeModel::Record(r) => object_refs(r.record),
        LexUserTypeModel::XrpcQuery(q) => body_refs(q.output),
        LexUserTypeModel::XrpcProcedure(p) => body_refs(p.input) + body_refs(p.output),
        LexUserTypeModel::XrpcSubscription(s) => message_refs(s.message),
        LexUserTypeModel::Array(a) => items_refs(a.items),
        LexUserTypeModel::Object(o) => object_refs(o),
        _ => Seq::empty(),
    }
}

/// Appends the uses of a pointer or a union.
pub fn collect_variant(v: &LexRefVariant, behind: bool, out: &mut Vec<RefUse>)
    ensures
        final(out).deep_view() == old(out).deep_view() + variant_refs(v.deep_view(), behind),
{
    let ghost before = out.deep_view();
    match v {
        LexRefVariant::Ref(r) => match r {
            crate::ast::LexRef::Ref { description: _, reference } => {
                out.push(RefUse { target: reference.clone(), boundary: behind });
                assert(out.deep_view() =~= before + variant_refs(v.deep_view(), behind));
            },
        },
        LexRefVariant::RefUnion(u) => match u {
            crate::ast::LexRefUnion::Union { description: _, refs, closed: _ } => {
                let ghost targets = refs.deep_view();
                let mut i: usize = 0;
                assert(out.deep_view() =~= before + union_refs(targets).subrange(0, 0));
                while i < refs.len()
                    invariant
                        i <= refs.len(),
                        targets == refs.deep_view(),
                        targets.len() == refs.len(),
                        out.deep_view() == before + union_refs(targets).subrange(0, i as int),
                    decreases refs.len() - i,
                {
                    assert(targets[i as int] == refs[i as int]@);
                    let ghost sofar = out.deep_view();
                    let ghost added = RefUseModel { target: targets[i as int], boundary: true };
                    out.push(RefUse { target: refs[i].clone(), boundary: true });
                    assert(out.deep_view() =~= sofar.push(added));
                    assert(union_refs(targets)[i as int] == added);
                    assert(union_refs(targets).subrange(0, i + 1) =~= union_refs(targets).subrange(
                        0,
                        i as int,
                    ).push(added));
                    i += 1;
                    assert(out.deep_view() =~= before + union_refs(targets).subrange(0, i as int));
                }
                assert(union_refs(targets).subrange(0, i as int) =~= union_refs(targets));
            },
        },
    }
}

/// Appends the uses in the items of an array.
pub fn collect_items(items: &LexItems, out: &mut Vec<RefUse>)
    ensures
        final(out).deep_view() == old(out).deep_view() + items_refs(items.deep_view()),
{
    match items {
        LexItems::RefVariant(v) => collect_variant(v, true, out),
        _ => {
            assert(out.deep_view() + Seq::<RefUseModel>::empty() =~= out.deep_view());
        },
    }
}

/// Appends the uses in an array.
pub fn collect_array(a: &LexArray, out: &mut Vec<RefUse>)
    ensures
        final(out).deep_view() == old(out).deep_view() + items_refs(a.deep_view().items),
{
    match a {
        LexArray::Array { description: _, items, min_length: _, max_length: _ } => collect_items(items, out),
    }
}

/// Appends the uses in a property.
pub fn collect_property(p: &LexProperty, nullable: bool, out: &mut Vec<RefUse>)
    ensures
        final(out).deep_view() == old(out).deep_view() + property_refs(p.deep_view(), nullable),
{
    match p {
        LexProperty::RefVariant(v) => collect_variant(v, nullable, out),
        LexProperty::Array(a) => collect_array(a, out),
        _ => {
            assert(out.deep_view() + Seq::<RefUseModel>::empty() =~= out.deep_view());
        },
    }
}

/// Appends the uses in the properties of an object.
pub fn collect_object(o: &LexObject, out: &mut Vec<RefUse>)
    ensures
        final(out).deep_view() == old(out).deep_view() + object_refs(o.deep_view()),
{
    let ghost before = out.deep_view();
    match o {
        LexObject::Object { description: _, required: _, nullable, properties } => match properties {
            None => {
                assert(out.deep_view() + Seq::<RefUseModel>::empty() =~= out.deep_view());
            },
            Some(props) => {
                let ghost models = props.deep_view();
                let ghost nulls = nullable.deep_view();
                let mut i: usize = 0;
                assert(out.deep_view() =~= before + properties_refs(models, nulls, 0));
                while i < props.len()
                    invariant
                        i <= props.len(),
                        models == props.deep_view(),
                        models.len() == props.len(),
                        nulls == nullable.deep_view(),
                        out.deep_view() == before + properties_refs(models, nulls, i as int),
                    decreases props.len() - i,
                {
                    assert(models[i as int] == props[i as int].deep_view());
                    let ghost sofar = out.deep_view();
                    let null = is_nullable(nullable, props[i].name.as_str());
                    collect_property(&props[i].value, null, out);
                    i += 1;
                    assert(out.deep_view() =~= before + properties_refs(models, nulls, i as int));
                }
            },
        },
    }
}

/// Appends the uses in a body.
pub fn collect_body(b: &Option<LexXrpcBody>, out: &mut Vec<RefUse>)
    ensures
        final(out).deep_view() == old(out).deep_view() + body_refs(b.deep_view()),
{
    match b {
        None => {
            assert(out.deep_view() + Seq::<RefUseModel>::empty() =~= out.deep_view());
        },
        Some(body) => match &body.schema {
            None => {
                assert(out.deep_view() + Seq::<RefUseModel>::empty() =~= out.deep_view());
            },
            Some(s) => match s {
                LexXrpcBodySchema::RefVariant(v) => collect_variant(v, false, out),
                LexXrpcBodySchema::Object(o) => collect_object(o, out),
            },
        },
    }
}

/// Appends the uses in a message.
pub fn collect_message(m: &Option<LexXrpcSubscriptionMessage>, out: &mut Vec<RefUse>)
    ensures
        final(out).deep_view() == old(out).deep_view() + message_refs(m.deep_view()),
{
    match m {
        None => {
            assert(out.deep_view() + Seq::<RefUseModel>::empty() =~= out.deep_view());
        },
        Some(message) => match &message.schema {
            None => {
                assert(out.deep_view() + Seq::<RefUseModel>::empty() =~= out.deep_view());
            },
            Some(s) => match s {
                LexXrpcSubscriptionMessageSchema::RefVariant(v) => collect_variant(v, false, out),
                LexXrpcSubscriptionMessageSchema::Object(o) => collect_object(o, out),
            },
        },
    }
}

/// The uses that a definition makes, in the order of its parts: the
/// properties of an object as the object lists them, the input of a
/// procedure before its output.
pub fn collect_refs(def: &LexUserType) -> (out: Vec<RefUse>)
    ensures
        out.deep_view() == user_type_refs(def.deep_view()),
{
    let mut out: Vec<RefUse> = Vec::new();
    assert(out.deep_view() =~= Seq::empty());
    match def {
        LexUserType::Record(r) => match r {
            LexRecord::Record { description: _, key: _, record } => {
                collect_object(record, &mut out);
            },
        },
        LexUserType::XrpcQuery(q) => match q {
            LexXrpcQuery::Query { description: _, parameters: _, output, errors: _ } => {
                collect_body(output, &mut out);
            },
        },
        LexUserType::XrpcProcedure(p) => match p {
            LexXrpcProcedure::Procedure { description: _, parameters: _, input, output, errors: _ } => {
                collect_body(input, &mut out);
                collect_body(output, &mut out);
            },
        },
        LexUserType::XrpcSubscription(s) => match s {
            LexXrpcSubscription::Subscription {
                description: _,
                parameters: _,
                message,
                infos: _,
                errors: _,
            } => {
                collect_message(message, &mut out);
            },
        },
        LexUserType::Array(a) => {
            collect_array(a, &mut out);
        },
        LexUserType::Object(o) => {
            collect_object(o, &mut out);
        },
        _ => {},
    }
    assert(out.deep_view() =~= user_type_refs(def.deep_view()));
    out
}

} // verus!
