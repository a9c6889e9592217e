//! What resolution guarantees to the later passes: in a corpus whose
//! graph exists, every reference that the mapper follows resolves.

use vstd::prelude::*;
use crate::ast::{
    LexArrayModel, LexItemsModel, LexObjectModel, LexPropertyModel, LexRefVariantModel,
    LexUserTypeModel, LexXrpcBodyModel, LexXrpcBodySchemaModel, LexXrpcSubscriptionMessageModel,
    LexXrpcSubscriptionMessageSchemaModel, LexiconDocModel, NamedModel,
};
use crate::generate::{
    ClaimModel, GenErrorKind, all_claims, declarations_of, failures_upto, generate, generation_of,
};
use crate::mapper::{
    MapError, ir_array, ir_body, ir_fields, ir_items, ir_leaf_node, ir_members, ir_message, ir_node,
    ir_object, ir_parameters, ir_params, ir_procedure, ir_property, ir_query, ir_record,
    ir_ref_variant, ir_subscription, ir_variant_schema,
};
use crate::refs::{
    RefUseModel, body_refs, items_refs, may_be_null, message_refs, object_refs, properties_refs,
    property_refs, union_refs, user_type_refs, variant_refs,
};
use crate::resolve::{
    NodeModel, corpus_edges, def_edges, doc_edges, graph_of, node_in, resolve, resolve_target,
    uses_edges,
};

verus! {

/// Whether use `i` of `uses`, held in document `d`, resolves.
pub open spec fn use_resolves(docs: Seq<LexiconDocModel>, d: int, uses: Seq<RefUseModel>, i: int) -> bool {
    resolve_target(docs, d, uses[i].target) is Ok
}

/// Whether every one of `uses`, held in document `d`, resolves.
pub open spec fn all_resolve(docs: Seq<LexiconDocModel>, d: int, uses: Seq<RefUseModel>) -> bool {
    forall|i: int| 0 <= i < uses.len() ==> #[trigger] use_resolves(docs, d, uses, i)
}

proof fn lemma_parts_resolve(docs: Seq<LexiconDocModel>, d: int, a: Seq<RefUseModel>, b: Seq<RefUseModel>)
    requires
        all_resolve(docs, d, a + b),
    ensures
        all_resolve(docs, d, a),
        all_resolve(docs, d, b),
{
    let whole = a + b;
    assert forall|i: int| 0 <= i < a.len() implies #[trigger] use_resolves(docs, d, a, i) by {
        assert(use_resolves(docs, d, whole, i));
    }
    assert forall|i: int| 0 <= i < b.len() implies #[trigger] use_resolves(docs, d, b, i) by {
        assert(use_resolves(docs, d, whole, a.len() + i));
    }
}

proof fn lemma_members_resolve(docs: Seq<LexiconDocModel>, d: int, refs: Seq<Seq<char>>, n: int)
    requires
        all_resolve(docs, d, union_refs(refs)),
        0 <= n <= refs.len(),
    ensures
        ir_members(docs, d, refs, n) is Ok,
    decreases n,
{
    if n > 0 {
        lemma_members_resolve(docs, d, refs, n - 1);
        assert(use_resolves(docs, d, union_refs(refs), n - 1));
    }
}

proof fn lemma_variant_resolves(docs: Seq<LexiconDocModel>, d: int, v: LexRefVariantModel, behind: bool)
    requires
        all_resolve(docs, d, variant_refs(v, behind)),
    ensures
        ir_ref_variant(docs, d, v) is Ok,
        ir_variant_schema(docs, d, v) is Ok,
{
    match v {
        LexRefVariantModel::Ref(r) => {
            assert(use_resolves(docs, d, variant_refs(v, behind), 0));
        },
        LexRefVariantModel::RefUnion(u) => {
            lemma_members_resolve(docs, d, u.refs, u.refs.len() as int);
        },
    }
}

proof fn lemma_items_resolve(docs: Seq<LexiconDocModel>, d: int, items: LexItemsModel)
    requires
        all_resolve(docs, d, items_refs(items)),
    ensures
        ir_items(docs, d, items) != Err::<crate::ir::IrItemModel, MapError>(MapError::UnresolvedRef),
{
    if let LexItemsModel::RefVariant(v) = items {
        lemma_variant_resolves(docs, d, v, true);
    }
}

proof fn lemma_array_resolves(docs: Seq<LexiconDocModel>, d: int, a: LexArrayModel)
    requires
        all_resolve(docs, d, items_refs(a.items)),
    ensures
        ir_array(docs, d, a) != Err::<crate::ir::IrArrayModel, MapError>(MapError::UnresolvedRef),
{
    lemma_items_resolve(docs, d, a.items);
}

proof fn lemma_property_resolves(docs: Seq<LexiconDocModel>, d: int, p: LexPropertyModel, nullable: bool)
    requires
        all_resolve(docs, d, property_refs(p, nullable)),
    ensures
        ir_property(docs, d, p) != Err::<crate::ir::IrTypeModel, MapError>(MapError::UnresolvedRef),
{
    match p {
        LexPropertyModel::RefVariant(v) => {
            lemma_variant_resolves(docs, d, v, nullable);
        },
        LexPropertyModel::Array(a) => {
            lemma_array_resolves(docs, d, a);
        },
        _ => {},
    }
}

proof fn lemma_fields_resolve(
    docs: Seq<LexiconDocModel>,
    d: int,
    props: Seq<NamedModel<LexPropertyModel>>,
    required: Option<Seq<Seq<char>>>,
    nullable: Option<Seq<Seq<char>>>,
    n: int,
)
    requires
        all_resolve(docs, d, properties_refs(props, nullable, n)),
        0 <= n <= props.len(),
    ensures
        ir_fields(docs, d, props, required, nullable, n) != Err::<Seq<crate::ir::IrFieldModel>, MapError>(
            MapError::UnresolvedRef,
        ),
    decreases n,
{
    if n > 0 {
        let last = property_refs(props[n - 1].value, may_be_null(nullable, props[n - 1].name));
        lemma_parts_resolve(docs, d, properties_refs(props, nullable, n - 1), last);
        lemma_fields_resolve(docs, d, props, required, nullable, n - 1);
        lemma_property_resolves(docs, d, props[n - 1].value, may_be_null(nullable, props[n - 1].name));
    }
}

proof fn lemma_object_resolves(docs: Seq<LexiconDocModel>, d: int, o: LexObjectModel)
    requires
        all_resolve(docs, d, object_refs(o)),
    ensures
        ir_object(docs, d, o) != Err::<Seq<crate::ir::IrFieldModel>, MapError>(MapError::UnresolvedRef),
{
    if let Some(props) = o.properties {
        lemma_fields_resolve(docs, d, props, o.required, o.nullable, props.len() as int);
    }
}

proof fn lemma_body_resolves(docs: Seq<LexiconDocModel>, d: int, b: Option<LexXrpcBodyModel>)
    requires
        all_resolve(docs, d, body_refs(b)),
    ensures
        ir_body(docs, d, b) != Err::<Option<crate::ir::IrBodyModel>, MapError>(MapError::UnresolvedRef),
{
    if let Some(body) = b {
        if let Some(s) = body.schema {
            match s {
                LexXrpcBodySchemaModel::RefVariant(v) => {
                    lemma_variant_resolves(docs, d, v, false);
                },
                LexXrpcBodySchemaModel::Object(o) => {
                    lemma_object_resolves(docs, d, o);
                },
            }
        }
    }
}

proof fn lemma_message_resolves(docs: Seq<LexiconDocModel>, d: int, m: Option<LexXrpcSubscriptionMessageModel>)
    requires
        all_resolve(docs, d, message_refs(m)),
    ensures
        ir_message(docs, d, m) != Err::<Option<crate::ir::IrSchemaModel>, MapError>(MapError::UnresolvedRef),
{
    if let Some(message) = m {
        if let Some(s) = message.schema {
            match s {
                LexXrpcSubscriptionMessageSchemaModel::RefVariant(v) => {
                    lemma_variant_resolves(docs, d, v, false);
                },
                LexXrpcSubscriptionMessageSchemaModel::Object(o) => {
                    lemma_object_resolves(docs, d, o);
                },
            }
        }
    }
}

proof fn lemma_params_hold_no_reference(
    props: Seq<NamedModel<crate::ast::LexXrpcParameterModel>>,
    required: Option<Seq<Seq<char>>>,
    n: int,
)
    ensures
        ir_params(props, required, n) != Err::<Seq<crate::ir::IrFieldModel>, MapError>(MapError::UnresolvedRef),
    decreases n,
{
    if n > 0 {
        lemma_params_hold_no_reference(props, required, n - 1);
    }
}

proof fn lemma_parameters_hold_no_reference(p: Option<crate::ast::LexXrpcParametersModel>)
    ensures
        ir_parameters(p) != Err::<Seq<crate::ir::IrFieldModel>, MapError>(MapError::UnresolvedRef),
{
    if let Some(params) = p {
        lemma_params_hold_no_reference(params.properties, params.required, params.properties.len() as int);
    }
}

proof fn lemma_record_resolves(docs: Seq<LexiconDocModel>, d: int, r: crate::ast::LexRecordModel)
    requires
        all_resolve(docs, d, object_refs(r.record)),
    ensures
        ir_record(docs, d, r) != Err::<crate::ir::IrRecordModel, MapError>(MapError::UnresolvedRef),
{
    lemma_object_resolves(docs, d, r.record);
}

proof fn lemma_query_resolves(docs: Seq<LexiconDocModel>, d: int, q: crate::ast::LexXrpcQueryModel)
    requires
        all_resolve(docs, d, body_refs(q.output)),
    ensures
        ir_query(docs, d, q) != Err::<crate::ir::IrMethodModel, MapError>(MapError::UnresolvedRef),
{
    lemma_parameters_hold_no_reference(q.parameters);
    lemma_body_resolves(docs, d, q.output);
}

proof fn lemma_procedure_resolves(docs: Seq<LexiconDocModel>, d: int, p: crate::ast::LexXrpcProcedureModel)
    requires
        all_resolve(docs, d, body_refs(p.input) + body_refs(p.output)),
    ensures
        ir_procedure(docs, d, p) != Err::<crate::ir::IrMethodModel, MapError>(MapError::UnresolvedRef),
{
    lemma_parameters_hold_no_reference(p.parameters);
    lemma_parts_resolve(docs, d, body_refs(p.input), body_refs(p.output));
    lemma_body_resolves(docs, d, p.input);
    lemma_body_resolves(docs, d, p.output);
}

proof fn lemma_subscription_resolves(docs: Seq<LexiconDocModel>, d: int, s: crate::ast::LexXrpcSubscriptionModel)
    requires
        all_resolve(docs, d, message_refs(s.message)),
    ensures
        ir_subscription(docs, d, s) != Err::<crate::ir::IrMethodModel, MapError>(MapError::UnresolvedRef),
{
    lemma_parameters_hold_no_reference(s.parameters);
    lemma_message_resolves(docs, d, s.message);
}

proof fn lemma_leaf_holds_no_reference(p: crate::ast::LexPrimitiveModel)
    ensures
        ir_leaf_node(p) != Err::<crate::ir::IrNodeModel, MapError>(MapError::UnresolvedRef),
{
}

/// A definition all of whose references resolve is never refused by the
/// mapper for an unresolved reference.
pub proof fn lemma_node_resolves(docs: Seq<LexiconDocModel>, d: int, def: LexUserTypeModel)
    requires
        all_resolve(docs, d, user_type_refs(def)),
    ensures
        ir_node(docs, d, def) != Err::<crate::ir::IrNodeModel, MapError>(MapError::UnresolvedRef),
{
    match def {
        LexUserTypeModel::Record(r) => {
            lemma_record_resolves(docs, d, r);
        },
        LexUserTypeModel::XrpcQuery(q) => {
            lemma_query_resolves(docs, d, q);
        },
        LexUserTypeModel::XrpcProcedure(p) => {
            lemma_procedure_resolves(docs, d, p);
        },
        LexUserTypeModel::XrpcSubscription(s) => {
            lemma_subscription_resolves(docs, d, s);
        },
        LexUserTypeModel::Array(a) => {
            lemma_array_resolves(docs, d, a);
        },
        LexUserTypeModel::Object(o) => {
            lemma_object_resolves(docs, d, o);
        },
        LexUserTypeModel::Blob(_) => {},
        LexUserTypeModel::Token(_) => {},
        LexUserTypeModel::Boolean(p) => {
            lemma_leaf_holds_no_reference(p);
        },
        LexUserTypeModel::Integer(p) => {
            lemma_leaf_holds_no_reference(p);
        },
        LexUserTypeModel::String(p) => {
            lemma_leaf_holds_no_reference(p);
        },
        LexUserTypeModel::Bytes(_) => {},
        LexUserTypeModel::CidLink(_) => {},
        LexUserTypeModel::Unknown(p) => {
            lemma_leaf_holds_no_reference(p);
        },
    }
}

proof fn lemma_uses_ok(docs: Seq<LexiconDocModel>, d: int, k: int, uses: Seq<RefUseModel>, n: int)
    requires
        uses_edges(docs, d, k, uses, n) is Ok,
        0 <= n <= uses.len(),
    ensures
        forall|i: int| 0 <= i < n ==> #[trigger] use_resolves(docs, d, uses, i),
    decreases n,
{
    if n > 0 {
        lemma_uses_ok(docs, d, k, uses, n - 1);
    }
}

proof fn lemma_doc_ok(docs: Seq<LexiconDocModel>, d: int, n: int, k: int)
    requires
        doc_edges(docs, d, n) is Ok,
        0 <= k < n,
    ensures
        def_edges(docs, d, k) is Ok,
    decreases n,
{
    if k < n - 1 {
        lemma_doc_ok(docs, d, n - 1, k);
    }
}

proof fn lemma_corpus_ok(docs: Seq<LexiconDocModel>, n: int, d: int)
    requires
        corpus_edges(docs, n) is Ok,
        0 <= d < n,
    ensures
        doc_edges(docs, d, docs[d].defs.len() as int) is Ok,
    decreases n,
{
    if d < n - 1 {
        lemma_corpus_ok(docs, n - 1, d);
    }
}

/// In a corpus that resolves, every reference of every definition
/// resolves.
pub proof fn lemma_resolved_corpus(docs: Seq<LexiconDocModel>, node: NodeModel)
    requires
        graph_of(docs) is Ok,
        node_in(docs, node),
    ensures
        all_resolve(docs, node.doc, user_type_refs(docs[node.doc].defs[node.def].value)),
{
    lemma_corpus_ok(docs, docs.len() as int, node.doc);
    lemma_doc_ok(docs, node.doc, docs[node.doc].defs.len() as int, node.def);
    let uses = user_type_refs(docs[node.doc].defs[node.def].value);
    lemma_uses_ok(docs, node.doc, node.def, uses, uses.len() as int);
}

/// In a corpus that resolves, the mapper never refuses a definition for
/// an unresolved reference: it gives the intermediate form, or an inverted
/// range.
pub proof fn lemma_resolved_node_maps(docs: Seq<LexiconDocModel>, node: NodeModel)
    requires
        graph_of(docs) is Ok,
        node_in(docs, node),
    ensures
        ir_node(docs, node.doc, docs[node.doc].defs[node.def].value) != Err::<crate::ir::IrNodeModel, MapError>(
            MapError::UnresolvedRef,
        ),
{
    lemma_resolved_corpus(docs, node);
    lemma_node_resolves(docs, node.doc, docs[node.doc].defs[node.def].value);
}

proof fn lemma_declarations_linked(docs: Seq<LexiconDocModel>, claims: Seq<ClaimModel>, d: int, n: int)
    requires
        graph_of(docs) is Ok,
        0 <= d < docs.len(),
        0 <= n <= docs[d].defs.len(),
    ensures
        declarations_of(docs, claims, d, n) matches Err(e) ==> e.kind == GenErrorKind::IdentifierCollision
            || e.kind == GenErrorKind::InvalidConstraintRange,
    decreases n,
{
    if n > 0 {
        lemma_declarations_linked(docs, claims, d, n - 1);
        lemma_resolved_node_maps(docs, NodeModel { doc: d, def: n - 1 });
    }
}

proof fn lemma_failed_linked(docs: Seq<LexiconDocModel>, claims: Seq<ClaimModel>, n: int)
    requires
        graph_of(docs) is Ok,
        0 <= n <= docs.len(),
    ensures
        forall|i: int|
            0 <= i < failures_upto(docs, claims, n).len() ==> (#[trigger] failures_upto(docs, claims, n)[i]).error.kind
                == GenErrorKind::IdentifierCollision || failures_upto(docs, claims, n)[i].error.kind
                == GenErrorKind::InvalidConstraintRange,
    decreases n,
{
    if n > 0 {
        lemma_failed_linked(docs, claims, n - 1);
        lemma_declarations_linked(docs, claims, n - 1, docs[n - 1].defs.len() as int);
    }
}

/// In a corpus that resolves, a document fails to generate only for a
/// collision of identifiers or an inverted range.
pub proof fn lemma_resolved_generation(docs: Seq<LexiconDocModel>)
    requires
        graph_of(docs) is Ok,
    ensures
        forall|i: int|
            0 <= i < generation_of(docs).failed.len() ==> (#[trigger] generation_of(docs).failed[i]).error.kind
                == GenErrorKind::IdentifierCollision || generation_of(docs).failed[i].error.kind
                == GenErrorKind::InvalidConstraintRange,
{
    lemma_failed_linked(docs, all_claims(docs), docs.len() as int);
}

} // verus!
