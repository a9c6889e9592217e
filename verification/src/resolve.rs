//! Resolving the references of a sealed registry into a graph.
//!
//! The nodes are the definitions of all documents, numbered document by
//! document in the order of registration. Every use of a reference is an
//! edge from the definition that holds it to the definition it names.

use vstd::prelude::*;
use crate::ast::{LexUserType, LexUserTypeModel, LexiconDoc, LexiconDocModel, Named, NamedModel};
use crate::graph::{Edge, EdgeModel, edges_within, find_endless_nesting, first_endless};
use crate::refs::{RefUse, RefUseModel, collect_refs, parse_ref, split_ref, user_type_refs};
use crate::registry::{SealedRegistry, doc_index, find_doc, lemma_doc_at};
use crate::text::same_text;

verus! {

/// A definition, by the position of its document in the registry and its
/// own position in the document.
#[derive(Debug, Clone, Copy, PartialEq, Eq)]
pub struct NodeId {
    pub doc: usize,
    pub def: usize,
}

/// The mathematical value of a [`NodeId`].
pub struct NodeModel {
    pub doc: int,
    pub def: int,
}

impl DeepView for NodeId {
    type V = NodeModel;

    open spec fn deep_view(&self) -> NodeModel {
        NodeModel { doc: self.doc as int, def: self.def as int }
    }
}

/// Why the references of a registry could not be resolved.
#[derive(Debug, Clone, Copy, PartialEq, Eq, Structural)]
pub enum ResolveErrorKind {
    /// A reference names a document or a definition that is not there.
    DanglingRef,
    /// Some definition would have to hold itself in place, without end.
    CyclicTypeExpansion,
    /// A reference text is ill formed.
    InvalidRefSyntax,
}

/// A failed resolution: the definition at fault and, for a reference
/// that is ill formed or dangling, the text of that reference. For endless
/// nesting the definition is the first that has no finite form.
#[derive(Debug, Clone, PartialEq, Eq)]
pub struct ResolveError {
    pub kind: ResolveErrorKind,
    pub node: NodeId,
    pub reference: Option<String>,
}

/// The mathematical value of a [`ResolveError`].
pub struct ResolveFailure {
    pub kind: ResolveErrorKind,
    pub node: NodeModel,
    pub reference: Option<Seq<char>>,
}

impl DeepView for ResolveError {
    type V = ResolveFailure;

    open spec fn deep_view(&self) -> ResolveFailure {
        ResolveFailure { kind: self.kind, node: self.node.deep_view(), reference: self.reference.deep_view() }
    }
}

/// The position of the first definition at or after `from` whose name is
/// `name`, or the number of definitions where there is none.
pub open spec fn def_at(defs: Seq<NamedModel<LexUserTypeModel>>, name: Seq<char>, from: int) -> int
    decreases defs.len() - from,
{
    if from < 0 || from >= defs.len() {
        defs.len() as int
    } else if defs[from].name == name {
        from
    } else {
        def_at(defs, name, from + 1)
    }
}

/// The position of the definition `name`, if it is among `defs`.
pub open spec fn def_index(defs: Seq<NamedModel<LexUserTypeModel>>, name: Seq<char>) -> Option<int> {
    if def_at(defs, name, 0) < defs.len() {
        Some(def_at(defs, name, 0))
    } else {
        None
    }
}

/// The position found holds the name.
pub proof fn lemma_def_at(defs: Seq<NamedModel<LexUserTypeModel>>, name: Seq<char>, from: int)
    requires
        0 <= from <= defs.len(),
    ensures
        from <= def_at(defs, name, from) <= defs.len(),
        def_at(defs, name, from) < defs.len() ==> defs[def_at(defs, name, from)].name == name,
    decreases defs.len() - from,
{
    if from < defs.len() && defs[from].name != name {
        lemma_def_at(defs, name, from + 1);
    }
}

/// The position of the definition `name` in `defs`.
pub fn find_def(defs: &Vec<Named<LexUserType>>, name: &str) -> (r: Option<usize>)
    ensures
        r.is_some() == def_index(defs.deep_view(), name@).is_some(),
        r matches Some(i) ==> def_index(defs.deep_view(), name@) == Some(i as int) && i < defs.len(),
{
    let ghost models = defs.deep_view();
    let mut i: usize = 0;
    while i < defs.len()
        invariant
            i <= defs.len(),
            models == defs.deep_view(),
            models.len() == defs.len(),
            def_at(models, name@, 0) == def_at(models, name@, i as int),
        decreases defs.len() - i,
    {
        assert(models[i as int].name == defs[i as int].name@);
        if same_text(defs[i].name.as_str(), name) {
            return Some(i);
        }
        i += 1;
    }
    None
}

/// The definition that a reference held in document `d` points at.
pub open spec fn resolve_target(docs: Seq<LexiconDocModel>, d: int, target: Seq<char>) -> Result<
    NodeModel,
    ResolveErrorKind,
> {
    match split_ref(target) {
        None => Err(ResolveErrorKind::InvalidRefSyntax),
        Some(t) => {
            let doc = match t.nsid {
                None => Some(d),
                Some(n) => doc_index(docs, n),
            };
            match doc {
                None => Err(ResolveErrorKind::DanglingRef),
                Some(i) => match def_index(docs[i].defs, t.name) {
                    None => Err(ResolveErrorKind::DanglingRef),
                    Some(k) => Ok(NodeModel { doc: i, def: k }),
                },
            }
        },
    }
}

/// Whether `node` is a definition of `docs`.
pub open spec fn node_in(docs: Seq<LexiconDocModel>, node: NodeModel) -> bool {
    0 <= node.doc < docs.len() && 0 <= node.def < docs[node.doc].defs.len()
}

/// Resolves a reference held in document `d`.
pub fn resolve_use(docs: &Vec<LexiconDoc>, d: usize, target: &str) -> (r: Result<NodeId, ResolveErrorKind>)
    requires
        d < docs.len(),
    ensures
        match r {
            Ok(node) => resolve_target(docs.deep_view(), d as int, target@) == Ok::<
                NodeModel,
                ResolveErrorKind,
            >(node.deep_view()) && node_in(docs.deep_view(), node.deep_view()),
            Err(kind) => resolve_target(docs.deep_view(), d as int, target@) == Err::<
                NodeModel,
                ResolveErrorKind,
            >(kind),
        },
{
    let ghost models = docs.deep_view();
    match parse_ref(target) {
        None => Err(ResolveErrorKind::InvalidRefSyntax),
        Some(t) => {
            let doc = match &t.nsid {
                None => Some(d),
                Some(n) => find_doc(docs, n.as_str()),
            };
            match doc {
                None => Err(ResolveErrorKind::DanglingRef),
                Some(i) => {
                    assert(models[i as int] == docs[i as int].deep_view());
                    match find_def(&docs[i].defs, t.name.as_str()) {
                        None => Err(ResolveErrorKind::DanglingRef),
                        Some(k) => Ok(NodeId { doc: i, def: k }),
                    }
                },
            }
        },
    }
}

/// The number of definitions in the first `d` documents: the number of
/// the first definition of document `d`.
pub open spec fn offset(docs: Seq<LexiconDocModel>, d: int) -> int
    decreases d,
{
    if d <= 0 {
        0
    } else {
        offset(docs, d - 1) + docs[d - 1].defs.len()
    }
}

/// The number of a definition among all definitions.
pub open spec fn node_number(docs: Seq<LexiconDocModel>, node: NodeModel) -> int {
    offset(docs, node.doc) + node.def
}

/// The definitions of the first `d` documents, in order.
pub open spec fn nodes_upto(docs: Seq<LexiconDocModel>, d: int) -> Seq<NodeModel>
    decreases d,
{
    if d <= 0 {
        Seq::empty()
    } else {
        nodes_upto(docs, d - 1) + Seq::new(
            docs[d - 1].defs.len(),
            |k: int| NodeModel { doc: d - 1, def: k },
        )
    }
}

/// The offsets do not fall from one document to the next.
pub proof fn lemma_offset_grows(docs: Seq<LexiconDocModel>, a: int, b: int)
    requires
        0 <= a <= b,
    ensures
        0 <= offset(docs, a) <= offset(docs, b),
    decreases b,
{
    if a < b {
        lemma_offset_grows(docs, a, b - 1);
    } else if a > 0 {
        lemma_offset_grows(docs, a - 1, a - 1);
    }
}

/// A definition of `docs` has a number below the number of all definitions.
pub proof fn lemma_node_number(docs: Seq<LexiconDocModel>, node: NodeModel)
    requires
        node_in(docs, node),
    ensures
        0 <= node_number(docs, node) < offset(docs, docs.len() as int),
{
    lemma_offset_grows(docs, node.doc, node.doc);
    lemma_offset_grows(docs, node.doc + 1, docs.len() as int);
}

/// The nodes of the first `d` documents are as many as the offset says.
pub proof fn lemma_nodes_len(docs: Seq<LexiconDocModel>, d: int)
    requires
        0 <= d <= docs.len(),
    ensures
        nodes_upto(docs, d).len() == offset(docs, d),
    decreases d,
{
    if d > 0 {
        lemma_nodes_len(docs, d - 1);
    }
}

/// Each node stands at its number.
pub proof fn lemma_node_at(docs: Seq<LexiconDocModel>, d: int, i: int, k: int)
    requires
        0 <= i < d <= docs.len(),
        0 <= k < docs[i].defs.len(),
    ensures
        0 <= offset(docs, i) + k < offset(docs, d),
        nodes_upto(docs, d).len() == offset(docs, d),
        nodes_upto(docs, d)[offset(docs, i) + k] == (NodeModel { doc: i, def: k }),
    decreases d,
{
    lemma_nodes_len(docs, d);
    lemma_nodes_len(docs, d - 1);
    lemma_offset_grows(docs, i, i);
    lemma_offset_grows(docs, i + 1, d);
    let first = nodes_upto(docs, d - 1);
    let added = Seq::new(docs[d - 1].defs.len(), |k: int| NodeModel { doc: d - 1, def: k });
    assert(nodes_upto(docs, d) == first + added);
    if i < d - 1 {
        lemma_node_at(docs, d - 1, i, k);
    } else {
        assert(added[k] == (NodeModel { doc: i, def: k }));
    }
}

/// The edge that one use of a reference makes, or why it makes none.
pub open spec fn use_edge(docs: Seq<LexiconDocModel>, d: int, k: int, u: RefUseModel) -> Result<
    EdgeModel,
    ResolveFailure,
> {
    match resolve_target(docs, d, u.target) {
        Err(kind) => Err(
            ResolveFailure { kind, node: NodeModel { doc: d, def: k }, reference: Some(u.target) },
        ),
        Ok(t) => Ok(
            EdgeModel {
                from: node_number(docs, NodeModel { doc: d, def: k }),
                to: node_number(docs, t),
                boundary: u.boundary,
            },
        ),
    }
}

/// The edges of the first `n` uses of a definition, or the first failure
/// among them.
pub open spec fn uses_edges(docs: Seq<LexiconDocModel>, d: int, k: int, uses: Seq<RefUseModel>, n: int) -> Result<
    Seq<EdgeModel>,
    ResolveFailure,
>
    decreases n,
{
    if n <= 0 {
        Ok(Seq::empty())
    } else {
        match uses_edges(docs, d, k, uses, n - 1) {
            Err(e) => Err(e),
            Ok(before) => match use_edge(docs, d, k, uses[n - 1]) {
                Err(e) => Err(e),
                Ok(edge) => Ok(before.push(edge)),
            },
        }
    }
}

/// The edges that leave definition `k` of document `d`.
pub open spec fn def_edges(docs: Seq<LexiconDocModel>, d: int, k: int) -> Result<Seq<EdgeModel>, ResolveFailure> {
    let uses = user_type_refs(docs[d].defs[k].value);
    uses_edges(docs, d, k, uses, uses.len() as int)
}

/// The edges that leave the first `n` definitions of document `d`.
pub open spec fn doc_edges(docs: Seq<LexiconDocModel>, d: int, n: int) -> Result<Seq<EdgeModel>, ResolveFailure>
    decreases n,
{
    if n <= 0 {
        Ok(Seq::empty())
    } else {
        match doc_edges(docs, d, n - 1) {
            Err(e) => Err(e),
            Ok(before) => match def_edges(docs, d, n - 1) {
                Err(e) => Err(e),
                Ok(edges) => Ok(before + edges),
            },
        }
    }
}

/// The edges that leave the definitions of the first `n` documents.
pub open spec fn corpus_edges(docs: Seq<LexiconDocModel>, n: int) -> Result<Seq<EdgeModel>, ResolveFailure>
    decreases n,
{
    if n <= 0 {
        Ok(Seq::empty())
    } else {
        match corpus_edges(docs, n - 1) {
            Err(e) => Err(e),
            Ok(before) => match doc_edges(docs, n - 1, docs[n - 1].defs.len() as int) {
                Err(e) => Err(e),
                Ok(edges) => Ok(before + edges),
            },
        }
    }
}

/// A failure among the first uses is the failure of the definition.
pub proof fn lemma_uses_edges_stays(
    docs: Seq<LexiconDocModel>,
    d: int,
    k: int,
    uses: Seq<RefUseModel>,
    m: int,
    n: int,
)
    requires
        m <= n,
        uses_edges(docs, d, k, uses, m) is Err,
    ensures
        uses_edges(docs, d, k, uses, n) == uses_edges(docs, d, k, uses, m),
    decreases n,
{
    if m < n {
        lemma_uses_edges_stays(docs, d, k, uses, m, n - 1);
    }
}

/// A failure among the first definitions is the failure of the document.
pub proof fn lemma_doc_edges_stays(docs: Seq<LexiconDocModel>, d: int, m: int, n: int)
    requires
        m <= n,
        doc_edges(docs, d, m) is Err,
    ensures
        doc_edges(docs, d, n) == doc_edges(docs, d, m),
    decreases n,
{
    if m < n {
        lemma_doc_edges_stays(docs, d, m, n - 1);
    }
}

/// A failure among the first documents is the failure of the corpus.
pub proof fn lemma_corpus_edges_stays(docs: Seq<LexiconDocModel>, m: int, n: int)
    requires
        m <= n,
        corpus_edges(docs, m) is Err,
    ensures
        corpus_edges(docs, n) == corpus_edges(docs, m),
    decreases n,
{
    if m < n {
        lemma_corpus_edges_stays(docs, m, n - 1);
    }
}

/// The graph of a registry: its nodes, the number of the first node of
/// each document, and its edges.
pub struct GraphModel {
    pub nodes: Seq<NodeModel>,
    pub offsets: Seq<int>,
    pub edges: Seq<EdgeModel>,
}

/// The offsets of the documents, and after them the number of all nodes.
pub open spec fn offsets_of(docs: Seq<LexiconDocModel>) -> Seq<int> {
    Seq::new(docs.len() + 1, |i: int| offset(docs, i))
}

/// What resolving a registry comes to: the first reference, in the order
/// of documents, definitions and uses, that is ill formed or dangling; else the first definition
/// that has no finite form, if there is one; else the graph.
pub open spec fn graph_of(docs: Seq<LexiconDocModel>) -> Result<GraphModel, ResolveFailure> {
    let nodes = nodes_upto(docs, docs.len() as int);
    match corpus_edges(docs, docs.len() as int) {
        Err(e) => Err(e),
        Ok(edges) => if first_endless(edges, nodes.len() as int, 0) < nodes.len() {
            Err(
                ResolveFailure {
                    kind: ResolveErrorKind::CyclicTypeExpansion,
                    node: nodes[first_endless(edges, nodes.len() as int, 0)],
                    reference: None,
                },
            )
        } else {
            Ok(GraphModel { nodes, offsets: offsets_of(docs), edges })
        },
    }
}

/// Whether a reference held in document `d` points inside the corpus: a
/// well-formed reference names a registered document, or none, and a
/// definition of that document. An ill-formed reference points nowhere.
pub open spec fn points_inside(docs: Seq<LexiconDocModel>, d: int, target: Seq<char>) -> bool {
    match split_ref(target) {
        None => true,
        Some(t) => match t.nsid {
            None => def_index(docs[d].defs, t.name).is_some(),
            Some(n) => doc_index(docs, n).is_some() && def_index(
                docs[doc_index(docs, n).unwrap()].defs,
                t.name,
            ).is_some(),
        },
    }
}

/// Whether use `i` of definition `k` of document `d` points inside the
/// corpus.
pub open spec fn use_inside(docs: Seq<LexiconDocModel>, d: int, k: int, i: int) -> bool {
    points_inside(docs, d, user_type_refs(docs[d].defs[k].value)[i].target)
}

/// Whether no reference of any definition points outside the corpus.
pub open spec fn self_contained(docs: Seq<LexiconDocModel>) -> bool {
    forall|d: int, k: int, i: int|
        0 <= d < docs.len() && 0 <= k < docs[d].defs.len() && 0 <= i < user_type_refs(
            docs[d].defs[k].value,
        ).len() ==> #[trigger] use_inside(docs, d, k, i)
}

proof fn lemma_uses_not_dangling(docs: Seq<LexiconDocModel>, d: int, k: int, n: int)
    requires
        self_contained(docs),
        0 <= d < docs.len(),
        0 <= k < docs[d].defs.len(),
        0 <= n <= user_type_refs(docs[d].defs[k].value).len(),
    ensures
        uses_edges(docs, d, k, user_type_refs(docs[d].defs[k].value), n) matches Err(e) ==> e.kind
            != ResolveErrorKind::DanglingRef,
    decreases n,
{
    if n > 0 {
        lemma_uses_not_dangling(docs, d, k, n - 1);
        assert(use_inside(docs, d, k, n - 1));
    }
}

proof fn lemma_doc_not_dangling(docs: Seq<LexiconDocModel>, d: int, n: int)
    requires
        self_contained(docs),
        0 <= d < docs.len(),
        0 <= n <= docs[d].defs.len(),
    ensures
        doc_edges(docs, d, n) matches Err(e) ==> e.kind != ResolveErrorKind::DanglingRef,
    decreases n,
{
    if n > 0 {
        lemma_doc_not_dangling(docs, d, n - 1);
        lemma_uses_not_dangling(docs, d, n - 1, user_type_refs(docs[d].defs[n - 1].value).len() as int);
    }
}

proof fn lemma_corpus_not_dangling(docs: Seq<LexiconDocModel>, n: int)
    requires
        self_contained(docs),
        0 <= n <= docs.len(),
    ensures
        corpus_edges(docs, n) matches Err(e) ==> e.kind != ResolveErrorKind::DanglingRef,
    decreases n,
{
    if n > 0 {
        lemma_corpus_not_dangling(docs, n - 1);
        lemma_doc_not_dangling(docs, n - 1, docs[n - 1].defs.len() as int);
    }
}

/// A corpus none of whose references points outside it is never reported
/// to hold a dangling reference.
pub proof fn lemma_self_contained_never_dangles(docs: Seq<LexiconDocModel>)
    requires
        self_contained(docs),
    ensures
        graph_of(docs) matches Err(e) ==> e.kind != ResolveErrorKind::DanglingRef,
{
    lemma_corpus_not_dangling(docs, docs.len() as int);
}

/// The resolved reference graph of a registry.
#[derive(Debug)]
pub struct RefGraph {
    nodes: Vec<NodeId>,
    offsets: Vec<usize>,
    edges: Vec<Edge>,
}

impl View for RefGraph {
    type V = GraphModel;

    closed spec fn view(&self) -> GraphModel {
        GraphModel {
            nodes: self.nodes.deep_view(),
            offsets: Seq::new(self.offsets.len() as nat, |i: int| self.offsets[i] as int),
            edges: self.edges.deep_view(),
        }
    }
}

impl RefGraph {
    /// The nodes, each at its number.
    pub fn nodes(&self) -> (r: &Vec<NodeId>)
        ensures
            r.deep_view() == self@.nodes,
    {
        &self.nodes
    }

    /// The edges: document by document, definition by definition, and for
    /// each definition in the order of its uses.
    pub fn edges(&self) -> (r: &Vec<Edge>)
        ensures
            r.deep_view() == self@.edges,
    {
        &self.edges
    }

    /// The number of the first node of each document, and after them the
    /// number of all nodes.
    pub fn offsets(&self) -> (r: &Vec<usize>)
        ensures
            r.len() == self@.offsets.len(),
            forall|i: int| 0 <= i < r.len() ==> r[i] as int == #[trigger] self@.offsets[i],
    {
        &self.offsets
    }
}

/// Appends the edges that leave definition `k` of document `d`.
fn def_edges_into(docs: &Vec<LexiconDoc>, offsets: &Vec<usize>, d: usize, k: usize, edges: &mut Vec<Edge>) -> (r:
    Result<(), ResolveError>)
    requires
        d < docs.len(),
        k < docs[d as int].defs.len(),
        offsets.len() == docs.len() + 1,
        forall|i: int| 0 <= i <= docs.len() ==> #[trigger] offsets[i] as int == offset(docs.deep_view(), i),
        edges_within(old(edges).deep_view(), offset(docs.deep_view(), docs.len() as int)),
    ensures
        match r {
            Ok(_) => def_edges(docs.deep_view(), d as int, k as int) is Ok && final(edges).deep_view() == old(
                edges,
            ).deep_view() + def_edges(docs.deep_view(), d as int, k as int)->Ok_0 && edges_within(
                final(edges).deep_view(),
                offset(docs.deep_view(), docs.len() as int),
            ),
            Err(e) => def_edges(docs.deep_view(), d as int, k as int) == Err::<Seq<EdgeModel>, ResolveFailure>(
                e.deep_view(),
            ),
        },
{
    let ghost models = docs.deep_view();
    let ghost total = offset(models, models.len() as int);
    let ghost before = edges.deep_view();
    assert(models[d as int] == docs[d as int].deep_view());
    assert(models[d as int].defs[k as int] == docs[d as int].defs[k as int].deep_view());
    let uses = collect_refs(&docs[d].defs[k].value);
    let ghost umodels = uses.deep_view();
    proof {
        lemma_node_number(models, NodeModel { doc: d as int, def: k as int });
        assert(offsets[docs.len() as int] as int == total);
        assert(offsets[d as int] as int == offset(models, d as int));
    }
    let from: usize = offsets[d] + k;
    let mut i: usize = 0;
    assert(edges.deep_view() =~= before + Seq::<EdgeModel>::empty());
    while i < uses.len()
        invariant
            i <= uses.len(),
            d < docs.len(),
            models == docs.deep_view(),
            total == offset(models, models.len() as int),
            umodels == uses.deep_view(),
            umodels.len() == uses.len(),
            umodels == user_type_refs(models[d as int].defs[k as int].value),
            offsets.len() == docs.len() + 1,
            forall|j: int| 0 <= j <= docs.len() ==> #[trigger] offsets[j] as int == offset(models, j),
            from as int == node_number(models, NodeModel { doc: d as int, def: k as int }),
            0 <= from < total,
            uses_edges(models, d as int, k as int, umodels, i as int) is Ok,
            edges.deep_view() == before + uses_edges(models, d as int, k as int, umodels, i as int)->Ok_0,
            edges_within(edges.deep_view(), total),
        decreases uses.len() - i,
    {
        assert(umodels[i as int] == uses[i as int].deep_view());
        match resolve_use(docs, d, uses[i].target.as_str()) {
            Err(kind) => {
                proof {
                    assert(uses_edges(models, d as int, k as int, umodels, i + 1) is Err);
                    lemma_uses_edges_stays(models, d as int, k as int, umodels, i + 1, umodels.len() as int);
                }
                return Err(
                    ResolveError {
                        kind,
                        node: NodeId { doc: d, def: k },
                        reference: Some(uses[i].target.clone()),
                    },
                );
            },
            Ok(node) => {
                proof {
                    lemma_node_number(models, node.deep_view());
                    assert(offsets[docs.len() as int] as int == total);
                    assert(offsets[node.doc as int] as int == offset(models, node.doc as int));
                }
                let to: usize = offsets[node.doc] + node.def;
                let ghost sofar = edges.deep_view();
                let edge = Edge { from, to, boundary: uses[i].boundary };
                edges.push(edge);
                assert(edges.deep_view() =~= sofar.push(edge.deep_view()));
                assert(edges.deep_view() =~= before + uses_edges(
                    models,
                    d as int,
                    k as int,
                    umodels,
                    i + 1,
                )->Ok_0);
            },
        }
        i += 1;
    }
    Ok(())
}

/// Resolves every reference of a sealed registry.
///
/// The result is the graph of the registry, or the failure that
/// [`graph_of`] names.
pub fn resolve(registry: &SealedRegistry) -> (r: Result<RefGraph, ResolveError>)
    ensures
        match r {
            Ok(g) => graph_of(registry@) == Ok::<GraphModel, ResolveFailure>(g@),
            Err(e) => graph_of(registry@) == Err::<GraphModel, ResolveFailure>(e.deep_view()),
        },
{
    let docs = registry.all();
    let ghost models = docs.deep_view();
    let ghost total = offset(models, models.len() as int);
    // The nodes, and the number of the first node of each document.
    let mut nodes: Vec<NodeId> = Vec::new();
    let mut offsets: Vec<usize> = Vec::new();
    let mut d: usize = 0;
    assert(nodes.deep_view() =~= nodes_upto(models, 0));
    while d < docs.len()
        invariant
            d <= docs.len(),
            models == docs.deep_view(),
            models.len() == docs.len(),
            offsets.len() == d,
            nodes.deep_view() == nodes_upto(models, d as int),
            nodes.len() == offset(models, d as int),
            forall|i: int| 0 <= i < d ==> #[trigger] offsets[i] as int == offset(models, i),
        decreases docs.len() - d,
    {
        assert(models[d as int] == docs[d as int].deep_view());
        offsets.push(nodes.len());
        let ghost before = nodes.deep_view();
        let ghost added = Seq::new(models[d as int].defs.len(), |k: int| NodeModel { doc: d as int, def: k });
        let mut k: usize = 0;
        assert(nodes.deep_view() =~= before + added.subrange(0, 0));
        while k < docs[d].defs.len()
            invariant
                d < docs.len(),
                k <= docs[d as int].defs.len(),
                models == docs.deep_view(),
                models[d as int].defs.len() == docs[d as int].defs.len(),
                added == Seq::new(models[d as int].defs.len(), |k: int| NodeModel { doc: d as int, def: k }),
                nodes.deep_view() == before + added.subrange(0, k as int),
                nodes.len() == before.len() + k,
            decreases docs[d as int].defs.len() - k,
        {
            let ghost sofar = nodes.deep_view();
            nodes.push(NodeId { doc: d, def: k });
            assert(nodes.deep_view() =~= sofar.push(NodeModel { doc: d as int, def: k as int }));
            assert(added.subrange(0, k + 1) =~= added.subrange(0, k as int).push(added[k as int]));
            k += 1;
            assert(nodes.deep_view() =~= before + added.subrange(0, k as int));
        }
        assert(added.subrange(0, k as int) =~= added);
        d += 1;
    }
    offsets.push(nodes.len());
    // The edges.
    let mut edges: Vec<Edge> = Vec::new();
    assert(edges.deep_view() =~= Seq::<EdgeModel>::empty());
    let mut d: usize = 0;
    while d < docs.len()
        invariant
            d <= docs.len(),
            models == docs.deep_view(),
            models == registry@,
            models.len() == docs.len(),
            total == offset(models, models.len() as int),
            offsets.len() == docs.len() + 1,
            forall|i: int| 0 <= i <= docs.len() ==> #[trigger] offsets[i] as int == offset(models, i),
            corpus_edges(models, d as int) == Ok::<Seq<EdgeModel>, ResolveFailure>(edges.deep_view()),
            edges_within(edges.deep_view(), total),
        decreases docs.len() - d,
    {
        assert(models[d as int] == docs[d as int].deep_view());
        let ghost before = edges.deep_view();
        let mut k: usize = 0;
        assert(edges.deep_view() =~= before + Seq::<EdgeModel>::empty());
        while k < docs[d].defs.len()
            invariant
                d < docs.len(),
                k <= docs[d as int].defs.len(),
                models == docs.deep_view(),
                models == registry@,
                models.len() == docs.len(),
                models[d as int].defs.len() == docs[d as int].defs.len(),
                total == offset(models, models.len() as int),
                offsets.len() == docs.len() + 1,
                forall|i: int| 0 <= i <= docs.len() ==> #[trigger] offsets[i] as int == offset(models, i),
                corpus_edges(models, d as int) == Ok::<Seq<EdgeModel>, ResolveFailure>(before),
                doc_edges(models, d as int, k as int) is Ok,
                edges.deep_view() == before + doc_edges(models, d as int, k as int)->Ok_0,
                edges_within(edges.deep_view(), total),
            decreases docs[d as int].defs.len() - k,
        {
            let ghost sofar = doc_edges(models, d as int, k as int)->Ok_0;
            match def_edges_into(docs, &offsets, d, k, &mut edges) {
                Err(e) => {
                    proof {
                        let failure = Err::<Seq<EdgeModel>, ResolveFailure>(e.deep_view());
                        assert(def_edges(models, d as int, k as int) == failure);
                        assert(doc_edges(models, d as int, k + 1) == failure);
                        lemma_doc_edges_stays(models, d as int, k + 1, models[d as int].defs.len() as int);
                        assert(doc_edges(models, d as int, models[d as int].defs.len() as int) == failure);
                        assert(corpus_edges(models, d + 1) == failure);
                        lemma_corpus_edges_stays(models, d + 1, models.len() as int);
                    }
                    return Err(e);
                },
                Ok(_) => {
                    assert(edges.deep_view() =~= before + (sofar + def_edges(models, d as int, k as int)->Ok_0));
                },
            }
            k += 1;
        }
        d += 1;
    }
    match find_endless_nesting(nodes.len(), &edges) {
        Some(v) => {
            assert(nodes.deep_view()[v as int] == nodes[v as int].deep_view());
            Err(ResolveError { kind: ResolveErrorKind::CyclicTypeExpansion, node: nodes[v], reference: None })
        },
        None => {
            let g = RefGraph { nodes, offsets, edges };
            assert(g@.offsets =~= offsets_of(models));
            Ok(g)
        },
    }
}

} // verus!
