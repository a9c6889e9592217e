//! The generator: one declaration for each definition, under an
//! identifier that nothing else in the corpus claims. A method also
//! claims the identifiers of its parts. A document one of whose
//! definitions cannot be declared is reported; the others are generated.

use vstd::prelude::*;
use crate::ast::{LexUserType, LexUserTypeModel, LexiconDoc, LexiconDocModel};
use crate::ir::{IrNode, IrNodeModel};
use crate::linked::lemma_resolved_generation;
use crate::mapper::{MapError, ir_node, map_def};
use crate::names::{identifier, make_identifier};
use crate::registry::SealedRegistry;
use crate::resolve::{
    GraphModel, NodeId, NodeModel, RefGraph, ResolveFailure, graph_of, lemma_node_at, node_in,
    nodes_upto, offset,
};

verus! {

/// Why a document was not generated.
#[derive(Debug, Clone, Copy, PartialEq, Eq, Structural)]
pub enum GenErrorKind {
    /// A lower bound of a definition exceeds its upper bound.
    InvalidConstraintRange,
    /// A definition claims an identifier that another definition claims.
    IdentifierCollision,
    /// A reference of a definition does not resolve. This does not arise
    /// for a corpus whose graph exists.
    UnresolvedRef,
}

/// A failed declaration: the definition at fault, and for a collision the
/// other definition that claims the same identifier.
#[derive(Debug, Clone, Copy, PartialEq, Eq)]
pub struct GenError {
    pub kind: GenErrorKind,
    pub first: NodeId,
    pub second: Option<NodeId>,
}

/// The mathematical value of a [`GenError`].
pub struct GenFailure {
    pub kind: GenErrorKind,
    pub first: NodeModel,
    pub second: Option<NodeModel>,
}

impl DeepView for GenError {
    type V = GenFailure;

    open spec fn deep_view(&self) -> GenFailure {
        GenFailure { kind: self.kind, first: self.first.deep_view(), second: self.second.deep_view() }
    }
}

/// The parts of a method that are declared beside it.
#[derive(Debug, Clone, Copy, PartialEq, Eq, Structural)]
pub enum PartKind {
    Params,
    Input,
    Output,
    Message,
    Error,
}

impl DeepView for PartKind {
    type V = PartKind;

    open spec fn deep_view(&self) -> PartKind {
        *self
    }
}

/// A part of a method with the identifier it is declared under.
#[derive(Debug, Clone, PartialEq, Eq)]
pub struct Part {
    pub kind: PartKind,
    pub identifier: String,
}

/// The mathematical value of a [`Part`].
pub struct PartModel {
    pub kind: PartKind,
    pub identifier: Seq<char>,
}

impl DeepView for Part {
    type V = PartModel;

    open spec fn deep_view(&self) -> PartModel {
        PartModel { kind: self.kind, identifier: self.identifier@ }
    }
}

/// An identifier and the definition that claims it.
#[derive(Debug, Clone, PartialEq, Eq)]
pub struct Claim {
    pub node: NodeId,
    pub name: String,
}

/// The mathematical value of a [`Claim`].
pub struct ClaimModel {
    pub node: NodeModel,
    pub name: Seq<char>,
}

impl DeepView for Claim {
    type V = ClaimModel;

    open spec fn deep_view(&self) -> ClaimModel {
        ClaimModel { node: self.node.deep_view(), name: self.name@ }
    }
}

/// The declaration of one definition: its identifier, the identifiers of
/// its parts where it is a method, and its intermediate form.
#[derive(Debug, Clone, PartialEq, Eq)]
pub struct Declaration {
    pub identifier: String,
    pub node: NodeId,
    pub parts: Vec<Part>,
    pub body: IrNode,
}

/// The mathematical value of a [`Declaration`].
pub struct DeclarationModel {
    pub identifier: Seq<char>,
    pub node: NodeModel,
    pub parts: Seq<PartModel>,
    pub body: IrNodeModel,
}

impl DeepView for Declaration {
    type V = DeclarationModel;

    open spec fn deep_view(&self) -> DeclarationModel {
        DeclarationModel {
            identifier: self.identifier@,
            node: self.node.deep_view(),
            parts: self.parts.deep_view(),
            body: self.body.deep_view(),
        }
    }
}

/// What is generated for one document: its declarations in the order of
/// its definitions.
#[derive(Debug, Clone, PartialEq, Eq)]
pub struct Artifact {
    pub doc: usize,
    pub nsid: String,
    pub declarations: Vec<Declaration>,
}

/// The mathematical value of an [`Artifact`].
pub struct ArtifactModel {
    pub doc: int,
    pub nsid: Seq<char>,
    pub declarations: Seq<DeclarationModel>,
}

impl DeepView for Artifact {
    type V = ArtifactModel;

    open spec fn deep_view(&self) -> ArtifactModel {
        ArtifactModel { doc: self.doc as int, nsid: self.nsid@, declarations: self.declarations.deep_view() }
    }
}

/// A document that was not generated, and the failure of its first
/// definition that cannot be declared.
#[derive(Debug, Clone, PartialEq, Eq)]
pub struct FailedDoc {
    pub doc: usize,
    pub nsid: String,
    pub error: GenError,
}

/// The mathematical value of a [`FailedDoc`].
pub struct FailedDocModel {
    pub doc: int,
    pub nsid: Seq<char>,
    pub error: GenFailure,
}

impl DeepView for FailedDoc {
    type V = FailedDocModel;

    open spec fn deep_view(&self) -> FailedDocModel {
        FailedDocModel { doc: self.doc as int, nsid: self.nsid@, error: self.error.deep_view() }
    }
}

/// What is generated for a corpus: the identifier of every node, by its
/// number; one artifact for each document that is generated; and the
/// documents that are not, each with its failure.
#[derive(Debug, Clone, PartialEq, Eq)]
pub struct Generation {
    pub names: Vec<String>,
    pub artifacts: Vec<Artifact>,
    pub failed: Vec<FailedDoc>,
}

/// The mathematical value of a [`Generation`].
pub struct GenerationModel {
    pub names: Seq<Seq<char>>,
    pub artifacts: Seq<ArtifactModel>,
    pub failed: Seq<FailedDocModel>,
}

impl DeepView for Generation {
    type V = GenerationModel;

    open spec fn deep_view(&self) -> GenerationModel {
        GenerationModel {
            names: self.names.deep_view(),
            artifacts: self.artifacts.deep_view(),
            failed: self.failed.deep_view(),
        }
    }
}

/// The identifier generated for a node.
pub open spec fn node_identifier(docs: Seq<LexiconDocModel>, node: NodeModel) -> Seq<char> {
    identifier(docs[node.doc].id, docs[node.doc].defs[node.def].name)
}

/// The identifiers of the given nodes.
pub open spec fn identifiers_of(docs: Seq<LexiconDocModel>, nodes: Seq<NodeModel>) -> Seq<Seq<char>> {
    Seq::new(nodes.len(), |i: int| node_identifier(docs, nodes[i]))
}

/// The identifier of every node of the corpus, by its number.
pub open spec fn all_identifiers(docs: Seq<LexiconDocModel>) -> Seq<Seq<char>> {
    identifiers_of(docs, nodes_upto(docs, docs.len() as int))
}

/// The word that names a part.
pub open spec fn part_word(kind: PartKind) -> Seq<char> {
    match kind {
        PartKind::Params => "params"@,
        PartKind::Input => "input"@,
        PartKind::Output => "output"@,
        PartKind::Message => "message"@,
        PartKind::Error => "error"@,
    }
}

/// The identifier of a part of the method declared as `owner`: the
/// identifier of the method, `_`, and the word of the part.
pub open spec fn part_identifier(owner: Seq<char>, kind: PartKind) -> Seq<char> {
    owner.push('_') + part_word(kind)
}

/// The parts that a definition is declared with: those of its method
/// shape, none for any other definition.
pub open spec fn part_kinds(def: LexUserTypeModel) -> Seq<PartKind> {
    match def {
        LexUserTypeModel::XrpcQuery(_) => seq![PartKind::Params, PartKind::Output, PartKind::Error],
        LexUserTypeModel::XrpcProcedure(_) => seq![
            PartKind::Params,
            PartKind::Input,
            PartKind::Output,
            PartKind::Error,
        ],
        LexUserTypeModel::XrpcSubscription(_) => seq![PartKind::Params, PartKind::Message, PartKind::Error],
        _ => Seq::empty(),
    }
}

/// The given parts of the method declared as `owner`.
pub open spec fn parts_of(owner: Seq<char>, kinds: Seq<PartKind>) -> Seq<PartModel> {
    Seq::new(kinds.len(), |i: int| PartModel { kind: kinds[i], identifier: part_identifier(owner, kinds[i]) })
}

/// The parts of a node, each with its identifier.
pub open spec fn node_parts(docs: Seq<LexiconDocModel>, node: NodeModel) -> Seq<PartModel> {
    parts_of(node_identifier(docs, node), part_kinds(docs[node.doc].defs[node.def].value))
}

/// The claims that the given parts make for `node`.
pub open spec fn part_claims(node: NodeModel, parts: Seq<PartModel>) -> Seq<ClaimModel> {
    Seq::new(parts.len(), |i: int| ClaimModel { node, name: parts[i].identifier })
}

/// The identifiers that a node claims: its own, then those of its parts.
pub open spec fn node_claims(docs: Seq<LexiconDocModel>, node: NodeModel) -> Seq<ClaimModel> {
    seq![ClaimModel { node, name: node_identifier(docs, node) }] + part_claims(node, node_parts(docs, node))
}

/// The claims of the first `n` of the given nodes.
pub open spec fn claims_upto(docs: Seq<LexiconDocModel>, nodes: Seq<NodeModel>, n: int) -> Seq<ClaimModel>
    decreases n,
{
    if n <= 0 {
        Seq::empty()
    } else {
        claims_upto(docs, nodes, n - 1) + node_claims(docs, nodes[n - 1])
    }
}

/// The claims of all nodes of the corpus, node by node.
pub open spec fn all_claims(docs: Seq<LexiconDocModel>) -> Seq<ClaimModel> {
    let nodes = nodes_upto(docs, docs.len() as int);
    claims_upto(docs, nodes, nodes.len() as int)
}

/// Whether one of the claims `own` is for `name`.
pub open spec fn claimed(own: Seq<ClaimModel>, name: Seq<char>) -> bool {
    exists|t: int| 0 <= t < own.len() && (#[trigger] own[t]).name == name
}

/// Whether claim `q` is made by another node than `node` for an identifier
/// that `own` holds.
pub open spec fn is_rival(claims: Seq<ClaimModel>, own: Seq<ClaimModel>, node: NodeModel, q: int) -> bool {
    claims[q].node != node && claimed(own, claims[q].name)
}

/// The first claim at or after `from` that another node makes for an
/// identifier that `own` holds, or the number of claims where there is
/// none.
pub open spec fn rival_from(claims: Seq<ClaimModel>, own: Seq<ClaimModel>, node: NodeModel, from: int) -> int
    decreases claims.len() - from,
{
    if from < 0 || from >= claims.len() {
        claims.len() as int
    } else if is_rival(claims, own, node, from) {
        from
    } else {
        rival_from(claims, own, node, from + 1)
    }
}

/// The rival found is one, and no claim before it is.
pub proof fn lemma_rival_from(claims: Seq<ClaimModel>, own: Seq<ClaimModel>, node: NodeModel, from: int)
    requires
        0 <= from <= claims.len(),
    ensures
        from <= rival_from(claims, own, node, from) <= claims.len(),
        rival_from(claims, own, node, from) < claims.len() ==> is_rival(
            claims,
            own,
            node,
            rival_from(claims, own, node, from),
        ),
        forall|q: int| from <= q < rival_from(claims, own, node, from) ==> !is_rival(claims, own, node, q),
    decreases claims.len() - from,
{
    if from < claims.len() && !is_rival(claims, own, node, from) {
        lemma_rival_from(claims, own, node, from + 1);
    }
}

/// The kind of a failed declaration that a failed mapping leads to.
pub open spec fn kind_of(e: MapError) -> GenErrorKind {
    match e {
        MapError::InvalidConstraintRange => GenErrorKind::InvalidConstraintRange,
        MapError::UnresolvedRef => GenErrorKind::UnresolvedRef,
    }
}

/// The declaration of definition `k` of document `d` among the given
/// claims: a collision where another node claims one of its identifiers,
/// else the failure of its mapping, else its declaration.
pub open spec fn declaration_of(docs: Seq<LexiconDocModel>, claims: Seq<ClaimModel>, d: int, k: int) -> Result<
    DeclarationModel,
    GenFailure,
> {
    let node = NodeModel { doc: d, def: k };
    let rival = rival_from(claims, node_claims(docs, node), node, 0);
    if rival < claims.len() {
        Err(GenFailure { kind: GenErrorKind::IdentifierCollision, first: node, second: Some(claims[rival].node) })
    } else {
        match ir_node(docs, d, docs[d].defs[k].value) {
            Err(e) => Err(GenFailure { kind: kind_of(e), first: node, second: None }),
            Ok(body) => Ok(
                DeclarationModel {
                    identifier: node_identifier(docs, node),
                    node,
                    parts: node_parts(docs, node),
                    body,
                },
            ),
        }
    }
}

/// The declarations of the first `n` definitions of document `d`, or the
/// first failure among them.
pub open spec fn declarations_of(docs: Seq<LexiconDocModel>, claims: Seq<ClaimModel>, d: int, n: int) -> Result<
    Seq<DeclarationModel>,
    GenFailure,
>
    decreases n,
{
    if n <= 0 {
        Ok(Seq::empty())
    } else {
        match declarations_of(docs, claims, d, n - 1) {
            Err(e) => Err(e),
            Ok(before) => match declaration_of(docs, claims, d, n - 1) {
                Err(e) => Err(e),
                Ok(decl) => Ok(before.push(decl)),
            },
        }
    }
}

/// What generation makes of document `d`: its declarations, or the
/// failure of its first definition that cannot be declared.
pub open spec fn document_of(docs: Seq<LexiconDocModel>, claims: Seq<ClaimModel>, d: int) -> Result<
    Seq<DeclarationModel>,
    GenFailure,
> {
    declarations_of(docs, claims, d, docs[d].defs.len() as int)
}

/// The artifacts of those of the first `n` documents that are generated.
pub open spec fn artifacts_upto(docs: Seq<LexiconDocModel>, claims: Seq<ClaimModel>, n: int) -> Seq<ArtifactModel>
    decreases n,
{
    if n <= 0 {
        Seq::empty()
    } else {
        match document_of(docs, claims, n - 1) {
            Ok(declarations) => artifacts_upto(docs, claims, n - 1).push(
                ArtifactModel { doc: n - 1, nsid: docs[n - 1].id, declarations },
            ),
            Err(_) => artifacts_upto(docs, claims, n - 1),
        }
    }
}

/// Those of the first `n` documents that are not generated, each with its
/// failure.
pub open spec fn failures_upto(docs: Seq<LexiconDocModel>, claims: Seq<ClaimModel>, n: int) -> Seq<FailedDocModel>
    decreases n,
{
    if n <= 0 {
        Seq::empty()
    } else {
        match document_of(docs, claims, n - 1) {
            Ok(_) => failures_upto(docs, claims, n - 1),
            Err(error) => failures_upto(docs, claims, n - 1).push(
                FailedDocModel { doc: n - 1, nsid: docs[n - 1].id, error },
            ),
        }
    }
}

/// A failure among the first definitions is the failure of the document.
pub proof fn lemma_declarations_stays(docs: Seq<LexiconDocModel>, claims: Seq<ClaimModel>, d: int, m: int, n: int)
    requires
        m <= n,
        declarations_of(docs, claims, d, m) is Err,
    ensures
        declarations_of(docs, claims, d, n) == declarations_of(docs, claims, d, m),
    decreases n,
{
    if m < n {
        lemma_declarations_stays(docs, claims, d, m, n - 1);
    }
}

/// What generation comes to for a corpus: the identifier of every node,
/// the artifacts of the documents that are generated and the failures of
/// the others. Every document is in one of the two lists.
pub open spec fn generation_of(docs: Seq<LexiconDocModel>) -> GenerationModel {
    let claims = all_claims(docs);
    GenerationModel {
        names: all_identifiers(docs),
        artifacts: artifacts_upto(docs, claims, docs.len() as int),
        failed: failures_upto(docs, claims, docs.len() as int),
    }
}

/// Every node of the first `d` documents is a definition of the corpus.
pub proof fn lemma_nodes_valid(docs: Seq<LexiconDocModel>, d: int)
    requires
        0 <= d <= docs.len(),
    ensures
        forall|i: int| 0 <= i < nodes_upto(docs, d).len() ==> node_in(docs, #[trigger] nodes_upto(docs, d)[i]),
    decreases d,
{
    if d > 0 {
        lemma_nodes_valid(docs, d - 1);
        let first = nodes_upto(docs, d - 1);
        let added = Seq::new(docs[d - 1].defs.len(), |k: int| NodeModel { doc: d - 1, def: k });
        assert(nodes_upto(docs, d) == first + added);
        assert forall|i: int| 0 <= i < nodes_upto(docs, d).len() implies node_in(
            docs,
            #[trigger] nodes_upto(docs, d)[i],
        ) by {
            if i < first.len() {
                assert(nodes_upto(docs, d)[i] == first[i]);
            } else {
                assert(nodes_upto(docs, d)[i] == added[i - first.len()]);
            }
        }
    }
}

/// Every claim of each of the first `n` nodes is among their claims.
pub proof fn lemma_claim_listed(docs: Seq<LexiconDocModel>, nodes: Seq<NodeModel>, n: int, i: int, t: int)
    requires
        0 <= i < n <= nodes.len(),
        0 <= t < node_claims(docs, nodes[i]).len(),
    ensures
        exists|q: int|
            0 <= q < claims_upto(docs, nodes, n).len() && #[trigger] claims_upto(docs, nodes, n)[q]
                == node_claims(docs, nodes[i])[t],
    decreases n,
{
    let before = claims_upto(docs, nodes, n - 1);
    let last = node_claims(docs, nodes[n - 1]);
    let whole = claims_upto(docs, nodes, n);
    assert(whole == before + last);
    if i < n - 1 {
        lemma_claim_listed(docs, nodes, n - 1, i, t);
        let q = choose|q: int| 0 <= q < before.len() && #[trigger] before[q] == node_claims(docs, nodes[i])[t];
        assert(whole[q] == before[q]);
    } else {
        assert(whole[before.len() + t] == last[t]);
    }
}

/// Two definitions that claim one identifier are both refused with a
/// collision, and their documents are not generated: no declaration is
/// ever overwritten.
pub proof fn lemma_collision_is_reported(docs: Seq<LexiconDocModel>, a: NodeModel, b: NodeModel, t: int, u: int)
    requires
        node_in(docs, a),
        node_in(docs, b),
        a != b,
        0 <= t < node_claims(docs, a).len(),
        0 <= u < node_claims(docs, b).len(),
        node_claims(docs, a)[t].name == node_claims(docs, b)[u].name,
    ensures
        declaration_of(docs, all_claims(docs), a.doc, a.def) matches Err(e) && e.kind
            == GenErrorKind::IdentifierCollision,
        document_of(docs, all_claims(docs), a.doc) is Err,
{
    let n = docs.len() as int;
    let nodes = nodes_upto(docs, n);
    let claims = all_claims(docs);
    let own = node_claims(docs, a);
    lemma_node_at(docs, n, b.doc, b.def);
    let i = offset(docs, b.doc) + b.def;
    assert(nodes[i] == b);
    lemma_claim_listed(docs, nodes, nodes.len() as int, i, u);
    let q = choose|q: int| 0 <= q < claims.len() && #[trigger] claims[q] == node_claims(docs, b)[u];
    assert(claims[q].node == b);
    assert(own[t].name == claims[q].name);
    assert(is_rival(claims, own, a, q));
    lemma_rival_from(claims, own, a, 0);
    assert(declarations_of(docs, claims, a.doc, a.def + 1) is Err);
    lemma_declarations_stays(docs, claims, a.doc, a.def + 1, docs[a.doc].defs.len() as int);
}

/// The words of the parts are pairwise different.
proof fn lemma_part_words_differ(a: PartKind, b: PartKind)
    requires
        a != b,
    ensures
        part_word(a) != part_word(b),
{
    reveal_strlit("params");
    reveal_strlit("input");
    reveal_strlit("output");
    reveal_strlit("message");
    reveal_strlit("error");
    assert("params"@.len() == 6 && "params"@[0] == 'p');
    assert("input"@.len() == 5 && "input"@[0] == 'i');
    assert("output"@.len() == 6 && "output"@[0] == 'o');
    assert("message"@.len() == 7);
    assert("error"@.len() == 5 && "error"@[0] == 'e');
}

/// Two parts of one method have different identifiers, and neither has
/// the identifier of the method.
proof fn lemma_part_identifiers_differ(owner: Seq<char>, a: PartKind, b: PartKind)
    ensures
        part_identifier(owner, a) != owner,
        a != b ==> part_identifier(owner, a) != part_identifier(owner, b),
{
    let x = part_identifier(owner, a);
    let y = part_identifier(owner, b);
    assert(x.len() == owner.len() + 1 + part_word(a).len());
    if a != b {
        lemma_part_words_differ(a, b);
        if x == y {
            assert(x.subrange(owner.len() as int + 1, x.len() as int) =~= part_word(a));
            assert(y.subrange(owner.len() as int + 1, y.len() as int) =~= part_word(b));
        }
    }
}

/// The identifiers that one definition claims are pairwise different.
pub proof fn lemma_own_names_differ(docs: Seq<LexiconDocModel>, node: NodeModel, t: int, u: int)
    requires
        0 <= t < u < node_claims(docs, node).len(),
    ensures
        node_claims(docs, node)[t].name != node_claims(docs, node)[u].name,
{
    let owner = node_identifier(docs, node);
    let kinds = part_kinds(docs[node.doc].defs[node.def].value);
    let parts = node_parts(docs, node);
    let claims = node_claims(docs, node);
    assert(claims[u].name == parts[u - 1].identifier);
    lemma_part_identifiers_differ(owner, kinds[u - 1], kinds[u - 1]);
    if t > 0 {
        assert(claims[t].name == parts[t - 1].identifier);
        assert(kinds[t - 1] != kinds[u - 1]);
        lemma_part_identifiers_differ(owner, kinds[t - 1], kinds[u - 1]);
    }
}

/// Two definitions that are both declared claim no identifier in common.
pub proof fn lemma_declared_names_differ(docs: Seq<LexiconDocModel>, a: NodeModel, b: NodeModel, t: int, u: int)
    requires
        node_in(docs, a),
        node_in(docs, b),
        a != b,
        declaration_of(docs, all_claims(docs), a.doc, a.def) is Ok,
        0 <= t < node_claims(docs, a).len(),
        0 <= u < node_claims(docs, b).len(),
    ensures
        node_claims(docs, a)[t].name != node_claims(docs, b)[u].name,
{
    if node_claims(docs, a)[t].name == node_claims(docs, b)[u].name {
        lemma_collision_is_reported(docs, a, b, t, u);
    }
}

/// The identifier of every node, by its number.
fn node_names(docs: &Vec<LexiconDoc>, nodes: &Vec<NodeId>) -> (names: Vec<String>)
    requires
        nodes.deep_view() == nodes_upto(docs.deep_view(), docs.len() as int),
    ensures
        names.deep_view() == all_identifiers(docs.deep_view()),
{
    let ghost models = docs.deep_view();
    let ghost nm = nodes.deep_view();
    proof {
        lemma_nodes_valid(models, models.len() as int);
    }
    let mut names: Vec<String> = Vec::new();
    let mut i: usize = 0;
    while i < nodes.len()
        invariant
            i <= nodes.len(),
            models == docs.deep_view(),
            models.len() == docs.len(),
            nm == nodes.deep_view(),
            nm.len() == nodes.len(),
            nm == nodes_upto(models, models.len() as int),
            forall|k: int| 0 <= k < nm.len() ==> node_in(models, #[trigger] nm[k]),
            names.len() == i,
            forall|k: int| 0 <= k < i ==> (#[trigger] names[k])@ == node_identifier(models, nm[k]),
        decreases nodes.len() - i,
    {
        assert(nm[i as int] == nodes[i as int].deep_view());
        assert(node_in(models, nm[i as int]));
        let node = nodes[i];
        assert(models[node.doc as int] == docs[node.doc as int].deep_view());
        let doc = &docs[node.doc];
        assert(models[node.doc as int].defs[node.def as int] == doc.defs[node.def as int].deep_view());
        names.push(make_identifier(doc.id.as_str(), doc.defs[node.def].name.as_str()));
        i += 1;
    }
    assert(names.deep_view() =~= all_identifiers(models));
    names
}

/// The identifier of a part of the method declared as `owner`.
pub fn make_part_identifier(owner: &str, kind: PartKind) -> (r: String)
    ensures
        r@ == part_identifier(owner@, kind),
{
    let mut out = String::from_str(owner);
    out.push('_');
    let word = match kind {
        PartKind::Params => "params",
        PartKind::Input => "input",
        PartKind::Output => "output",
        PartKind::Message => "message",
        PartKind::Error => "error",
    };
    out.append(word);
    out
}

/// The parts that a definition is declared with.
fn kinds_of_parts(def: &LexUserType) -> (r: Vec<PartKind>)
    ensures
        r@ == part_kinds(def.deep_view()),
{
    let mut out: Vec<PartKind> = Vec::new();
    match def {
        LexUserType::XrpcQuery(_) => {
            out.push(PartKind::Params);
            out.push(PartKind::Output);
            out.push(PartKind::Error);
        },
        LexUserType::XrpcProcedure(_) => {
            out.push(PartKind::Params);
            out.push(PartKind::Input);
            out.push(PartKind::Output);
            out.push(PartKind::Error);
        },
        LexUserType::XrpcSubscription(_) => {
            out.push(PartKind::Params);
            out.push(PartKind::Message);
            out.push(PartKind::Error);
        },
        _ => {},
    }
    assert(out@ =~= part_kinds(def.deep_view()));
    out
}

/// The parts of the definition declared as `owner`, each with its
/// identifier.
pub fn make_parts(owner: &str, def: &LexUserType) -> (r: Vec<Part>)
    ensures
        r.deep_view() == parts_of(owner@, part_kinds(def.deep_view())),
{
    let kinds = kinds_of_parts(def);
    let mut out: Vec<Part> = Vec::new();
    let mut i: usize = 0;
    while i < kinds.len()
        invariant
            i <= kinds.len(),
            kinds@ == part_kinds(def.deep_view()),
            out.len() == i,
            forall|k: int|
                0 <= k < i ==> (#[trigger] out[k]).deep_view() == (PartModel {
                    kind: kinds[k],
                    identifier: part_identifier(owner@, kinds[k]),
                }),
        decreases kinds.len() - i,
    {
        out.push(Part { kind: kinds[i], identifier: make_part_identifier(owner, kinds[i]) });
        i += 1;
    }
    assert(out.deep_view() =~= parts_of(owner@, kinds@));
    out
}

/// The identifiers that definition `node` claims.
fn claims_of_node(docs: &Vec<LexiconDoc>, node: NodeId) -> (r: Vec<Claim>)
    requires
        node_in(docs.deep_view(), node.deep_view()),
    ensures
        r.deep_view() == node_claims(docs.deep_view(), node.deep_view()),
{
    let ghost models = docs.deep_view();
    assert(models[node.doc as int] == docs[node.doc as int].deep_view());
    let doc = &docs[node.doc];
    assert(models[node.doc as int].defs[node.def as int] == doc.defs[node.def as int].deep_view());
    let own = make_identifier(doc.id.as_str(), doc.defs[node.def].name.as_str());
    let parts = make_parts(own.as_str(), &doc.defs[node.def].value);
    let ghost pm = parts.deep_view();
    let mut out: Vec<Claim> = Vec::new();
    out.push(Claim { node, name: own });
    let mut i: usize = 0;
    while i < parts.len()
        invariant
            i <= parts.len(),
            pm == parts.deep_view(),
            pm.len() == parts.len(),
            out.len() == i + 1,
            out[0].deep_view() == (ClaimModel {
                node: node.deep_view(),
                name: node_identifier(models, node.deep_view()),
            }),
            forall|k: int|
                0 <= k < i ==> (#[trigger] out[k + 1]).deep_view() == (ClaimModel {
                    node: node.deep_view(),
                    name: pm[k].identifier,
                }),
        decreases parts.len() - i,
    {
        assert(pm[i as int] == parts[i as int].deep_view());
        out.push(Claim { node, name: parts[i].identifier.clone() });
        i += 1;
    }
    assert(out.deep_view() =~= node_claims(models, node.deep_view())) by {
        let want = node_claims(models, node.deep_view());
        assert(want.len() == pm.len() + 1);
        assert forall|k: int| 0 <= k < want.len() implies out.deep_view()[k] == want[k] by {
            if k > 0 {
                assert(out[(k - 1) + 1].deep_view() == want[k]);
            }
        }
    }
    out
}

/// The claims of all nodes, node by node.
fn collect_claims(docs: &Vec<LexiconDoc>, nodes: &Vec<NodeId>) -> (claims: Vec<Claim>)
    requires
        nodes.deep_view() == nodes_upto(docs.deep_view(), docs.len() as int),
    ensures
        claims.deep_view() == all_claims(docs.deep_view()),
{
    let ghost models = docs.deep_view();
    let ghost nm = nodes.deep_view();
    proof {
        lemma_nodes_valid(models, models.len() as int);
    }
    let mut claims: Vec<Claim> = Vec::new();
    assert(claims.deep_view() =~= claims_upto(models, nm, 0));
    let mut i: usize = 0;
    while i < nodes.len()
        invariant
            i <= nodes.len(),
            models == docs.deep_view(),
            nm == nodes.deep_view(),
            nm.len() == nodes.len(),
            nm == nodes_upto(models, models.len() as int),
            forall|k: int| 0 <= k < nm.len() ==> node_in(models, #[trigger] nm[k]),
            claims.deep_view() == claims_upto(models, nm, i as int),
        decreases nodes.len() - i,
    {
        assert(nm[i as int] == nodes[i as int].deep_view());
        assert(node_in(models, nm[i as int]));
        let mut own = claims_of_node(docs, nodes[i]);
        let ghost before = claims.deep_view();
        let ghost added = own.deep_view();
        claims.append(&mut own);
        assert(claims.deep_view() =~= before + added);
        i += 1;
    }
    claims
}

/// Whether one of the claims `own` is for `name`.
fn is_claimed(own: &Vec<Claim>, name: &String) -> (r: bool)
    ensures
        r == claimed(own.deep_view(), name@),
{
    let ghost om = own.deep_view();
    let mut t: usize = 0;
    while t < own.len()
        invariant
            t <= own.len(),
            om == own.deep_view(),
            om.len() == own.len(),
            forall|k: int| 0 <= k < t ==> (#[trigger] om[k]).name != name@,
        decreases own.len() - t,
    {
        assert(om[t as int] == own[t as int].deep_view());
        if own[t].name == *name {
            assert(om[t as int].name == name@);
            return true;
        }
        t += 1;
    }
    false
}

/// The first claim that another node makes for an identifier that `own`
/// holds.
fn find_rival(claims: &Vec<Claim>, own: &Vec<Claim>, node: NodeId) -> (r: Option<usize>)
    ensures
        match r {
            Some(q) => q < claims.len() && rival_from(claims.deep_view(), own.deep_view(), node.deep_view(), 0)
                == q,
            None => rival_from(claims.deep_view(), own.deep_view(), node.deep_view(), 0) == claims.len(),
        },
{
    let ghost cm = claims.deep_view();
    let ghost om = own.deep_view();
    let mut q: usize = 0;
    while q < claims.len()
        invariant
            q <= claims.len(),
            cm == claims.deep_view(),
            cm.len() == claims.len(),
            om == own.deep_view(),
            rival_from(cm, om, node.deep_view(), 0) == rival_from(cm, om, node.deep_view(), q as int),
        decreases claims.len() - q,
    {
        assert(cm[q as int] == claims[q as int].deep_view());
        let other = claims[q].node.doc != node.doc || claims[q].node.def != node.def;
        if other && is_claimed(own, &claims[q].name) {
            return Some(q);
        }
        q += 1;
    }
    None
}

/// The declaration of definition `k` of document `d`.
fn declare(docs: &Vec<LexiconDoc>, claims: &Vec<Claim>, d: usize, k: usize) -> (r: Result<Declaration, GenError>)
    requires
        d < docs.len(),
        k < docs[d as int].defs.len(),
    ensures
        match r {
            Ok(decl) => declaration_of(docs.deep_view(), claims.deep_view(), d as int, k as int) == Ok::<
                DeclarationModel,
                GenFailure,
            >(decl.deep_view()),
            Err(e) => declaration_of(docs.deep_view(), claims.deep_view(), d as int, k as int) == Err::<
                DeclarationModel,
                GenFailure,
            >(e.deep_view()),
        },
{
    let ghost models = docs.deep_view();
    let ghost cm = claims.deep_view();
    let doc = &docs[d];
    assert(models[d as int] == doc.deep_view());
    assert(models[d as int].defs[k as int] == doc.defs[k as int].deep_view());
    let node = NodeId { doc: d, def: k };
    let own = claims_of_node(docs, node);
    match find_rival(claims, &own, node) {
        Some(q) => {
            assert(cm[q as int] == claims[q as int].deep_view());
            Err(GenError { kind: GenErrorKind::IdentifierCollision, first: node, second: Some(claims[q].node) })
        },
        None => match map_def(docs, d, &doc.defs[k].value) {
            Err(e) => {
                let kind = match e {
                    MapError::InvalidConstraintRange => GenErrorKind::InvalidConstraintRange,
                    MapError::UnresolvedRef => GenErrorKind::UnresolvedRef,
                };
                Err(GenError { kind, first: node, second: None })
            },
            Ok(body) => {
                let identifier = make_identifier(doc.id.as_str(), doc.defs[k].name.as_str());
                let parts = make_parts(identifier.as_str(), &doc.defs[k].value);
                Ok(Declaration { identifier, node, parts, body })
            },
        },
    }
}

/// The declarations of one document.
fn generate_doc(docs: &Vec<LexiconDoc>, claims: &Vec<Claim>, d: usize) -> (r: Result<Vec<Declaration>, GenError>)
    requires
        d < docs.len(),
    ensures
        match r {
            Ok(a) => document_of(docs.deep_view(), claims.deep_view(), d as int) == Ok::<
                Seq<DeclarationModel>,
                GenFailure,
            >(a.deep_view()),
            Err(e) => document_of(docs.deep_view(), claims.deep_view(), d as int) == Err::<
                Seq<DeclarationModel>,
                GenFailure,
            >(e.deep_view()),
        },
{
    let ghost models = docs.deep_view();
    let ghost cm = claims.deep_view();
    assert(models[d as int] == docs[d as int].deep_view());
    let count: usize = docs[d].defs.len();
    let mut declarations: Vec<Declaration> = Vec::new();
    assert(declarations.deep_view() =~= Seq::empty());
    let mut k: usize = 0;
    while k < count
        invariant
            k <= count,
            d < docs.len(),
            models == docs.deep_view(),
            cm == claims.deep_view(),
            count == docs[d as int].defs.len(),
            count == models[d as int].defs.len(),
            declarations_of(models, cm, d as int, k as int) == Ok::<Seq<DeclarationModel>, GenFailure>(
                declarations.deep_view(),
            ),
        decreases count - k,
    {
        match declare(docs, claims, d, k) {
            Err(e) => {
                proof {
                    assert(declarations_of(models, cm, d as int, k + 1) is Err);
                    lemma_declarations_stays(models, cm, d as int, k + 1, count as int);
                }
                return Err(e);
            },
            Ok(decl) => {
                let ghost before = declarations.deep_view();
                let ghost dm = decl.deep_view();
                declarations.push(decl);
                assert(declarations.deep_view() =~= before.push(dm));
            },
        }
        k += 1;
    }
    Ok(declarations)
}

/// Generates the declarations of a resolved corpus.
///
/// The result is what [`generation_of`] names: the identifier of every
/// node, one artifact for each document that is generated, and the
/// failure of each document that is not. A document fails for a collision
/// of identifiers or an inverted range of one of its definitions, and for
/// nothing else, as the corpus resolves.
pub fn generate(registry: &SealedRegistry, graph: &RefGraph) -> (g: Generation)
    requires
        graph_of(registry@) == Ok::<GraphModel, ResolveFailure>(graph@),
    ensures
        g.deep_view() == generation_of(registry@),
        forall|i: int|
            0 <= i < g.failed.len() ==> (#[trigger] g.failed[i]).error.kind == GenErrorKind::IdentifierCollision
                || g.failed[i].error.kind == GenErrorKind::InvalidConstraintRange,
{
    let docs = registry.all();
    let nodes = graph.nodes();
    let ghost models = docs.deep_view();
    let names = node_names(docs, nodes);
    let claims = collect_claims(docs, nodes);
    let ghost cm = claims.deep_view();
    let mut artifacts: Vec<Artifact> = Vec::new();
    let mut failed: Vec<FailedDoc> = Vec::new();
    assert(artifacts.deep_view() =~= Seq::empty());
    assert(failed.deep_view() =~= Seq::empty());
    let mut d: usize = 0;
    while d < docs.len()
        invariant
            d <= docs.len(),
            models == docs.deep_view(),
            models == registry@,
            models.len() == docs.len(),
            cm == claims.deep_view(),
            cm == all_claims(models),
            artifacts.deep_view() == artifacts_upto(models, cm, d as int),
            failed.deep_view() == failures_upto(models, cm, d as int),
        decreases docs.len() - d,
    {
        assert(models[d as int] == docs[d as int].deep_view());
        match generate_doc(docs, &claims, d) {
            Ok(declarations) => {
                let ghost before = artifacts.deep_view();
                let a = Artifact { doc: d, nsid: docs[d].id.clone(), declarations };
                let ghost am = a.deep_view();
                artifacts.push(a);
                assert(artifacts.deep_view() =~= before.push(am));
            },
            Err(error) => {
                let ghost before = failed.deep_view();
                let f = FailedDoc { doc: d, nsid: docs[d].id.clone(), error };
                let ghost fm = f.deep_view();
                failed.push(f);
                assert(failed.deep_view() =~= before.push(fm));
            },
        }
        d += 1;
    }
    let g = Generation { names, artifacts, failed };
    proof {
        lemma_resolved_generation(models);
        assert forall|i: int| 0 <= i < g.failed.len() implies (#[trigger] g.failed[i]).error.kind
            == GenErrorKind::IdentifierCollision || g.failed[i].error.kind
            == GenErrorKind::InvalidConstraintRange by {
            assert(g.failed.deep_view()[i] == g.failed[i].deep_view());
        }
    }
    g
}

} // verus!
