//! The whole run: every source is parsed on its own; the documents are
//! then registered, resolved and generated together, and the first failure
//! of these later phases stops the run.

use vstd::prelude::*;
use crate::ast::{LexiconDoc, LexiconDocModel};
use crate::decode::{parse_lexicon_doc, parse_outcome};
use crate::generate::{Generation, GenerationModel, generate, generation_of};
use crate::reader::{Failure, ParseError};
use crate::registry::{DuplicateNsid, Registry, SealedRegistry, doc_index};
use crate::resolve::{GraphModel, RefGraph, ResolveError, ResolveFailure, graph_of, resolve};

verus! {

/// One source: a label, used only to name the source in a report, and
/// the text of a document.
#[derive(Debug, Clone, PartialEq, Eq)]
pub struct Source {
    pub label: String,
    pub text: String,
}

/// The mathematical value of a [`Source`].
pub struct SourceModel {
    pub label: Seq<char>,
    pub text: Seq<char>,
}

impl DeepView for Source {
    type V = SourceModel;

    open spec fn deep_view(&self) -> SourceModel {
        SourceModel { label: self.label@, text: self.text@ }
    }
}

/// A source that was read.
#[derive(Debug, Clone, PartialEq, Eq)]
pub struct Parsed {
    pub label: String,
    pub doc: LexiconDoc,
}

/// The mathematical value of a [`Parsed`].
pub struct ParsedModel {
    pub label: Seq<char>,
    pub doc: LexiconDocModel,
}

impl DeepView for Parsed {
    type V = ParsedModel;

    open spec fn deep_view(&self) -> ParsedModel {
        ParsedModel { label: self.label@, doc: self.doc.deep_view() }
    }
}

/// A source that was not read, and why.
#[derive(Debug, Clone, PartialEq, Eq)]
pub struct Failed {
    pub label: String,
    pub error: ParseError,
}

/// The mathematical value of a [`Failed`].
pub struct FailedModel {
    pub label: Seq<char>,
    pub error: Failure,
}

impl DeepView for Failed {
    type V = FailedModel;

    open spec fn deep_view(&self) -> FailedModel {
        FailedModel { label: self.label@, error: self.error.deep_view() }
    }
}

/// What became of a batch of sources.
#[derive(Debug, Clone, PartialEq, Eq)]
pub struct Report {
    pub parsed: Vec<Parsed>,
    pub failed: Vec<Failed>,
}

/// The documents read from the first `n` sources, in their order.
pub open spec fn parsed_upto(sources: Seq<SourceModel>, n: int) -> Seq<ParsedModel>
    decreases n,
{
    if n <= 0 {
        Seq::empty()
    } else {
        match parse_outcome(sources[n - 1].text) {
            Ok(doc) => parsed_upto(sources, n - 1).push(ParsedModel { label: sources[n - 1].label, doc }),
            Err(_) => parsed_upto(sources, n - 1),
        }
    }
}

/// The failures among the first `n` sources, in their order.
pub open spec fn failed_upto(sources: Seq<SourceModel>, n: int) -> Seq<FailedModel>
    decreases n,
{
    if n <= 0 {
        Seq::empty()
    } else {
        match parse_outcome(sources[n - 1].text) {
            Ok(_) => failed_upto(sources, n - 1),
            Err(error) => failed_upto(sources, n - 1).push(FailedModel { label: sources[n - 1].label, error }),
        }
    }
}

/// Parses every source on its own. A source that fails does not stop
/// the others: each source is in the report, among the documents or among
/// the failures.
pub fn parse_all(sources: &Vec<Source>) -> (r: Report)
    ensures
        r.parsed.deep_view() == parsed_upto(sources.deep_view(), sources.len() as int),
        r.failed.deep_view() == failed_upto(sources.deep_view(), sources.len() as int),
{
    let ghost models = sources.deep_view();
    let mut parsed: Vec<Parsed> = Vec::new();
    let mut failed: Vec<Failed> = Vec::new();
    assert(parsed.deep_view() =~= Seq::empty());
    assert(failed.deep_view() =~= Seq::empty());
    let mut i: usize = 0;
    while i < sources.len()
        invariant
            i <= sources.len(),
            models == sources.deep_view(),
            models.len() == sources.len(),
            parsed.deep_view() == parsed_upto(models, i as int),
            failed.deep_view() == failed_upto(models, i as int),
        decreases sources.len() - i,
    {
        assert(models[i as int] == sources[i as int].deep_view());
        match parse_lexicon_doc(sources[i].text.as_str()) {
            Ok(doc) => {
                let ghost before = parsed.deep_view();
                let entry = Parsed { label: sources[i].label.clone(), doc };
                let ghost model = entry.deep_view();
                parsed.push(entry);
                assert(parsed.deep_view() =~= before.push(model));
            },
            Err(error) => {
                let ghost before = failed.deep_view();
                let entry = Failed { label: sources[i].label.clone(), error };
                let ghost model = entry.deep_view();
                failed.push(entry);
                assert(failed.deep_view() =~= before.push(model));
            },
        }
        i += 1;
    }
    Report { parsed, failed }
}

/// The identifier of the first among the first `n` documents that shares
/// its identifier with a document before it.
pub open spec fn first_duplicate(docs: Seq<LexiconDocModel>, n: int) -> Option<Seq<char>>
    decreases n,
{
    if n <= 0 {
        None
    } else {
        match first_duplicate(docs, n - 1) {
            Some(id) => Some(id),
            None => if doc_index(docs.subrange(0, n - 1), docs[n - 1].id).is_some() {
                Some(docs[n - 1].id)
            } else {
                None
            },
        }
    }
}

/// A duplicate among the first documents is the first duplicate of all.
pub proof fn lemma_first_duplicate_stays(docs: Seq<LexiconDocModel>, m: int, n: int)
    requires
        m <= n,
        first_duplicate(docs, m) is Some,
    ensures
        first_duplicate(docs, n) == first_duplicate(docs, m),
    decreases n,
{
    if m < n {
        lemma_first_duplicate_stays(docs, m, n - 1);
    }
}

/// Registers the documents in their order and seals the registry. The
/// first document whose identifier is taken stops the run.
pub fn register_all(docs: Vec<LexiconDoc>) -> (r: Result<SealedRegistry, DuplicateNsid>)
    ensures
        match r {
            Ok(registry) => first_duplicate(docs.deep_view(), docs.len() as int) is None && registry@
                == docs.deep_view(),
            Err(e) => first_duplicate(docs.deep_view(), docs.len() as int) == Some(e.nsid@),
        },
{
    let ghost all = docs.deep_view();
    let mut rest = docs;
    let mut registry = Registry::new();
    assert(registry@ =~= all.subrange(0, 0));
    assert(rest.deep_view() =~= all.subrange(0, all.len() as int));
    let ghost mut done: int = 0;
    while rest.len() > 0
        invariant
            all == docs.deep_view(),
            all.len() == docs.len(),
            0 <= done <= all.len(),
            rest.len() == all.len() - done,
            rest.deep_view() == all.subrange(done, all.len() as int),
            registry@ == all.subrange(0, done),
            first_duplicate(all, done) is None,
        decreases rest.len(),
    {
        let ghost before = rest.deep_view();
        let doc = rest.remove(0);
        assert(doc.deep_view() == before[0]);
        assert(before[0] == all[done]);
        assert(rest.deep_view() =~= all.subrange(done + 1, all.len() as int)) by {
            assert(rest.deep_view() =~= before.remove(0));
        }
        match registry.register(doc) {
            Err(e) => {
                proof {
                    assert(first_duplicate(all, done + 1) == Some(e.nsid@));
                    lemma_first_duplicate_stays(all, done + 1, all.len() as int);
                }
                return Err(e);
            },
            Ok(_) => {
                assert(registry@ =~= all.subrange(0, done + 1));
            },
        }
        proof {
            done = done + 1;
        }
    }
    assert(all.subrange(0, all.len() as int) =~= all);
    Ok(registry.seal())
}

/// Why a corpus was not compiled: a failure that stops the whole run.
#[derive(Debug, Clone, PartialEq, Eq)]
pub enum CompileError {
    Duplicate(DuplicateNsid),
    Resolve(ResolveError),
}

/// The mathematical value of a [`CompileError`].
pub enum CompileFailure {
    Duplicate(Seq<char>),
    Resolve(ResolveFailure),
}

impl DeepView for CompileError {
    type V = CompileFailure;

    open spec fn deep_view(&self) -> CompileFailure {
        match self {
            CompileError::Duplicate(e) => CompileFailure::Duplicate(e.nsid@),
            CompileError::Resolve(e) => CompileFailure::Resolve(e.deep_view()),
        }
    }
}

/// A compiled corpus: the sealed registry, its graph and what was
/// generated for it, document by document.
#[derive(Debug)]
pub struct Compiled {
    pub registry: SealedRegistry,
    pub graph: RefGraph,
    pub generation: Generation,
}

/// The mathematical value of a [`Compiled`].
pub struct CompiledModel {
    pub docs: Seq<LexiconDocModel>,
    pub graph: GraphModel,
    pub generation: GenerationModel,
}

impl View for Compiled {
    type V = CompiledModel;

    open spec fn view(&self) -> CompiledModel {
        CompiledModel { docs: self.registry@, graph: self.graph@, generation: self.generation.deep_view() }
    }
}

/// What compiling a list of documents comes to: the first failure of
/// registration or resolution, which stop the run; else the graph and
/// what generation makes of each document.
pub open spec fn compilation_of(docs: Seq<LexiconDocModel>) -> Result<CompiledModel, CompileFailure> {
    match first_duplicate(docs, docs.len() as int) {
        Some(id) => Err(CompileFailure::Duplicate(id)),
        None => match graph_of(docs) {
            Err(e) => Err(CompileFailure::Resolve(e)),
            Ok(graph) => Ok(CompiledModel { docs, graph, generation: generation_of(docs) }),
        },
    }
}

/// Registers the documents, resolves their references and generates
/// their declarations. A document that does not generate is reported in
/// the generation and does not stop the others.
pub fn compile(docs: Vec<LexiconDoc>) -> (r: Result<Compiled, CompileError>)
    ensures
        match r {
            Ok(c) => compilation_of(docs.deep_view()) == Ok::<CompiledModel, CompileFailure>(c@),
            Err(e) => compilation_of(docs.deep_view()) == Err::<CompiledModel, CompileFailure>(e.deep_view()),
        },
{
    let registry = match register_all(docs) {
        Err(e) => {
            return Err(CompileError::Duplicate(e));
        },
        Ok(registry) => registry,
    };
    let graph = match resolve(&registry) {
        Err(e) => {
            return Err(CompileError::Resolve(e));
        },
        Ok(graph) => graph,
    };
    let generation = generate(&registry, &graph);
    Ok(Compiled { registry, graph, generation })
}

} // verus!
