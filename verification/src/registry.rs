//! The registry of documents: filled once, then sealed and only read.

use vstd::prelude::*;
use crate::ast::{LexiconDoc, LexiconDocModel};
use crate::text::same_text;

verus! {

/// The position of the first document at or after `from` whose identifier
/// is `nsid`, or the number of documents where there is none.
pub open spec fn doc_at(docs: Seq<LexiconDocModel>, nsid: Seq<char>, from: int) -> int
    decreases docs.len() - from,
{
    if from < 0 || from >= docs.len() {
        docs.len() as int
    } else if docs[from].id == nsid {
        from
    } else {
        doc_at(docs, nsid, from + 1)
    }
}

/// The position of the document `nsid`, if it is among `docs`.
pub open spec fn doc_index(docs: Seq<LexiconDocModel>, nsid: Seq<char>) -> Option<int> {
    if doc_at(docs, nsid, 0) < docs.len() {
        Some(doc_at(docs, nsid, 0))
    } else {
        None
    }
}

/// No two documents share an identifier.
pub open spec fn distinct_ids(docs: Seq<LexiconDocModel>) -> bool {
    forall|i: int, j: int| 0 <= i < j < docs.len() ==> (#[trigger] docs[i]).id != (#[trigger] docs[j]).id
}

/// The position found holds the identifier, and none before it does.
pub proof fn lemma_doc_at(docs: Seq<LexiconDocModel>, nsid: Seq<char>, from: int)
    requires
        0 <= from <= docs.len(),
    ensures
        from <= doc_at(docs, nsid, from) <= docs.len(),
        doc_at(docs, nsid, from) < docs.len() ==> docs[doc_at(docs, nsid, from)].id == nsid,
        forall|k: int| from <= k < doc_at(docs, nsid, from) ==> (#[trigger] docs[k]).id != nsid,
    decreases docs.len() - from,
{
    if from < docs.len() && docs[from].id != nsid {
        lemma_doc_at(docs, nsid, from + 1);
    }
}

/// A document that was held out: its identifier is already registered.
#[derive(Debug, Clone, PartialEq, Eq)]
pub struct DuplicateNsid {
    pub nsid: String,
}

/// The position of the document `nsid` in `docs`.
pub fn find_doc(docs: &Vec<LexiconDoc>, nsid: &str) -> (r: Option<usize>)
    ensures
        r.is_some() == doc_index(docs.deep_view(), nsid@).is_some(),
        r matches Some(i) ==> doc_index(docs.deep_view(), nsid@) == Some(i as int) && i < docs.len(),
{
    let ghost models = docs.deep_view();
    let mut i: usize = 0;
    while i < docs.len()
        invariant
            i <= docs.len(),
            models == docs.deep_view(),
            models.len() == docs.len(),
            doc_at(models, nsid@, 0) == doc_at(models, nsid@, i as int),
        decreases docs.len() - i,
    {
        assert(models[i as int].id == docs[i as int].id@);
        if same_text(docs[i].id.as_str(), nsid) {
            return Some(i);
        }
        i += 1;
    }
    None
}

/// The documents of one run, each under its own identifier, in the order in
/// which they were registered.
#[derive(Debug)]
pub struct Registry {
    docs: Vec<LexiconDoc>,
}

/// A registry that takes no more documents.
#[derive(Debug)]
pub struct SealedRegistry {
    docs: Vec<LexiconDoc>,
}

impl View for Registry {
    type V = Seq<LexiconDocModel>;

    closed spec fn view(&self) -> Seq<LexiconDocModel> {
        self.docs.deep_view()
    }
}

impl View for SealedRegistry {
    type V = Seq<LexiconDocModel>;

    closed spec fn view(&self) -> Seq<LexiconDocModel> {
        self.docs.deep_view()
    }
}

impl Registry {
    #[verifier::type_invariant]
    closed spec fn inv(self) -> bool {
        distinct_ids(self.docs.deep_view())
    }

    /// A registry with no document.
    pub fn new() -> (r: Registry)
        ensures
            r@ == Seq::<LexiconDocModel>::empty(),
    {
        let r = Registry { docs: Vec::new() };
        assert(r.docs.deep_view() =~= Seq::empty());
        r
    }

    /// Adds `doc` unless its identifier is taken. A document held out leaves
    /// the registry as it was.
    pub fn register(&mut self, doc: LexiconDoc) -> (r: Result<(), DuplicateNsid>)
        ensures
            match r {
                Ok(_) => doc_index(old(self)@, doc.id@).is_none() && final(self)@ == old(self)@.push(
                    doc.deep_view(),
                ),
                Err(e) => doc_index(old(self)@, doc.id@).is_some() && final(self)@ == old(self)@ && e.nsid@
                    == doc.id@,
            },
    {
        proof {
            use_type_invariant(&*self);
            lemma_doc_at(self@, doc.id@, 0);
        }
        match find_doc(&self.docs, doc.id.as_str()) {
            Some(_) => Err(DuplicateNsid { nsid: doc.id.clone() }),
            None => {
                let ghost before = self.docs.deep_view();
                let ghost model = doc.deep_view();
                let mut taken = Registry { docs: Vec::new() };
                assert(taken.docs.deep_view() =~= Seq::empty());
                core::mem::swap(self, &mut taken);
                let mut docs = taken.docs;
                docs.push(doc);
                assert(docs.deep_view() =~= before.push(model));
                *self = Registry { docs };
                Ok(())
            },
        }
    }

    /// The document `nsid`, if it is registered.
    pub fn lookup(&self, nsid: &str) -> (r: Option<&LexiconDoc>)
        ensures
            match r {
                Some(d) => doc_index(self@, nsid@).is_some() && d.deep_view() == self@[doc_index(
                    self@,
                    nsid@,
                ).unwrap()],
                None => doc_index(self@, nsid@).is_none(),
            },
    {
        match find_doc(&self.docs, nsid) {
            Some(i) => Some(&self.docs[i]),
            None => None,
        }
    }

    /// The registered documents in the order of their registration. No two
    /// of them share an identifier.
    pub fn all(&self) -> (r: &Vec<LexiconDoc>)
        ensures
            r.deep_view() == self@,
            distinct_ids(self@),
    {
        proof {
            use_type_invariant(self);
        }
        &self.docs
    }

    /// Closes the registry: the same documents, from now on only read.
    pub fn seal(self) -> (r: SealedRegistry)
        ensures
            r@ == self@,
    {
        proof {
            use_type_invariant(&self);
        }
        SealedRegistry { docs: self.docs }
    }
}

impl SealedRegistry {
    #[verifier::type_invariant]
    closed spec fn inv(self) -> bool {
        distinct_ids(self.docs.deep_view())
    }

    /// The document `nsid`, if it is registered.
    pub fn lookup(&self, nsid: &str) -> (r: Option<&LexiconDoc>)
        ensures
            match r {
                Some(d) => doc_index(self@, nsid@).is_some() && d.deep_view() == self@[doc_index(
                    self@,
                    nsid@,
                ).unwrap()],
                None => doc_index(self@, nsid@).is_none(),
            },
    {
        match find_doc(&self.docs, nsid) {
            Some(i) => Some(&self.docs[i]),
            None => None,
        }
    }

    /// The registered documents in the order of their registration. No two
    /// of them share an identifier.
    pub fn all(&self) -> (r: &Vec<LexiconDoc>)
        ensures
            r.deep_view() == self@,
            distinct_ids(self@),
    {
        proof {
            use_type_invariant(self);
        }
        &self.docs
    }
}

} // verus!
