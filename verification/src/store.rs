//! The document store: the latest known full text and version per open
//! document.
//!
//! The store is purely in-memory and rebuilt from scratch each process
//! lifetime.  Documents are owned exclusively by the store: a record is
//! created on open, replaced wholesale on each change, and dropped when
//! the session shuts down.  A replacement must carry a strictly larger
//! version than the stored one; stale deliveries are rejected rather than
//! allowed to corrupt the store.

use vstd::prelude::*;

verus! {

/// One tracked document: its identifier, its full current text, and the
/// editor-supplied version of that text.
#[derive(Debug)]
pub struct Document {
    pub uri: String,
    pub text: String,
    pub version: i32,
}

/// The index of the first document of `docs` whose identifier is `uri`,
/// or `docs.len()` if none matches.
pub open spec fn first_match(docs: Seq<Document>, uri: Seq<char>) -> int
    decreases docs.len(),
{
    if docs.len() == 0 {
        0
    } else if docs[0].uri@ == uri {
        0
    } else {
        1 + first_match(docs.drop_first(), uri)
    }
}

/// `first_match` finds the first matching document: everything before it
/// differs from `uri`, and it matches unless it is `docs.len()`.
pub proof fn lemma_first_match(docs: Seq<Document>, uri: Seq<char>)
    ensures
        0 <= first_match(docs, uri) <= docs.len(),
        forall|j: int| 0 <= j < first_match(docs, uri) ==> (#[trigger] docs[j].uri)@ != uri,
        first_match(docs, uri) < docs.len() ==> docs[first_match(docs, uri)].uri@ == uri,
    decreases docs.len(),
{
    if docs.len() > 0 && docs[0].uri@ != uri {
        lemma_first_match(docs.drop_first(), uri);
        assert forall|j: int| 0 <= j < first_match(docs, uri) implies (#[trigger] docs[j].uri)@
            != uri by {
            if j > 0 {
                assert(docs.drop_first()[j - 1] == docs[j]);
            }
        }
        if first_match(docs, uri) < docs.len() {
            assert(docs.drop_first()[first_match(docs.drop_first(), uri)] == docs[first_match(
                docs,
                uri,
            )]);
        }
    }
}

/// Holds the latest text and version for every open document.
pub struct DocumentStore {
    docs: Vec<Document>,
}

/// `post` is `pre` with the document `uri` inserted or overwritten to
/// hold `text` at `version`, and every other document untouched.
pub open spec fn store_upserted(
    pre: DocumentStore,
    post: DocumentStore,
    uri: Seq<char>,
    text: Seq<char>,
    version: int,
) -> bool {
    &&& post.tracks(uri)
    &&& post.text_of(uri) == text
    &&& post.version_of(uri) == version
    &&& forall|u: Seq<char>| u != uri ==> (#[trigger] post.tracks(u)) == pre.tracks(u)
    &&& forall|u: Seq<char>|
        u != uri && pre.tracks(u) ==> (#[trigger] post.text_of(u)) == pre.text_of(u)
            && post.version_of(u) == pre.version_of(u)
}

impl DocumentStore {
    /// Whether a document with identifier `uri` is currently tracked.
    pub closed spec fn tracks(self, uri: Seq<char>) -> bool {
        first_match(self.docs@, uri) < self.docs@.len()
    }

    /// The stored text of the document `uri`.
    pub closed spec fn text_of(self, uri: Seq<char>) -> Seq<char> {
        self.docs@[first_match(self.docs@, uri)].text@
    }

    /// The stored version of the document `uri`.
    pub closed spec fn version_of(self, uri: Seq<char>) -> int {
        self.docs@[first_match(self.docs@, uri)].version as int
    }

    /// Creates an empty store, tracking nothing.
    pub fn new() -> (s: DocumentStore)
        ensures
            forall|u: Seq<char>| !s.tracks(u),
    {
        let s = DocumentStore { docs: Vec::new() };
        proof {
            assert forall|u: Seq<char>| !s.tracks(u) by {
                lemma_first_match(s.docs@, u);
            }
        }
        s
    }

    /// The index of the document `uri`, if it is tracked.
    fn find(&self, uri: &String) -> (r: Option<usize>)
        ensures
            match r {
                Option::Some(i) => self.tracks(uri@) && i == first_match(self.docs@, uri@),
                Option::None => !self.tracks(uri@),
            },
    {
        let mut i: usize = 0;
        while i < self.docs.len()
            invariant
                i <= self.docs@.len(),
                forall|j: int| 0 <= j < i ==> (#[trigger] self.docs@[j].uri)@ != uri@,
            decreases self.docs@.len() - i,
        {
            if self.docs[i].uri.eq(uri) {
                proof {
                    lemma_first_match(self.docs@, uri@);
                }
                return Option::Some(i);
            }
            i = i + 1;
        }
        proof {
            lemma_first_match(self.docs@, uri@);
        }
        Option::None
    }

    /// Inserts the document `uri`, or overwrites its text and version if
    /// it is already tracked: an idempotent upsert.  Every other document
    /// is left untouched.
    pub fn open(&mut self, uri: String, text: String, version: i32)
        ensures
            store_upserted(*old(self), *final(self), uri@, text@, version as int),
    {
        let found = self.find(&uri);
        let ghost old_docs = self.docs@;
        let doc = Document { uri, text, version };
        let ghost u = doc.uri@;
        match found {
            Option::Some(i) => {
                self.docs.remove(i);
                self.docs.insert(i, doc);
                proof {
                    assert(self.docs@[i as int] == doc);
                    assert(self.docs@ =~= old_docs.update(i as int, doc));
                }
            },
            Option::None => {
                self.docs.push(doc);
                proof {
                    lemma_first_match(old_docs, u);
                    assert(self.docs@[old_docs.len() as int] == doc);
                    assert(self.docs@ =~= old_docs.push(doc));
                }
            },
        }
        proof {
            Self::lemma_upsert_effect(old_docs, self.docs@, u);
            lemma_first_match(self.docs@, u);
        }
    }

    /// After replacing or appending the document for `u`, the store maps
    /// `u` to the new record and every other identifier as before.
    proof fn lemma_upsert_effect(old_docs: Seq<Document>, new_docs: Seq<Document>, u: Seq<char>)
        requires
            ({
                let i = first_match(old_docs, u);
                if i < old_docs.len() {
                    new_docs =~= old_docs.update(i, new_docs[i])
                } else {
                    new_docs =~= old_docs.push(new_docs[old_docs.len() as int])
                }
            }),
            new_docs[first_match(old_docs, u)].uri@ == u,
        ensures
            first_match(new_docs, u) == first_match(old_docs, u),
            forall|v: Seq<char>|
                v != u ==> ((#[trigger] first_match(new_docs, v)) < new_docs.len()) == (
                first_match(old_docs, v) < old_docs.len()),
            forall|v: Seq<char>|
                v != u && first_match(old_docs, v) < old_docs.len() ==> (
                #[trigger] first_match(new_docs, v)) == first_match(old_docs, v)
                    && new_docs[first_match(new_docs, v)] == old_docs[first_match(old_docs, v)],
        decreases old_docs.len(),
    {
        lemma_first_match(old_docs, u);
        let i = first_match(old_docs, u);
        if old_docs.len() == 0 {
            assert(new_docs.len() == 1);
            assert(new_docs[0].uri@ == u);
            assert forall|v: Seq<char>| v != u implies ((#[trigger] first_match(new_docs, v))
                == 1) by {
                assert(new_docs.drop_first() =~= Seq::<Document>::empty());
                assert(first_match(new_docs.drop_first(), v) == 0);
                assert(new_docs[0].uri@ != v);
                assert(first_match(new_docs, v) == 1 + first_match(new_docs.drop_first(), v));
            }
        } else if old_docs[0].uri@ == u {
            assert(i == 0 && new_docs.len() == old_docs.len());
            assert forall|v: Seq<char>| v != u implies ((#[trigger] first_match(new_docs, v))
                == 1 + first_match(old_docs.drop_first(), v) && first_match(old_docs, v) == 1
                + first_match(old_docs.drop_first(), v)) by {
                assert(new_docs.drop_first() =~= old_docs.drop_first());
            }
            assert forall|v: Seq<char>|
                v != u && first_match(old_docs, v) < old_docs.len() implies (
            #[trigger] first_match(new_docs, v)) == first_match(old_docs, v)
                && new_docs[first_match(new_docs, v)] == old_docs[first_match(old_docs, v)] by {
                assert(new_docs.drop_first() =~= old_docs.drop_first());
                lemma_first_match(old_docs.drop_first(), v);
                assert(first_match(old_docs, v) == 1 + first_match(old_docs.drop_first(), v));
                let m = first_match(old_docs, v);
                assert(m >= 1);
                assert(new_docs[m] == new_docs.drop_first()[m - 1]);
                assert(old_docs[m] == old_docs.drop_first()[m - 1]);
            }
        } else {
            let old_tail = old_docs.drop_first();
            let new_tail = new_docs.drop_first();
            assert(first_match(old_docs, u) == 1 + first_match(old_tail, u));
            if i < old_docs.len() {
                assert(new_tail =~= old_tail.update(i - 1, new_docs[i]));
                assert(new_tail[i - 1] == new_docs[i]);
            } else {
                assert(new_tail =~= old_tail.push(new_docs[old_docs.len() as int]));
                assert(new_tail[old_tail.len() as int] == new_docs[old_docs.len() as int]);
            }
            Self::lemma_upsert_effect(old_tail, new_tail, u);
            assert(new_docs[0] == old_docs[0]);
            assert(first_match(new_docs, u) == 1 + first_match(new_tail, u));
            assert forall|v: Seq<char>| v != u implies ((#[trigger] first_match(new_docs, v))
                < new_docs.len()) == (first_match(old_docs, v) < old_docs.len()) by {
                if old_docs[0].uri@ != v {
                    assert(first_match(new_docs, v) == 1 + first_match(new_tail, v));
                    assert(first_match(old_docs, v) == 1 + first_match(old_tail, v));
                    lemma_first_match(old_tail, v);
                    lemma_first_match(new_tail, v);
                }
            }
            assert forall|v: Seq<char>|
                v != u && first_match(old_docs, v) < old_docs.len() implies (
            #[trigger] first_match(new_docs, v)) == first_match(old_docs, v)
                && new_docs[first_match(new_docs, v)] == old_docs[first_match(old_docs, v)] by {
                if old_docs[0].uri@ != v {
                    assert(first_match(new_docs, v) == 1 + first_match(new_tail, v));
                    assert(first_match(old_docs, v) == 1 + first_match(old_tail, v));
                    lemma_first_match(old_tail, v);
                    let m = first_match(old_docs, v);
                    assert(new_docs[m] == new_tail[m - 1]);
                    assert(old_docs[m] == old_tail[m - 1]);
                }
            }
        }
    }

    /// Replaces the text and version of the document `uri` wholesale, as
    /// full-document synchronization requires.  A document not yet
    /// tracked is inserted; a tracked one accepts the replacement only if
    /// `version` is strictly larger than the stored version, so an
    /// out-of-order delivery is rejected and the store is left unchanged.
    /// Returns whether the replacement was accepted.
    pub fn replace(&mut self, uri: &String, text: String, version: i32) -> (accepted: bool)
        ensures
            accepted == (!old(self).tracks(uri@) || old(self).version_of(uri@) < version as int),
            accepted ==> store_upserted(*old(self), *final(self), uri@, text@, version as int),
            !accepted ==> *final(self) == *old(self),
    {
        let found = self.find(uri);
        match found {
            Option::Some(i) => {
                if self.docs[i].version >= version {
                    return false;
                }
            },
            Option::None => {},
        }
        self.open(uri.clone(), text, version);
        true
    }

    /// The stored document under `uri`, if one is tracked.
    pub fn get(&self, uri: &String) -> (r: Option<&Document>)
        ensures
            match r {
                Option::Some(d) => self.tracks(uri@) && d.uri@ == uri@ && d.text@ == self.text_of(
                    uri@,
                ) && d.version as int == self.version_of(uri@),
                Option::None => !self.tracks(uri@),
            },
    {
        let found = self.find(uri);
        proof {
            lemma_first_match(self.docs@, uri@);
        }
        match found {
            Option::Some(i) => Option::Some(&self.docs[i]),
            Option::None => Option::None,
        }
    }

    /// Forgets every tracked document.
    pub fn clear(&mut self)
        ensures
            forall|u: Seq<char>| !final(self).tracks(u),
    {
        self.docs.clear();
        proof {
            assert forall|u: Seq<char>| !self.tracks(u) by {
                lemma_first_match(self.docs@, u);
            }
        }
    }
}

} // verus!
