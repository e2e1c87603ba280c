use vstd::prelude::*;

use crate::ranking::{is_top_k, score_key, score_key_spec, top_k, lemma_top_k_unique};

verus! {

/// A stored unit: its id, its text, its embedding vector (each component
/// held as the bit pattern of a float32), and caller-defined metadata.
pub struct Document {
    pub id: String,
    pub text: String,
    pub vector: Vec<u32>,
    pub metadata: String,
}

/// The mathematical value of a [`Document`].
pub struct DocumentView {
    pub id: Seq<char>,
    pub text: Seq<char>,
    pub vector: Seq<u32>,
    pub metadata: Seq<char>,
}

impl View for Document {
    type V = DocumentView;

    open spec fn view(&self) -> DocumentView {
        DocumentView {
            id: self.id@,
            text: self.text@,
            vector: self.vector@,
            metadata: self.metadata@,
        }
    }
}

/// The views of a sequence of documents.
pub open spec fn views_of(docs: Seq<Document>) -> Seq<DocumentView> {
    docs.map_values(|d: Document| d@)
}

/// The ranking keys of a sequence of float32 scores.
pub open spec fn keys_of(score_bits: Seq<u32>) -> Seq<u32> {
    score_bits.map_values(|b: u32| score_key_spec(b))
}

/// One search hit: the text and metadata of a document and its score bits.
pub open spec fn hit_of(d: DocumentView, score: u32) -> (Seq<char>, Seq<char>, u32) {
    (d.text, d.metadata, score)
}

/// `r` is the answer to a search of `docs`, whose scores are `score_bits`
/// position by position, limited to `limit` hits: the hits of the best
/// positions in ranking order (see [`is_top_k`]).
pub open spec fn is_search_result(
    docs: Seq<DocumentView>,
    score_bits: Seq<u32>,
    limit: nat,
    r: Seq<(Seq<char>, Seq<char>, u32)>,
) -> bool {
    exists|idx: Seq<usize>|
        is_top_k(keys_of(score_bits), limit, idx) && r.len() == idx.len() && forall|j: int|
            0 <= j < r.len() ==> #[trigger] r[j] == hit_of(docs[idx[j] as int], score_bits[idx[j] as int])
}

/// The view of a list of hits.
pub open spec fn hits_view(r: Seq<(String, String, u32)>) -> Seq<(Seq<char>, Seq<char>, u32)> {
    r.map_values(|h: (String, String, u32)| (h.0@, h.1@, h.2))
}

impl Document {
    /// Builds a document from its parts.
    pub fn new(id: &str, text: &str, vector: Vec<u32>, metadata: &str) -> (d: Document)
        ensures
            d@ == (DocumentView { id: id@, text: text@, vector: vector@, metadata: metadata@ }),
    {
        Document {
            id: id.to_string(),
            text: text.to_string(),
            vector,
            metadata: metadata.to_string(),
        }
    }

    /// A field-by-field copy.
    pub fn duplicate(&self) -> (d: Document)
        ensures
            d@ == self@,
    {
        let vector = self.vector.clone();
        assert(vector@ =~= self.vector@);
        Document {
            id: self.id.clone(),
            text: self.text.clone(),
            vector,
            metadata: self.metadata.clone(),
        }
    }
}

/// The document collection, in insertion order, together with the path of
/// the file that mirrors it.
pub struct VectorDB {
    path: String,
    documents: Vec<Document>,
}

impl View for VectorDB {
    type V = Seq<DocumentView>;

    closed spec fn view(&self) -> Seq<DocumentView> {
        views_of(self.documents@)
    }
}

impl VectorDB {
    /// The storage path the collection is mirrored to.
    pub closed spec fn path_spec(&self) -> Seq<char> {
        self.path@
    }

    /// Opens the collection stored at `storage_path`, given what was read
    /// from it: the stored documents, or `None` when the file was absent,
    /// empty or malformed, which counts as no documents.
    pub fn new(storage_path: &str, stored: Option<Vec<Document>>) -> (db: VectorDB)
        ensures
            db.path_spec() == storage_path@,
            db@ == match stored {
                Some(v) => views_of(v@),
                None => Seq::<DocumentView>::empty(),
            },
    {
        let documents = match stored {
            Some(v) => v,
            None => Vec::new(),
        };
        proof {
            if stored is None {
                assert(views_of(documents@) =~= Seq::<DocumentView>::empty());
            }
        }
        VectorDB { path: storage_path.to_string(), documents }
    }

    /// The storage path.
    pub fn path(&self) -> (r: &String)
        ensures
            r@ == self.path_spec(),
    {
        &self.path
    }

    /// The number of stored documents.
    pub fn len(&self) -> (r: usize)
        ensures
            r == self@.len(),
    {
        self.documents.len()
    }

    /// The stored documents, in insertion order.
    pub fn documents(&self) -> (r: &Vec<Document>)
        ensures
            views_of(r@) == self@,
    {
        &self.documents
    }

    /// Appends a document. Ids are not checked: a repeated id gives a second
    /// entry. The caller then persists [`VectorDB::snapshot`] in full.
    pub fn add(&mut self, id: &str, text: &str, vector: Vec<u32>, metadata: &str)
        ensures
            final(self)@ == old(self)@.push(
                DocumentView { id: id@, text: text@, vector: vector@, metadata: metadata@ },
            ),
            final(self).path_spec() == old(self).path_spec(),
    {
        let doc = Document::new(id, text, vector, metadata);
        self.documents.push(doc);
        assert(views_of(self.documents@) =~= views_of(old(self).documents@).push(doc@));
    }

    /// A copy of the whole collection, as it is to be written out.
    pub fn snapshot(&self) -> (r: Vec<Document>)
        ensures
            views_of(r@) == self@,
    {
        let mut r: Vec<Document> = Vec::new();
        let mut i: usize = 0;
        while i < self.documents.len()
            invariant
                i <= self.documents.len(),
                views_of(r@) =~= views_of(self.documents@.subrange(0, i as int)),
            decreases self.documents.len() - i,
        {
            let d = self.documents[i].duplicate();
            let ghost before = r@;
            r.push(d);
            assert(views_of(r@) =~= views_of(before).push(d@));
            assert(self.documents@.subrange(0, i + 1) =~= self.documents@.subrange(0, i as int).push(self.documents@[i as int]));
            i = i + 1;
        }
        assert(self.documents@.subrange(0, i as int) =~= self.documents@);
        r
    }

    /// Ranked retrieval. `score_bits[i]` is the float32 score of the query
    /// against document `i`. Returns the text, metadata and score of the
    /// `limit` best documents (all of them when `limit` exceeds the
    /// collection), best first; equal scores keep insertion order, and a NaN
    /// score ranks last.
    pub fn search(&self, score_bits: &Vec<u32>, limit: usize) -> (r: Vec<(String, String, u32)>)
        requires
            score_bits.len() == self@.len(),
        ensures
            is_search_result(self@, score_bits@, limit as nat, hits_view(r@)),
    {
        let mut keys: Vec<u32> = Vec::new();
        let mut i: usize = 0;
        while i < score_bits.len()
            invariant
                i <= score_bits.len(),
                keys@ =~= keys_of(score_bits@.subrange(0, i as int)),
            decreases score_bits.len() - i,
        {
            keys.push(score_key(score_bits[i]));
            i = i + 1;
        }
        assert(score_bits@.subrange(0, i as int) =~= score_bits@);
        let idx = top_k(&keys, limit);
        let mut r: Vec<(String, String, u32)> = Vec::new();
        let mut j: usize = 0;
        while j < idx.len()
            invariant
                is_top_k(keys@, limit as nat, idx@),
                keys@ == keys_of(score_bits@),
                score_bits.len() == self.documents.len(),
                j <= idx.len(),
                r.len() == j,
                forall|m: int| 0 <= m < j ==> #[trigger] hits_view(r@)[m] == hit_of(
                    self@[idx[m] as int], score_bits@[idx[m] as int]),
            decreases idx.len() - j,
        {
            let k = idx[j];
            let d = &self.documents[k];
            let ghost before = r@;
            let hit = (d.text.clone(), d.metadata.clone(), score_bits[k]);
            r.push(hit);
            assert(hits_view(r@) =~= hits_view(before).push((hit.0@, hit.1@, hit.2)));
            assert(hits_view(r@)[j as int] == hit_of(self@[k as int], score_bits@[k as int]));
            j = j + 1;
        }
        assert(is_top_k(keys_of(score_bits@), limit as nat, idx@));
        r
    }
}

/// Searching a fixed collection with fixed scores and limit has one answer:
/// repeated searches return identical ordered results.
pub proof fn lemma_search_deterministic(
    docs: Seq<DocumentView>,
    score_bits: Seq<u32>,
    limit: nat,
    r1: Seq<(Seq<char>, Seq<char>, u32)>,
    r2: Seq<(Seq<char>, Seq<char>, u32)>,
)
    requires
        is_search_result(docs, score_bits, limit, r1),
        is_search_result(docs, score_bits, limit, r2),
    ensures
        r1 == r2,
{
    let idx1 = choose|idx: Seq<usize>|
        is_top_k(keys_of(score_bits), limit, idx) && r1.len() == idx.len() && forall|j: int|
            0 <= j < r1.len() ==> #[trigger] r1[j] == hit_of(docs[idx[j] as int], score_bits[idx[j] as int]);
    let idx2 = choose|idx: Seq<usize>|
        is_top_k(keys_of(score_bits), limit, idx) && r2.len() == idx.len() && forall|j: int|
            0 <= j < r2.len() ==> #[trigger] r2[j] == hit_of(docs[idx[j] as int], score_bits[idx[j] as int]);
    lemma_top_k_unique(keys_of(score_bits), limit, idx1, idx2);
    assert(r1 =~= r2);
}

/// Reopening a store from the copy it wrote out gives back the collection it
/// held at that write: same documents, same order, same fields.
pub proof fn lemma_reopen_round_trip(db: VectorDB, written: Seq<Document>, reopened: VectorDB)
    requires
        views_of(written) == db@,
        reopened@ == views_of(written),
        reopened.path_spec() == db.path_spec(),
    ensures
        reopened@ == db@,
        reopened.path_spec() == db.path_spec(),
{
}

/// A search of an empty collection returns no hits.
pub proof fn lemma_empty_search(score_bits: Seq<u32>, limit: nat, r: Seq<(Seq<char>, Seq<char>, u32)>)
    requires
        is_search_result(Seq::<DocumentView>::empty(), score_bits, limit, r),
        score_bits.len() == 0,
    ensures
        r.len() == 0,
{
}

} // verus!
