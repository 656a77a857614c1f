//! The vector store: documents with embeddings, ranked against a query by
//! cosine similarity.
use vstd::prelude::*;

use crate::error::AssistantError;
use crate::knowledge::documents::Document;
use crate::knowledge::embeddings::{
    abs, cosine, dot, dot_product, lemma_cosine_laws, lemma_dot_bound, magnitude_sq, norm_sq,
    MAX_DIM,
};

verus! {

/// Whether the document at `i` carries an embedding.
pub open spec fn embedded(docs: Seq<Document>, i: int) -> bool {
    docs[i].embedding is Some
}

/// The embedding of the document at `i`.
pub open spec fn embedding_of(docs: Seq<Document>, i: int) -> Seq<i16> {
    docs[i].embedding->0@
}

/// Strict ranking order on fractions tagged with positions: the larger
/// fraction first, and among equal fractions the earlier position first.
pub open spec fn precedes(x: (int, int), i: int, y: (int, int), j: int) -> bool {
    x.0 * y.1 > y.0 * x.1 || (x.0 * y.1 == y.0 * x.1 && i < j)
}

/// Whether document `i` ranks ahead of document `j` for `query`: it is more
/// cosine-similar to the query, or as similar and stored earlier.
pub open spec fn ranks_before(query: Seq<i16>, docs: Seq<Document>, i: int, j: int) -> bool {
    precedes(cosine(query, embedding_of(docs, i)), i, cosine(query, embedding_of(docs, j)), j)
}

/// `r` lists the positions of the `k` embedded documents that rank first for
/// `query` (all of them if fewer than `k` are embedded), best first.
pub open spec fn is_top_k(query: Seq<i16>, docs: Seq<Document>, k: nat, r: Seq<usize>) -> bool {
    &&& r.len() <= k
    &&& forall|a: int| 0 <= a < r.len() ==> #[trigger] r[a] < docs.len() && embedded(docs, r[a] as int)
    &&& forall|a: int, b: int|
        0 <= a < b < r.len() ==> ranks_before(query, docs, #[trigger] r[a] as int, #[trigger] r[b] as int)
    &&& forall|j: int|
        0 <= j < docs.len() && #[trigger] embedded(docs, j) && (forall|a: int| 0 <= a < r.len() ==> r[a] != j)
            ==> r.len() == k && (forall|a: int| 0 <= a < r.len() ==> ranks_before(query, docs, #[trigger] r[a] as int, j))
}

/// The fraction `x` is at least the fraction `y` (both denominators
/// positive).
pub open spec fn at_least(x: (int, int), y: (int, int)) -> bool {
    x.0 * y.1 >= y.0 * x.1
}

/// A ranking never holds more than `k` positions, and its documents come in
/// order of descending cosine similarity to the query.
pub proof fn lemma_top_k_by_descending_cosine(
    query: Seq<i16>,
    docs: Seq<Document>,
    k: nat,
    r: Seq<usize>,
)
    requires
        is_top_k(query, docs, k, r),
    ensures
        r.len() <= k,
        forall|a: int, b: int|
            0 <= a < b < r.len() ==> at_least(
                cosine(query, embedding_of(docs, #[trigger] r[a] as int)),
                cosine(query, embedding_of(docs, #[trigger] r[b] as int)),
            ),
{
    assert forall|a: int, b: int| 0 <= a < b < r.len() implies at_least(
        cosine(query, embedding_of(docs, #[trigger] r[a] as int)),
        cosine(query, embedding_of(docs, #[trigger] r[b] as int)),
    ) by {
        assert(ranks_before(query, docs, r[a] as int, r[b] as int));
    }
}

/// `b` is a copy of `a`: equal fields and an equal embedding.
pub open spec fn same_document(a: Document, b: Document) -> bool {
    &&& a.id == b.id
    &&& a.content == b.content
    &&& a.metadata == b.metadata
    &&& a.embedding is Some <==> b.embedding is Some
    &&& a.embedding is Some ==> a.embedding->0@ == b.embedding->0@
}

/// The ranking score of an embedding against a query: its cosine with the
/// query up to the positive factor `|query|^2` in the denominator.
pub open spec fn score(query: Seq<i16>, e: Seq<i16>) -> (int, int) {
    if norm_sq(query) == 0 || norm_sq(e) == 0 {
        (0, 1)
    } else {
        (dot(query, e) * abs(dot(query, e)), norm_sq(e))
    }
}

proof fn lemma_scale_cmp(c: int, u: int, v: int)
    requires
        c > 0,
    ensures
        (c * u > c * v) == (u > v),
        (c * u == c * v) == (u == v),
{
    if u > v {
        assert(c * u > c * v) by (nonlinear_arith)
            requires
                c > 0,
                u > v,
        ;
    } else if u < v {
        assert(c * u < c * v) by (nonlinear_arith)
            requires
                c > 0,
                u < v,
        ;
    }
}

/// Ranking by score orders documents exactly as ranking by cosine.
proof fn lemma_score_ranks_as_cosine(q: Seq<i16>, a: Seq<i16>, i: int, b: Seq<i16>, j: int)
    ensures
        precedes(score(q, a), i, score(q, b), j) == precedes(cosine(q, a), i, cosine(q, b), j),
{
    let nq = norm_sq(q);
    let na = norm_sq(a);
    let nb = norm_sq(b);
    if nq != 0 && na != 0 && nb != 0 {
        let x = dot(q, a) * abs(dot(q, a));
        let y = dot(q, b) * abs(dot(q, b));
        lemma_cosine_laws(q, a);
        assert(nq > 0);
        assert(x * (nq * nb) == nq * (x * nb)) by (nonlinear_arith);
        assert(y * (nq * na) == nq * (y * na)) by (nonlinear_arith);
        lemma_scale_cmp(nq, x * nb, y * na);
    } else if nq != 0 && na != 0 {
        lemma_cosine_laws(q, a);
        assert(0 * (nq * na) == 0);
    } else if nq != 0 && nb != 0 {
        lemma_cosine_laws(q, b);
        assert(0 * (nq * nb) == 0);
    }
}

proof fn lemma_precedes_trans(x: (int, int), i: int, y: (int, int), j: int, z: (int, int), l: int)
    requires
        x.1 > 0,
        y.1 > 0,
        z.1 > 0,
        precedes(x, i, y, j),
        precedes(y, j, z, l),
    ensures
        precedes(x, i, z, l),
{
    let (n1, d1, n2, d2, n3, d3) = (x.0, x.1, y.0, y.1, z.0, z.1);
    assert(n1 * d2 * d3 >= n2 * d1 * d3) by (nonlinear_arith)
        requires
            n1 * d2 >= n2 * d1,
            d3 > 0,
    ;
    assert(n2 * d3 * d1 >= n3 * d2 * d1) by (nonlinear_arith)
        requires
            n2 * d3 >= n3 * d2,
            d1 > 0,
    ;
    assert(n1 * d2 * d3 == (n1 * d3) * d2 && n2 * d1 * d3 == n2 * d3 * d1 && n3 * d2 * d1 == (
    n3 * d1) * d2) by (nonlinear_arith);
    if n1 * d2 > n2 * d1 || n2 * d3 > n3 * d2 {
        if n1 * d2 > n2 * d1 {
            assert(n1 * d2 * d3 > n2 * d1 * d3) by (nonlinear_arith)
                requires
                    n1 * d2 > n2 * d1,
                    d3 > 0,
            ;
        } else {
            assert(n2 * d3 * d1 > n3 * d2 * d1) by (nonlinear_arith)
                requires
                    n2 * d3 > n3 * d2,
                    d1 > 0,
            ;
        }
        assert((n1 * d3) * d2 > (n3 * d1) * d2);
        lemma_scale_cmp(d2, n1 * d3, n3 * d1);
        assert(d2 * (n1 * d3) == (n1 * d3) * d2 && d2 * (n3 * d1) == (n3 * d1) * d2)
            by (nonlinear_arith);
    } else {
        assert((n1 * d3) * d2 == (n3 * d1) * d2);
        lemma_scale_cmp(d2, n1 * d3, n3 * d1);
        assert(d2 * (n1 * d3) == (n1 * d3) * d2 && d2 * (n3 * d1) == (n3 * d1) * d2)
            by (nonlinear_arith);
    }
}

proof fn lemma_ranks_before_trans(q: Seq<i16>, docs: Seq<Document>, i: int, j: int, l: int)
    requires
        ranks_before(q, docs, i, j),
        ranks_before(q, docs, j, l),
    ensures
        ranks_before(q, docs, i, l),
{
    lemma_cosine_laws(q, embedding_of(docs, i));
    lemma_cosine_laws(q, embedding_of(docs, j));
    lemma_cosine_laws(q, embedding_of(docs, l));
    lemma_precedes_trans(
        cosine(q, embedding_of(docs, i)),
        i,
        cosine(q, embedding_of(docs, j)),
        j,
        cosine(q, embedding_of(docs, l)),
        l,
    );
}

/// A ranking score held in machine integers.
struct Score {
    num: i128,
    den: i128,
}

impl Score {
    spec fn value(self) -> (int, int) {
        (self.num as int, self.den as int)
    }

    spec fn fits(self) -> bool {
        -0x10_0000_0000_0000_0000_0000 <= self.num <= 0x10_0000_0000_0000_0000_0000 && 0
            < self.den <= 0x400_0000_0000
    }
}

fn score_of(query: &[i16], query_norm: u64, e: &[i16]) -> (r: Score)
    requires
        query@.len() <= MAX_DIM,
        e@.len() <= MAX_DIM,
        query_norm as int == norm_sq(query@),
    ensures
        r.value() == score(query@, e@),
        r.fits(),
{
    let ne = magnitude_sq(e);
    if query_norm == 0 || ne == 0 {
        return Score { num: 0, den: 1 };
    }
    let d = dot_product(query, e);
    proof {
        lemma_dot_bound(query@, e@);
    }
    let ad: i64 = if d < 0 { -d } else { d };
    proof {
        let (x, y) = (d as int, ad as int);
        assert(-0x10_0000_0000_0000_0000_0000 <= x * y <= 0x10_0000_0000_0000_0000_0000)
            by (nonlinear_arith)
            requires
                -0x400_0000_0000 <= x <= 0x400_0000_0000,
                0 <= y <= 0x400_0000_0000,
        ;
    }
    Score { num: (d as i128) * (ad as i128), den: ne as i128 }
}

fn score_precedes(x: &Score, i: usize, y: &Score, j: usize) -> (r: bool)
    requires
        x.fits(),
        y.fits(),
    ensures
        r == precedes(x.value(), i as int, y.value(), j as int),
{
    proof {
        let (a, b, c, d) = (x.num as int, y.den as int, y.num as int, x.den as int);
        assert(-0x4000_0000_0000_0000_0000_0000_0000_0000 <= a * b <= 0x4000_0000_0000_0000_0000_0000_0000_0000)
            by (nonlinear_arith)
            requires
                -0x10_0000_0000_0000_0000_0000 <= a <= 0x10_0000_0000_0000_0000_0000,
                0 < b <= 0x400_0000_0000,
        ;
        assert(-0x4000_0000_0000_0000_0000_0000_0000_0000 <= c * d <= 0x4000_0000_0000_0000_0000_0000_0000_0000)
            by (nonlinear_arith)
            requires
                -0x10_0000_0000_0000_0000_0000 <= c <= 0x10_0000_0000_0000_0000_0000,
                0 < d <= 0x400_0000_0000,
        ;
    }
    let l = x.num * y.den;
    let m = y.num * x.den;
    l > m || (l == m && i < j)
}

/// Documents with their embeddings, searchable by cosine similarity.
pub struct VectorStore {
    documents: Vec<Document>,
}

impl View for VectorStore {
    type V = Seq<Document>;

    closed spec fn view(&self) -> Seq<Document> {
        self.documents@
    }
}

/// Every embedding in `docs` has at most `MAX_DIM` components.
pub open spec fn dims_ok(docs: Seq<Document>) -> bool {
    forall|i: int| 0 <= i < docs.len() && #[trigger] embedded(docs, i) ==> embedding_of(docs, i).len() <= MAX_DIM
}

impl VectorStore {
    /// Every stored embedding is small enough to rank.
    pub open spec fn wf(&self) -> bool {
        dims_ok(self@)
    }

    /// An empty store.
    pub fn new() -> (r: Self)
        ensures
            r@ == Seq::<Document>::empty(),
            r.wf(),
    {
        VectorStore { documents: Vec::new() }
    }

    /// A store holding `documents`, in order, as read back from durable
    /// storage. Fails when an embedding has more than `MAX_DIM` components.
    pub fn from_documents(documents: Vec<Document>) -> (r: Result<Self, AssistantError>)
        ensures
            r is Ok <==> dims_ok(documents@),
            r is Ok ==> r->Ok_0@ == documents@ && r->Ok_0.wf(),
            r is Err ==> r->Err_0 is SerializationError,
    {
        let mut i: usize = 0;
        while i < documents.len()
            invariant
                i <= documents@.len(),
                forall|j: int| 0 <= j < i && #[trigger] embedded(documents@, j) ==> embedding_of(documents@, j).len() <= MAX_DIM,
            decreases documents@.len() - i,
        {
            match &documents[i].embedding {
                Some(e) => {
                    if e.len() > MAX_DIM {
                        proof {
                            assert(embedded(documents@, i as int));
                            assert(embedding_of(documents@, i as int).len() > MAX_DIM);
                        }
                        return Err(AssistantError::SerializationError(
                            String::from_str("stored embedding has too many components"),
                        ));
                    }
                },
                None => {},
            }
            i = i + 1;
        }
        Ok(VectorStore { documents })
    }

    /// Stores `doc` with `embedding` attached, after the documents already
    /// held. Fails, storing nothing, when the embedding has more than
    /// `MAX_DIM` components.
    pub fn add_document(&mut self, doc: Document, embedding: Vec<i16>) -> (r: Result<(), AssistantError>)
        requires
            old(self).wf(),
        ensures
            final(self).wf(),
            r is Ok <==> embedding@.len() <= MAX_DIM,
            r is Ok ==> final(self)@ == old(self)@.push(doc.with_embedding_spec(embedding)),
            r is Err ==> final(self)@ == old(self)@ && r->Err_0 is KnowledgeError,
    {
        if embedding.len() > MAX_DIM {
            return Err(AssistantError::KnowledgeError(
                String::from_str("embedding has too many components"),
            ));
        }
        let ghost before = self@;
        let d = doc.with_embedding(embedding);
        self.documents.push(d);
        proof {
            assert forall|i: int| 0 <= i < self@.len() && #[trigger] embedded(self@, i) implies embedding_of(self@, i).len() <= MAX_DIM by {
                if i < before.len() {
                    assert(self@[i] == before[i]);
                    assert(embedded(before, i));
                }
            }
        }
        Ok(())
    }

    /// The number of stored documents.
    pub fn count(&self) -> (r: usize)
        ensures
            r == self@.len(),
    {
        self.documents.len()
    }

    /// A copy of every stored document, in order.
    pub fn export(&self) -> (r: Vec<Document>)
        ensures
            r@.len() == self@.len(),
            forall|i: int| 0 <= i < r@.len() ==> same_document(#[trigger] r@[i], self@[i]),
    {
        let mut out: Vec<Document> = Vec::new();
        let mut i: usize = 0;
        while i < self.documents.len()
            invariant
                i <= self@.len(),
                out@.len() == i,
                forall|j: int| 0 <= j < i ==> same_document(#[trigger] out@[j], self@[j]),
            decreases self@.len() - i,
        {
            out.push(self.documents[i].clone());
            i = i + 1;
        }
        out
    }

    /// The positions of the `k` stored documents most cosine-similar to
    /// `query`, best first; among equally similar documents the one stored
    /// first comes first. Documents without an embedding are not ranked.
    pub fn rank(&self, query: &Vec<i16>, k: usize) -> (r: Vec<usize>)
        requires
            self.wf(),
            query@.len() <= MAX_DIM,
        ensures
            is_top_k(query@, self@, k as nat, r@),
    {
        let docs = &self.documents;
        let n = docs.len();
        let qn = magnitude_sq(query.as_slice());
        let mut scores: Vec<Option<Score>> = Vec::new();
        let mut i: usize = 0;
        while i < n
            invariant
                n == docs@.len(),
                docs@ == self@,
                self.wf(),
                query@.len() <= MAX_DIM,
                qn as int == norm_sq(query@),
                i <= n,
                scores@.len() == i,
                forall|j: int| 0 <= j < i ==> (#[trigger] scores@[j] is Some <==> embedded(docs@, j)),
                forall|j: int| 0 <= j < i && #[trigger] scores@[j] is Some ==> scores@[j]->0.fits()
                    && scores@[j]->0.value() == score(query@, embedding_of(docs@, j)),
            decreases n - i,
        {
            match &docs[i].embedding {
                Some(e) => {
                    proof {
                        assert(embedded(docs@, i as int));
                    }
                    scores.push(Some(score_of(query.as_slice(), qn, e.as_slice())));
                },
                None => {
                    scores.push(None);
                },
            }
            i = i + 1;
        }
        let mut picked: Vec<usize> = Vec::new();
        while picked.len() < k
            invariant
                n == docs@.len(),
                docs@ == self@,
                scores@.len() == n,
                forall|j: int| 0 <= j < n ==> (#[trigger] scores@[j] is Some <==> embedded(docs@, j)),
                forall|j: int| 0 <= j < n && #[trigger] scores@[j] is Some ==> scores@[j]->0.fits()
                    && scores@[j]->0.value() == score(query@, embedding_of(docs@, j)),
                picked@.len() <= k,
                forall|a: int| 0 <= a < picked@.len() ==> #[trigger] picked@[a] < n && embedded(docs@, picked@[a] as int),
                forall|a: int, b: int|
                    0 <= a < b < picked@.len() ==> ranks_before(query@, docs@, #[trigger] picked@[a] as int, #[trigger] picked@[b] as int),
                forall|j: int|
                    0 <= j < n && #[trigger] embedded(docs@, j) && (forall|a: int| 0 <= a < picked@.len() ==> picked@[a] != j)
                        ==> (forall|a: int| 0 <= a < picked@.len() ==> ranks_before(query@, docs@, #[trigger] picked@[a] as int, j)),
            decreases k - picked@.len(),
        {
            let p = picked.len();
            let mut best: Option<usize> = None;
            let mut j: usize = 0;
            while j < n
                invariant
                    n == docs@.len(),
                    scores@.len() == n,
                    p == picked@.len(),
                    forall|x: int| 0 <= x < n ==> (#[trigger] scores@[x] is Some <==> embedded(docs@, x)),
                    forall|x: int| 0 <= x < n && #[trigger] scores@[x] is Some ==> scores@[x]->0.fits()
                        && scores@[x]->0.value() == score(query@, embedding_of(docs@, x)),
                    forall|a: int| 0 <= a < picked@.len() ==> #[trigger] picked@[a] < n && embedded(docs@, picked@[a] as int),
                    j <= n,
                    best is None ==> forall|x: int| 0 <= x < j && #[trigger] embedded(docs@, x) ==>
                        !(p == 0 || ranks_before(query@, docs@, picked@[p - 1] as int, x)),
                    best is Some ==> best->0 < j && embedded(docs@, best->0 as int)
                        && (p == 0 || ranks_before(query@, docs@, picked@[p - 1] as int, best->0 as int))
                        && forall|x: int| 0 <= x < j && #[trigger] embedded(docs@, x) && (p == 0 || ranks_before(query@, docs@, picked@[p - 1] as int, x))
                            ==> x == best->0 || ranks_before(query@, docs@, best->0 as int, x),
                decreases n - j,
            {
                match &scores[j] {
                    Some(sj) => {
                        let candidate = if p == 0 {
                            true
                        } else {
                            let last = picked[p - 1];
                            match &scores[last] {
                                Some(sl) => {
                                    proof {
                                        lemma_score_ranks_as_cosine(query@, embedding_of(docs@, last as int), last as int, embedding_of(docs@, j as int), j as int);
                                    }
                                    score_precedes(sl, last, sj, j)
                                },
                                None => false,
                            }
                        };
                        if candidate {
                            match best {
                                None => {
                                    best = Some(j);
                                },
                                Some(b) => {
                                    match &scores[b] {
                                        Some(sb) => {
                                            proof {
                                                lemma_score_ranks_as_cosine(query@, embedding_of(docs@, j as int), j as int, embedding_of(docs@, b as int), b as int);
                                            }
                                            if score_precedes(sj, j, sb, b) {
                                                proof {
                                                    assert forall|x: int| 0 <= x < j && #[trigger] embedded(docs@, x) && (p == 0 || ranks_before(query@, docs@, picked@[p - 1] as int, x))
                                                        implies x == j || ranks_before(query@, docs@, j as int, x) by {
                                                        if x != b {
                                                            lemma_ranks_before_trans(query@, docs@, j as int, b as int, x);
                                                        }
                                                    }
                                                }
                                                best = Some(j);
                                            }
                                        },
                                        None => {},
                                    }
                                },
                            }
                        }
                    },
                    None => {},
                }
                j = j + 1;
            }
            match best {
                None => {
                    proof {
                        assert forall|x: int| 0 <= x < n && #[trigger] embedded(docs@, x) && (forall|a: int| 0 <= a < picked@.len() ==> picked@[a] != x)
                            implies picked@.len() == k by {
                            if p > 0 {
                                assert(ranks_before(query@, docs@, picked@[p - 1] as int, x));
                            }
                        }
                    }
                    return picked;
                },
                Some(m) => {
                    let ghost old_picked = picked@;
                    proof {
                        assert forall|a: int| 0 <= a < p implies ranks_before(query@, docs@, #[trigger] old_picked[a] as int, m as int) by {
                            if a < p - 1 {
                                lemma_ranks_before_trans(query@, docs@, old_picked[a] as int, old_picked[p - 1] as int, m as int);
                            }
                        }
                    }
                    picked.push(m);
                    proof {
                        assert forall|x: int|
                            0 <= x < n && #[trigger] embedded(docs@, x) && (forall|a: int| 0 <= a < picked@.len() ==> picked@[a] != x)
                            implies (forall|a: int| 0 <= a < picked@.len() ==> ranks_before(query@, docs@, #[trigger] picked@[a] as int, x)) by {
                            assert(picked@[p as int] == m);
                            assert forall|a: int| 0 <= a < p implies old_picked[a] != x by {
                                assert(picked@[a] == old_picked[a]);
                            }
                            if p > 0 {
                                assert(ranks_before(query@, docs@, old_picked[p - 1] as int, x));
                            }
                            assert forall|a: int| 0 <= a < picked@.len() implies ranks_before(query@, docs@, #[trigger] picked@[a] as int, x) by {
                                if a < p {
                                    assert(picked@[a] == old_picked[a]);
                                }
                            }
                        }
                    }
                },
            }
        }
        picked
    }

    /// The `k` stored documents most cosine-similar to `query`, best first,
    /// as `rank` orders them; fewer when fewer are embedded. Fails when the
    /// query has more than `MAX_DIM` components.
    pub fn search(&self, query: &Vec<i16>, k: usize) -> (r: Result<Vec<Document>, AssistantError>)
        requires
            self.wf(),
        ensures
            r is Ok <==> query@.len() <= MAX_DIM,
            r is Err ==> r->Err_0 is KnowledgeError,
            r is Ok ==> exists|idx: Seq<usize>|
                is_top_k(query@, self@, k as nat, idx) && #[trigger] idx.len() == r->Ok_0@.len()
                    && forall|a: int| 0 <= a < idx.len() ==> same_document(#[trigger] r->Ok_0@[a], self@[idx[a] as int]),
            r is Ok ==> r->Ok_0@.len() <= k,
            r is Ok ==> forall|a: int| 0 <= a < r->Ok_0@.len() ==> (#[trigger] r->Ok_0@[a]).embedding is Some,
            r is Ok ==> forall|a: int, b: int|
                0 <= a < b < r->Ok_0@.len() ==> at_least(
                    cosine(query@, (#[trigger] r->Ok_0@[a]).embedding->0@),
                    cosine(query@, (#[trigger] r->Ok_0@[b]).embedding->0@),
                ),
    {
        if query.len() > MAX_DIM {
            return Err(AssistantError::KnowledgeError(
                String::from_str("query embedding has too many components"),
            ));
        }
        let idx = self.rank(query, k);
        let mut out: Vec<Document> = Vec::new();
        let mut a: usize = 0;
        while a < idx.len()
            invariant
                is_top_k(query@, self@, k as nat, idx@),
                a <= idx@.len(),
                out@.len() == a,
                forall|b: int| 0 <= b < a ==> same_document(#[trigger] out@[b], self@[idx@[b] as int]),
            decreases idx@.len() - a,
        {
            let d = self.documents[idx[a]].clone();
            out.push(d);
            a = a + 1;
        }
        proof {
            lemma_top_k_by_descending_cosine(query@, self@, k as nat, idx@);
            assert forall|x: int| 0 <= x < out@.len() implies (#[trigger] out@[x]).embedding is Some by {
                assert(same_document(out@[x], self@[idx@[x] as int]));
                assert(embedded(self@, idx@[x] as int));
            }
            assert forall|x: int, y: int| 0 <= x < y < out@.len() implies at_least(
                cosine(query@, (#[trigger] out@[x]).embedding->0@),
                cosine(query@, (#[trigger] out@[y]).embedding->0@),
            ) by {
                assert(same_document(out@[x], self@[idx@[x] as int]));
                assert(same_document(out@[y], self@[idx@[y] as int]));
                assert(embedded(self@, idx@[x] as int));
                assert(embedded(self@, idx@[y] as int));
                assert(at_least(
                    cosine(query@, embedding_of(self@, idx@[x] as int)),
                    cosine(query@, embedding_of(self@, idx@[y] as int)),
                ));
            }
        }
        Ok(out)
    }
}

} // verus!
