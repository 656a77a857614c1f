//! Integer embeddings and exact cosine similarity.
//!
//! An embedding is a vector of `i16` components. The cosine of the angle
//! between two embeddings is an irrational number in general, so it is held
//! exactly as its signed square `cos * |cos| == num / den`, which orders
//! pairs of vectors exactly as the cosine itself does.
use vstd::prelude::*;

verus! {

/// Largest number of components an embedding may have. It keeps every
/// product that ranking needs inside `i128`.
pub const MAX_DIM: usize = 4096;

/// Sum of `a[i] * b[i]` over the first `n` positions.
pub open spec fn dot_upto(a: Seq<i16>, b: Seq<i16>, n: int) -> int
    decreases n,
{
    if n <= 0 {
        0
    } else {
        dot_upto(a, b, n - 1) + a[n - 1] * b[n - 1]
    }
}

/// Dot product over the positions both vectors have.
pub open spec fn dot(a: Seq<i16>, b: Seq<i16>) -> int {
    dot_upto(a, b, if a.len() <= b.len() { a.len() as int } else { b.len() as int })
}

/// Squared magnitude.
pub open spec fn norm_sq(a: Seq<i16>) -> int {
    dot_upto(a, a, a.len() as int)
}

pub open spec fn abs(x: int) -> int {
    if x < 0 { -x } else { x }
}

/// The cosine similarity of `a` and `b` as a fraction `(num, den)` with
/// `cos * |cos| == num / den`; it is `0 / 1` when either vector has zero
/// magnitude.
pub open spec fn cosine(a: Seq<i16>, b: Seq<i16>) -> (int, int) {
    if norm_sq(a) == 0 || norm_sq(b) == 0 {
        (0, 1)
    } else {
        (dot(a, b) * abs(dot(a, b)), norm_sq(a) * norm_sq(b))
    }
}

/// An exact cosine similarity: `cos * |cos| == num / den`, with `den > 0`.
#[derive(Clone, Copy, Debug, PartialEq, Eq, Structural)]
pub struct Cosine {
    pub num: i128,
    pub den: u128,
}

impl Cosine {
    pub open spec fn value(self) -> (int, int) {
        (self.num as int, self.den as int)
    }
}

proof fn lemma_term_bound(x: i16, y: i16)
    ensures
        -0x4000_0000 <= x * y <= 0x4000_0000,
        0 <= x * x,
{
    assert(-0x4000_0000 <= x * y <= 0x4000_0000) by (nonlinear_arith)
        requires
            -0x8000 <= x <= 0x7fff,
            -0x8000 <= y <= 0x7fff,
    ;
    assert(0 <= x * x) by (nonlinear_arith);
}

/// Each prefix sum of products stays within `n * 2^30` in magnitude.
pub proof fn lemma_dot_upto_bound(a: Seq<i16>, b: Seq<i16>, n: int)
    requires
        0 <= n <= a.len(),
        n <= b.len(),
    ensures
        -n * 0x4000_0000 <= dot_upto(a, b, n) <= n * 0x4000_0000,
    decreases n,
{
    if n > 0 {
        lemma_dot_upto_bound(a, b, n - 1);
        lemma_term_bound(a[n - 1], b[n - 1]);
    }
}

proof fn lemma_norm_upto_nonneg(a: Seq<i16>, n: int)
    ensures
        0 <= dot_upto(a, a, n),
    decreases n,
{
    if n > 0 {
        lemma_norm_upto_nonneg(a, n - 1);
        lemma_term_bound(a[n - 1], a[n - 1]);
    }
}

/// A sum of squares is never negative and never shrinks as it extends.
pub proof fn lemma_norm_upto_mono(a: Seq<i16>, n: int, m: int)
    requires
        0 <= n <= m,
    ensures
        0 <= dot_upto(a, a, n) <= dot_upto(a, a, m),
    decreases m,
{
    if m > n {
        lemma_norm_upto_mono(a, n, m - 1);
        lemma_term_bound(a[m - 1], a[m - 1]);
    } else {
        lemma_norm_upto_nonneg(a, n);
    }
}

/// Cauchy-Schwarz on prefixes: `(a.b)^2 <= |a|^2 |b|^2`.
pub proof fn lemma_cauchy_schwarz_upto(a: Seq<i16>, b: Seq<i16>, n: int)
    requires
        0 <= n <= a.len(),
        n <= b.len(),
    ensures
        dot_upto(a, b, n) * dot_upto(a, b, n) <= dot_upto(a, a, n) * dot_upto(b, b, n),
    decreases n,
{
    if n > 0 {
        lemma_cauchy_schwarz_upto(a, b, n - 1);
        lemma_norm_upto_mono(a, n - 1, n - 1);
        lemma_norm_upto_mono(b, n - 1, n - 1);
        let d = dot_upto(a, b, n - 1);
        let na = dot_upto(a, a, n - 1);
        let nb = dot_upto(b, b, n - 1);
        let x = a[n - 1] as int;
        let y = b[n - 1] as int;
        let p = x * y;
        assert(2 * (d * p) <= na * (y * y) + nb * (x * x)) by {
            if na == 0 {
                assert(d == 0) by (nonlinear_arith)
                    requires
                        d * d <= na * nb,
                        na == 0,
                ;
                assert(2 * (d * p) <= na * (y * y) + nb * (x * x)) by (nonlinear_arith)
                    requires
                        d == 0,
                        na == 0,
                        0 <= nb,
                ;
            } else {
                let u = na * y;
                let v = d * x;
                let e = u - v;
                assert(0 <= e * e) by (nonlinear_arith);
                assert(e * e == u * u - 2 * (u * v) + v * v) by (nonlinear_arith)
                    requires
                        e == u - v,
                ;
                assert(u * u == na * (na * (y * y))) by (nonlinear_arith)
                    requires
                        u == na * y,
                ;
                assert(u * v == na * (d * p)) by (nonlinear_arith)
                    requires
                        u == na * y,
                        v == d * x,
                        p == x * y,
                ;
                assert(v * v == (d * d) * (x * x)) by (nonlinear_arith)
                    requires
                        v == d * x,
                ;
                assert(e * e == na * (na * (y * y)) - 2 * (na * (d * p)) + (d * d) * (x * x));
                assert((d * d) * (x * x) <= (na * nb) * (x * x)) by (nonlinear_arith)
                    requires
                        d * d <= na * nb,
                ;
                assert(na * (na * (y * y) + nb * (x * x) - 2 * (d * p)) >= 0) by (nonlinear_arith)
                    requires
                        e * e == na * (na * (y * y)) - 2 * (na * (d * p)) + (d * d) * (x * x),
                        (d * d) * (x * x) <= (na * nb) * (x * x),
                        0 <= e * e,
                ;
                assert(na * (y * y) + nb * (x * x) - 2 * (d * p) >= 0) by (nonlinear_arith)
                    requires
                        na > 0,
                        na * (na * (y * y) + nb * (x * x) - 2 * (d * p)) >= 0,
                ;
            }
        }
        assert((d + p) * (d + p) == d * d + 2 * (d * p) + p * p) by (nonlinear_arith);
        assert((na + x * x) * (nb + y * y) == na * nb + na * (y * y) + nb * (x * x) + p * p)
            by (nonlinear_arith)
            requires
                p == x * y,
        ;
        assert(dot_upto(a, b, n) == d + p);
        assert(dot_upto(a, a, n) == na + x * x);
        assert(dot_upto(b, b, n) == nb + y * y);
    }
}

/// Cauchy-Schwarz on whole vectors of possibly different lengths.
pub proof fn lemma_cauchy_schwarz(a: Seq<i16>, b: Seq<i16>)
    ensures
        dot(a, b) * dot(a, b) <= norm_sq(a) * norm_sq(b),
        0 <= norm_sq(a),
        0 <= norm_sq(b),
{
    let n = if a.len() <= b.len() { a.len() as int } else { b.len() as int };
    lemma_cauchy_schwarz_upto(a, b, n);
    lemma_norm_upto_mono(a, n, a.len() as int);
    lemma_norm_upto_mono(b, n, b.len() as int);
    let an = dot_upto(a, a, n);
    let bn = dot_upto(b, b, n);
    assert(an * bn <= norm_sq(a) * norm_sq(b)) by (nonlinear_arith)
        requires
            0 <= an <= norm_sq(a),
            0 <= bn <= norm_sq(b),
    ;
}

/// Cosine similarity is symmetric, lies in `[-1, 1]`, and is exactly zero
/// when either vector has zero magnitude.
pub proof fn lemma_cosine_laws(a: Seq<i16>, b: Seq<i16>)
    ensures
        cosine(a, b) == cosine(b, a),
        cosine(a, b).1 > 0,
        -cosine(a, b).1 <= cosine(a, b).0 <= cosine(a, b).1,
        norm_sq(a) == 0 || norm_sq(b) == 0 ==> cosine(a, b).0 == 0,
        0 <= norm_sq(a),
        0 <= norm_sq(b),
{
    lemma_dot_symmetric(a, b);
    lemma_cauchy_schwarz(a, b);
    let d = dot(a, b);
    let na = norm_sq(a);
    let nb = norm_sq(b);
    assert(na * nb == nb * na) by (nonlinear_arith);
    if na != 0 && nb != 0 {
        assert(na * nb > 0) by (nonlinear_arith)
            requires
                na > 0,
                nb > 0,
        ;
        assert(-(na * nb) <= d * abs(d) <= na * nb) by (nonlinear_arith)
            requires
                d * d <= na * nb,
        ;
    }
}

proof fn lemma_dot_upto_symmetric(a: Seq<i16>, b: Seq<i16>, n: int)
    ensures
        dot_upto(a, b, n) == dot_upto(b, a, n),
    decreases n,
{
    if n > 0 {
        lemma_dot_upto_symmetric(a, b, n - 1);
        assert(a[n - 1] * b[n - 1] == b[n - 1] * a[n - 1]) by (nonlinear_arith);
    }
}

proof fn lemma_dot_symmetric(a: Seq<i16>, b: Seq<i16>)
    ensures
        dot(a, b) == dot(b, a),
{
    let n = if a.len() <= b.len() { a.len() as int } else { b.len() as int };
    lemma_dot_upto_symmetric(a, b, n);
}

fn dot_prefix(a: &[i16], b: &[i16], n: usize) -> (r: i64)
    requires
        n <= a@.len(),
        n <= b@.len(),
        n <= MAX_DIM,
    ensures
        r as int == dot_upto(a@, b@, n as int),
{
    let mut acc: i64 = 0;
    let mut i: usize = 0;
    while i < n
        invariant
            i <= n,
            n <= a@.len(),
            n <= b@.len(),
            n <= MAX_DIM,
            acc as int == dot_upto(a@, b@, i as int),
        decreases n - i,
    {
        proof {
            lemma_dot_upto_bound(a@, b@, i as int);
            lemma_term_bound(a@[i as int], b@[i as int]);
        }
        acc = acc + (a[i] as i64) * (b[i] as i64);
        i = i + 1;
    }
    acc
}

/// The dot product of two embeddings.
pub fn dot_product(a: &[i16], b: &[i16]) -> (r: i64)
    requires
        a@.len() <= MAX_DIM,
        b@.len() <= MAX_DIM,
    ensures
        r as int == dot(a@, b@),
{
    let n = if a.len() <= b.len() { a.len() } else { b.len() };
    dot_prefix(a, b, n)
}

/// The squared magnitude of an embedding.
pub fn magnitude_sq(a: &[i16]) -> (r: u64)
    requires
        a@.len() <= MAX_DIM,
    ensures
        r as int == norm_sq(a@),
        r <= 0x400_0000_0000,
{
    proof {
        lemma_dot_upto_bound(a@, a@, a@.len() as int);
        lemma_norm_upto_nonneg(a@, a@.len() as int);
    }
    let r = dot_prefix(a, a, a.len());
    r as u64
}

pub proof fn lemma_dot_bound(a: Seq<i16>, b: Seq<i16>)
    requires
        a.len() <= MAX_DIM,
        b.len() <= MAX_DIM,
    ensures
        -0x400_0000_0000 <= dot(a, b) <= 0x400_0000_0000,
        0 <= norm_sq(a) <= 0x400_0000_0000,
{
    let n = if a.len() <= b.len() { a.len() as int } else { b.len() as int };
    lemma_dot_upto_bound(a, b, n);
    lemma_dot_upto_bound(a, a, a.len() as int);
    lemma_norm_upto_nonneg(a, a.len() as int);
}

/// Cosine similarity of two embeddings, held exactly as its signed square;
/// zero when either embedding has zero magnitude.
pub fn cosine_similarity(a: &[i16], b: &[i16]) -> (r: Cosine)
    requires
        a@.len() <= MAX_DIM,
        b@.len() <= MAX_DIM,
    ensures
        r.value() == cosine(a@, b@),
        r.value() == cosine(b@, a@),
        r.den > 0,
        -(r.den as int) <= r.num <= r.den,
        norm_sq(a@) == 0 || norm_sq(b@) == 0 ==> r.num == 0,
{
    proof {
        lemma_cosine_laws(a@, b@);
    }
    let na = magnitude_sq(a);
    let nb = magnitude_sq(b);
    if na == 0 || nb == 0 {
        return Cosine { num: 0, den: 1 };
    }
    let d = dot_product(a, b);
    proof {
        lemma_dot_bound(a@, b@);
    }
    let ad: i64 = if d < 0 { -d } else { d };
    proof {
        let (x, y) = (d as int, ad as int);
        assert(-0x10_0000_0000_0000_0000_0000 <= x * y <= 0x10_0000_0000_0000_0000_0000)
            by (nonlinear_arith)
            requires
                -0x400_0000_0000 <= x <= 0x400_0000_0000,
                0 <= y <= 0x400_0000_0000,
        ;
        let (u, v) = (na as int, nb as int);
        assert(0 < u * v <= 0x10_0000_0000_0000_0000_0000) by (nonlinear_arith)
            requires
                0 < u <= 0x400_0000_0000,
                0 < v <= 0x400_0000_0000,
        ;
    }
    let num = (d as i128) * (ad as i128);
    let den = (na as u128) * (nb as u128);
    Cosine { num, den }
}

} // verus!
