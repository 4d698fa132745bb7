//! Sums, differences and inner products of ring elements, and the four
//! combinations of them that the mechanism computes.

use crate::kyber::Kyber768;
use crate::packing::decompress_poly_spec;
use crate::ring::is_poly;
use crate::ring::is_poly_matrix;
use crate::ring::is_poly_vec;
use crate::ring::is_reduced;
use crate::ring::mat_polys;
use crate::ring::poly_add_spec;
use crate::ring::poly_mul_spec;
use crate::ring::poly_sub_spec;
use crate::ring::reduce_mod_q;
use crate::ring::vec_polys;
use vstd::prelude::*;

verus! {

/// The inner product of two vectors of three ring elements.
pub open spec fn inner_product_spec(a: Seq<Seq<i16>>, b: Seq<Seq<i16>>) -> Seq<i16> {
    poly_add_spec(
        poly_add_spec(poly_mul_spec(a[0], b[0]), poly_mul_spec(a[1], b[1])),
        poly_mul_spec(a[2], b[2]),
    )
}

/// The matrix `a` applied to the vector `v`, plus the vector `e`.
pub open spec fn mat_vec_add_spec(
    a: Seq<Seq<Seq<i16>>>,
    v: Seq<Seq<i16>>,
    e: Seq<Seq<i16>>,
) -> Seq<Seq<i16>> {
    Seq::new(3, |i: int| poly_add_spec(inner_product_spec(a[i], v), e[i]))
}

/// The ring element that carries a 32-byte message: each bit decompressed
/// from one bit to a coefficient.
pub open spec fn message_poly_spec(m: Seq<u8>) -> Seq<i16> {
    decompress_poly_spec(m, 1)
}

/// The second ciphertext component: `t . r + e2` plus the message.
pub open spec fn ciphertext_v_spec(
    t: Seq<Seq<i16>>,
    r: Seq<Seq<i16>>,
    e2: Seq<i16>,
    m: Seq<u8>,
) -> Seq<i16> {
    poly_add_spec(poly_add_spec(inner_product_spec(t, r), e2), message_poly_spec(m))
}

/// The noisy message that a secret recovers: `v - s . u`.
pub open spec fn message_spec(s: Seq<Seq<i16>>, u: Seq<Seq<i16>>, v: Seq<i16>) -> Seq<i16> {
    poly_sub_spec(v, inner_product_spec(s, u))
}

/// Coefficient-wise sum, reduced into `[0, q)`.
pub fn poly_add(a: &Vec<i16>, b: &Vec<i16>) -> (c: Vec<i16>)
    requires
        is_poly(a@),
        is_poly(b@),
    ensures
        c@ == poly_add_spec(a@, b@),
        is_reduced(c@),
{
    let mut c: Vec<i16> = Vec::new();
    let mut k: usize = 0;
    while k < 256
        invariant
            k <= 256,
            is_poly(a@),
            is_poly(b@),
            c@.len() == k,
            forall|j: int| 0 <= j < k ==> c@[j] == poly_add_spec(a@, b@)[j],
            forall|j: int| 0 <= j < k ==> 0 <= #[trigger] c@[j] < 3329,
        decreases 256 - k,
    {
        c.push(reduce_mod_q(a[k] as i64 + b[k] as i64));
        k += 1;
    }
    assert(c@ =~= poly_add_spec(a@, b@));
    c
}

/// Coefficient-wise difference, reduced into `[0, q)`.
pub fn poly_sub(a: &Vec<i16>, b: &Vec<i16>) -> (c: Vec<i16>)
    requires
        is_poly(a@),
        is_poly(b@),
    ensures
        c@ == poly_sub_spec(a@, b@),
        is_reduced(c@),
{
    let mut c: Vec<i16> = Vec::new();
    let mut k: usize = 0;
    while k < 256
        invariant
            k <= 256,
            is_poly(a@),
            is_poly(b@),
            c@.len() == k,
            forall|j: int| 0 <= j < k ==> c@[j] == poly_sub_spec(a@, b@)[j],
            forall|j: int| 0 <= j < k ==> 0 <= #[trigger] c@[j] < 3329,
        decreases 256 - k,
    {
        c.push(reduce_mod_q(a[k] as i64 - b[k] as i64));
        k += 1;
    }
    assert(c@ =~= poly_sub_spec(a@, b@));
    c
}

impl Kyber768 {
    /// The inner product of two vectors of three ring elements.
    pub fn inner_product(&self, a: &Vec<Vec<i16>>, b: &Vec<Vec<i16>>) -> (c: Vec<i16>)
        requires
            is_poly_vec(a@),
            is_poly_vec(b@),
        ensures
            c@ == inner_product_spec(vec_polys(a@), vec_polys(b@)),
            is_reduced(c@),
    {
        let p0: Vec<i16> = self.poly_mul(&a[0], &b[0]);
        let p1: Vec<i16> = self.poly_mul(&a[1], &b[1]);
        let p2: Vec<i16> = self.poly_mul(&a[2], &b[2]);
        let s01: Vec<i16> = poly_add(&p0, &p1);
        poly_add(&s01, &p2)
    }

    /// The matrix `a` applied to `v`, plus `e`.
    fn mat_vec_add(&self, a: &Vec<Vec<Vec<i16>>>, v: &Vec<Vec<i16>>, e: &Vec<Vec<i16>>) -> (t: Vec<
        Vec<i16>,
    >)
        requires
            is_poly_matrix(a@),
            is_poly_vec(v@),
            is_poly_vec(e@),
        ensures
            vec_polys(t@) == mat_vec_add_spec(mat_polys(a@), vec_polys(v@), vec_polys(e@)),
            is_poly_vec(t@),
            forall|i: int| 0 <= i < 3 ==> is_reduced(#[trigger] t@[i]@),
    {
        let mut t: Vec<Vec<i16>> = Vec::new();
        let mut i: usize = 0;
        while i < 3
            invariant
                i <= 3,
                is_poly_matrix(a@),
                is_poly_vec(v@),
                is_poly_vec(e@),
                t@.len() == i,
                forall|k: int|
                    0 <= k < i ==> (#[trigger] t@[k])@ == poly_add_spec(
                        inner_product_spec(vec_polys(a@[k]@), vec_polys(v@)),
                        e@[k]@,
                    ),
                forall|k: int| 0 <= k < i ==> is_reduced(#[trigger] t@[k]@),
            decreases 3 - i,
        {
            let ip: Vec<i16> = self.inner_product(&a[i], v);
            let ti: Vec<i16> = poly_add(&ip, &e[i]);
            t.push(ti);
            i += 1;
        }
        assert(vec_polys(t@) =~= mat_vec_add_spec(mat_polys(a@), vec_polys(v@), vec_polys(e@)));
        t
    }

    /// The public vector `t = A s + e`.
    pub fn compute_public_key(
        &self,
        a: &Vec<Vec<Vec<i16>>>,
        s: &Vec<Vec<i16>>,
        e: &Vec<Vec<i16>>,
    ) -> (t: Vec<Vec<i16>>)
        requires
            is_poly_matrix(a@),
            is_poly_vec(s@),
            is_poly_vec(e@),
        ensures
            vec_polys(t@) == mat_vec_add_spec(mat_polys(a@), vec_polys(s@), vec_polys(e@)),
            is_poly_vec(t@),
            forall|i: int| 0 <= i < 3 ==> is_reduced(#[trigger] t@[i]@),
    {
        self.mat_vec_add(a, s, e)
    }

    /// The first ciphertext component `u = A^T r + e1`, from the transposed
    /// matrix.
    pub fn compute_ciphertext_u(
        &self,
        a_t: &Vec<Vec<Vec<i16>>>,
        r: &Vec<Vec<i16>>,
        e1: &Vec<Vec<i16>>,
    ) -> (u: Vec<Vec<i16>>)
        requires
            is_poly_matrix(a_t@),
            is_poly_vec(r@),
            is_poly_vec(e1@),
        ensures
            vec_polys(u@) == mat_vec_add_spec(mat_polys(a_t@), vec_polys(r@), vec_polys(e1@)),
            is_poly_vec(u@),
            forall|i: int| 0 <= i < 3 ==> is_reduced(#[trigger] u@[i]@),
    {
        self.mat_vec_add(a_t, r, e1)
    }

    /// The second ciphertext component `v = t . r + e2 + message`.
    pub fn compute_ciphertext_v(
        &self,
        t: &Vec<Vec<i16>>,
        r: &Vec<Vec<i16>>,
        e2: &Vec<i16>,
        m: &[u8],
    ) -> (v: Vec<i16>)
        requires
            is_poly_vec(t@),
            is_poly_vec(r@),
            is_poly(e2@),
            m@.len() >= 32,
        ensures
            v@ == ciphertext_v_spec(vec_polys(t@), vec_polys(r@), e2@, m@),
            is_reduced(v@),
    {
        let ip: Vec<i16> = self.inner_product(t, r);
        let with_noise: Vec<i16> = poly_add(&ip, e2);
        let msg: Vec<i16> = self.decompress_poly(m, 1);
        poly_add(&with_noise, &msg)
    }

    /// The noisy message `v - s . u`.
    pub fn compute_message(&self, s: &Vec<Vec<i16>>, u: &Vec<Vec<i16>>, v: &Vec<i16>) -> (m: Vec<
        i16,
    >)
        requires
            is_poly_vec(s@),
            is_poly_vec(u@),
            is_poly(v@),
        ensures
            m@ == message_spec(vec_polys(s@), vec_polys(u@), v@),
            is_reduced(m@),
    {
        let ip: Vec<i16> = self.inner_product(s, u);
        poly_sub(v, &ip)
    }
}

} // verus!
