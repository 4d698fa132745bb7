//! Arithmetic in the ring Z_q[X]/(X^256 + 1).
//!
//! A ring element is a vector of 256 signed coefficients. Every operation
//! here returns its result with coefficients in `[0, q)`.

use crate::kyber::Kyber768;
use vstd::prelude::*;

verus! {

/// Number of coefficients of a ring element.
pub const KYBER_768_N: usize = 256;

/// The modulus q.
pub const KYBER_768_Q: u32 = 3329;

/// Rank of the module: vectors hold this many ring elements.
pub const KYBER_768_K: usize = 3;

/// Noise parameter of the secret and of the first-pass error.
pub const KYBER_768_ETA1: u32 = 3;

/// Noise parameter of the ciphertext error terms.
pub const KYBER_768_ETA2: u32 = 2;

/// A ring element has 256 coefficients.
pub open spec fn is_poly(p: Seq<i16>) -> bool {
    p.len() == 256
}

/// A ring element whose coefficients all lie in `[0, q)`.
pub open spec fn is_reduced(p: Seq<i16>) -> bool {
    &&& p.len() == 256
    &&& forall|i: int| 0 <= i < 256 ==> 0 <= #[trigger] p[i] < 3329
}

/// A vector of `K` ring elements.
pub open spec fn is_poly_vec(v: Seq<Vec<i16>>) -> bool {
    &&& v.len() == 3
    &&& forall|i: int| 0 <= i < 3 ==> is_poly(#[trigger] v[i]@)
}

/// A `K` by `K` matrix of ring elements.
pub open spec fn is_poly_matrix(m: Seq<Vec<Vec<i16>>>) -> bool {
    &&& m.len() == 3
    &&& forall|i: int| 0 <= i < 3 ==> is_poly_vec(#[trigger] m[i]@)
}

/// The ring elements of a vector, as sequences of coefficients.
pub open spec fn vec_polys(v: Seq<Vec<i16>>) -> Seq<Seq<i16>> {
    Seq::new(v.len(), |i: int| v[i]@)
}

/// The rows of a matrix, as sequences of ring elements.
pub open spec fn mat_polys(m: Seq<Vec<Vec<i16>>>) -> Seq<Seq<Seq<i16>>> {
    Seq::new(m.len(), |i: int| vec_polys(m[i]@))
}

/// The contribution of `a[i]` to coefficient `k` of the product `a * b`:
/// the partner index wraps at degree 256, and a wrapped term changes sign,
/// since X^256 = -1.
pub open spec fn conv_term(a: Seq<i16>, b: Seq<i16>, k: int, i: int) -> int {
    if i <= k {
        a[i] * b[k - i]
    } else {
        -(a[i] * b[k + 256 - i])
    }
}

/// The sum of the first `n` contributions to coefficient `k`.
pub open spec fn conv_sum(a: Seq<i16>, b: Seq<i16>, k: int, n: nat) -> int
    decreases n,
{
    if n == 0 {
        0
    } else {
        conv_sum(a, b, k, (n - 1) as nat) + conv_term(a, b, k, n - 1)
    }
}

/// The product of two ring elements, reduced into `[0, q)`.
pub open spec fn poly_mul_spec(a: Seq<i16>, b: Seq<i16>) -> Seq<i16> {
    Seq::new(256, |k: int| (conv_sum(a, b, k, 256) % 3329) as i16)
}

/// Coefficient-wise sum of two ring elements, reduced into `[0, q)`.
pub open spec fn poly_add_spec(a: Seq<i16>, b: Seq<i16>) -> Seq<i16> {
    Seq::new(256, |k: int| ((a[k] + b[k]) % 3329) as i16)
}

/// Coefficient-wise difference of two ring elements, reduced into `[0, q)`.
pub open spec fn poly_sub_spec(a: Seq<i16>, b: Seq<i16>) -> Seq<i16> {
    Seq::new(256, |k: int| ((a[k] - b[k]) % 3329) as i16)
}

/// The zero ring element.
pub open spec fn poly_zero_spec() -> Seq<i16> {
    Seq::new(256, |k: int| 0i16)
}

/// Reduces any integer that fits 32 bits into `[0, q)`.
pub fn reduce_mod_q(x: i64) -> (r: i16)
    requires
        -0x8000_0000 <= x <= 0x7fff_ffff,
    ensures
        r == x % 3329,
        0 <= r < 3329,
{
    // 645_100 * 3329 exceeds 2^31, so the shifted value is not negative.
    let shifted: i64 = x + 2_147_537_900;
    assert(shifted == x + 645_100 * 3329);
    assert((x + 645_100 * 3329) % 3329 == x % 3329);
    let r: i64 = shifted % 3329;
    r as i16
}

/// A fresh ring element with every coefficient zero.
pub fn poly_zero() -> (p: Vec<i16>)
    ensures
        p@ == poly_zero_spec(),
{
    let mut p: Vec<i16> = Vec::new();
    let mut i: usize = 0;
    while i < 256
        invariant
            i <= 256,
            p@.len() == i,
            forall|j: int| 0 <= j < i ==> p@[j] == 0i16,
        decreases 256 - i,
    {
        p.push(0i16);
        i += 1;
    }
    assert(p@ =~= poly_zero_spec());
    p
}

impl Kyber768 {

    /// Schoolbook multiplication in the ring: a convolution whose terms wrap at
    /// degree 256 with a change of sign.
    pub fn poly_mul(&self, a: &Vec<i16>, b: &Vec<i16>) -> (c: Vec<i16>)
        requires
            is_poly(a@),
            is_poly(b@),
        ensures
            c@ == poly_mul_spec(a@, b@),
            is_reduced(c@),
    {
        let mut c: Vec<i16> = Vec::new();
        let mut k: usize = 0;
        while k < 256
            invariant
                k <= 256,
                is_poly(a@),
                is_poly(b@),
                c@.len() == k,
                forall|j: int| 0 <= j < k ==> c@[j] == poly_mul_spec(a@, b@)[j],
            decreases 256 - k,
        {
            let mut acc: i16 = 0;
            let mut i: usize = 0;
            while i < 256
                invariant
                    i <= 256,
                    k < 256,
                    is_poly(a@),
                    is_poly(b@),
                    0 <= acc < 3329,
                    acc == conv_sum(a@, b@, k as int, i as nat) % 3329,
                decreases 256 - i,
            {
                let x: i64 = a[i] as i64;
                let term: i64 = if i <= k {
                    let y: i64 = b[k - i] as i64;
                    assert(-0x4000_0000 <= x * y <= 0x4000_0000) by (nonlinear_arith)
                        requires
                            -0x8000 <= x <= 0x7fff,
                            -0x8000 <= y <= 0x7fff,
                    ;
                    x * y
                } else {
                    let y: i64 = b[k + 256 - i] as i64;
                    assert(-0x4000_0000 <= x * y <= 0x4000_0000) by (nonlinear_arith)
                        requires
                            -0x8000 <= x <= 0x7fff,
                            -0x8000 <= y <= 0x7fff,
                    ;
                    -(x * y)
                };
                assert(term == conv_term(a@, b@, k as int, i as int));
                let ghost prev = conv_sum(a@, b@, k as int, i as nat);
                assert((prev % 3329 + term) % 3329 == (prev + term) % 3329);
                acc = reduce_mod_q(acc as i64 + term);
                i += 1;
            }
            c.push(acc);
            k += 1;
        }
        assert(c@ =~= poly_mul_spec(a@, b@));
        c
    }

} // impl Kyber768

/// Two to the power `e`.
pub open spec fn pow2(e: nat) -> int
    decreases e,
{
    if e == 0 {
        1
    } else {
        2 * pow2((e - 1) as nat)
    }
}

/// The powers of two up to 2^16, spelled out.
pub proof fn lemma_pow2_values()
    ensures
        pow2(0) == 1,
        pow2(1) == 2,
        pow2(2) == 4,
        pow2(3) == 8,
        pow2(4) == 16,
        pow2(5) == 32,
        pow2(6) == 64,
        pow2(7) == 128,
        pow2(8) == 256,
        pow2(9) == 512,
        pow2(10) == 1024,
        pow2(11) == 2048,
        pow2(12) == 4096,
        pow2(13) == 8192,
        pow2(14) == 16384,
        pow2(15) == 32768,
        pow2(16) == 65536,
{
    reveal_with_fuel(pow2, 18);
}

/// Computes a power of two.
pub fn pow2_exec(e: u8) -> (r: u32)
    requires
        e <= 16,
    ensures
        r == pow2(e as nat),
        1 <= r <= 65536,
{
    proof {
        lemma_pow2_values();
    }
    let mut r: u32 = 1;
    let mut i: u8 = 0;
    while i < e
        invariant
            i <= e <= 16,
            r == pow2(i as nat),
            1 <= r <= 65536,
            r == 65536 ==> i == 16,
            pow2(16) == 65536,
        decreases e - i,
    {
        proof {
            lemma_pow2_values();
        }
        r = r * 2;
        i += 1;
    }
    r
}

/// Bit `b` of a non-negative integer.
pub open spec fn bit_of(v: int, b: nat) -> int {
    (v / pow2(b)) % 2
}

/// Compression of one coefficient to `d` bits: the nearest integer to
/// `x * 2^d / q`, taken modulo `2^d`, where `x` is first brought into
/// `[0, q)`.
pub open spec fn compress_coeff(x: int, d: nat) -> int {
    ((2 * (x % 3329) * pow2(d) + 3329) / 6658) % pow2(d)
}

/// Decompression of a `d`-bit value: the nearest integer to `y * q / 2^d`.
pub open spec fn decompress_coeff(y: int, d: nat) -> int {
    (y * 3329 + pow2((d - 1) as nat)) / pow2(d)
}

/// The distance of two coefficients on the circle of residues modulo q.
pub open spec fn ring_distance(a: int, b: int) -> int {
    let r = (a - b) % 3329;
    if r <= 3329 - r {
        r
    } else {
        3329 - r
    }
}

/// The nearest integer to `q / 2^(d+1)`: the largest error that compression
/// to `d` bits followed by decompression can make.
pub open spec fn compress_error_bound(d: nat) -> int {
    (3329 + pow2(d)) / (2 * pow2(d))
}

/// Compresses one coefficient to `d` bits.
pub fn compress_value(x: i16, d: u8) -> (c: u16)
    requires
        1 <= d <= 12,
    ensures
        c == compress_coeff(x as int, d as nat),
        0 <= c < pow2(d as nat),
{
    let xm: u32 = reduce_mod_q(x as i64) as u32;
    let p: u32 = pow2_exec(d);
    proof {
        lemma_pow2_values();
    }
    assert(p <= 4096);
    assert(xm * p <= 3328 * 4096) by (nonlinear_arith)
        requires
            0 <= xm <= 3328,
            0 <= p <= 4096,
    ;
    let num: u32 = 2 * (xm * p) + 3329;
    assert(num == 2 * (x as int % 3329) * pow2(d as nat) + 3329) by (nonlinear_arith)
        requires
            num == 2 * (xm * p) + 3329,
            xm == x as int % 3329,
            p == pow2(d as nat),
    ;
    let rounded: u32 = num / 6658;
    let c: u32 = rounded % p;
    c as u16
}

/// Decompresses one `d`-bit value to a coefficient in `[0, q)`.
pub fn decompress_value(y: u16, d: u8) -> (x: i16)
    requires
        1 <= d <= 12,
        y < pow2(d as nat),
    ensures
        x == decompress_coeff(y as int, d as nat),
        0 <= x < 3329,
{
    let p: u32 = pow2_exec(d);
    let half: u32 = pow2_exec(d - 1);
    proof {
        lemma_pow2_values();
    }
    assert(p == 2 * half);
    assert(p <= 4096);
    let yy: u32 = y as u32;
    assert(yy * 3329 + half < p * 3329) by (nonlinear_arith)
        requires
            0 <= yy < p,
            p == 2 * half,
            1 <= half <= 2048,
    ;
    assert(p * 3329 <= 4096 * 3329) by (nonlinear_arith)
        requires
            p <= 4096,
    ;
    let num: u32 = yy * 3329 + half;
    let x: u32 = num / p;
    assert(x < 3329) by (nonlinear_arith)
        requires
            x == num / p,
            num < p * 3329,
            p >= 1,
    ;
    x as i16
}

proof fn lemma_round_trip_1(xm: int)
    requires
        0 <= xm < 3329,
    ensures
        ring_distance((((4 * xm + 3329) / 6658) % 2 * 3329 + 1) / 2, xm) <= 832,
{
    let c0 = (4 * xm + 3329) / 6658;
    assert(0 <= c0 <= 2);
    let c = if c0 == 2 { 0 } else { c0 };
    assert(c == c0 % 2);
    let y = (c * 3329 + 1) / 2;
    assert(2 * y <= c * 3329 + 1 < 2 * y + 2);
    assert(6658 * c0 <= 4 * xm + 3329 < 6658 * c0 + 6658);
    if c0 == 2 {
        assert(y == 0);
        assert(xm >= 3329 - 832);
    } else {
        assert(-832 <= y - xm <= 832);
    }
}

proof fn lemma_close_1(x: int)
    ensures
        ring_distance(decompress_coeff(compress_coeff(x, 1), 1), x) <= compress_error_bound(1),
{
    lemma_pow2_values();
    let xm = x % 3329;
    lemma_round_trip_1(xm);
    assert(pow2(1) == 2);
    assert(pow2(0) == 1);
    assert(2 * xm * pow2(1) == 4 * xm) by (nonlinear_arith)
        requires
            pow2(1) == 2,
    ;
    let c = compress_coeff(x, 1);
    assert(c == ((4 * xm + 3329) / 6658) % 2);
    let y = decompress_coeff(c, 1);
    assert(y == (c * 3329 + 1) / 2) by (nonlinear_arith)
        requires
            y == (c * 3329 + pow2(0)) / pow2(1),
            pow2(1) == 2,
            pow2(0) == 1,
    ;
    assert((y - x) % 3329 == (y - xm) % 3329);
    assert(compress_error_bound(1) == 832) by (nonlinear_arith)
        requires
            compress_error_bound(1) == (3329 + pow2(1)) / (2 * pow2(1)),
            pow2(1) == 2,
    ;
}

proof fn lemma_round_trip_2(xm: int)
    requires
        0 <= xm < 3329,
    ensures
        ring_distance((((8 * xm + 3329) / 6658) % 4 * 3329 + 2) / 4, xm) <= 416,
{
    let c0 = (8 * xm + 3329) / 6658;
    assert(0 <= c0 <= 4);
    let c = if c0 == 4 { 0 } else { c0 };
    assert(c == c0 % 4);
    let y = (c * 3329 + 2) / 4;
    assert(4 * y <= c * 3329 + 2 < 4 * y + 4);
    assert(6658 * c0 <= 8 * xm + 3329 < 6658 * c0 + 6658);
    if c0 == 4 {
        assert(y == 0);
        assert(xm >= 3329 - 416);
    } else {
        assert(-416 <= y - xm <= 416);
    }
}

proof fn lemma_close_2(x: int)
    ensures
        ring_distance(decompress_coeff(compress_coeff(x, 2), 2), x) <= compress_error_bound(2),
{
    lemma_pow2_values();
    let xm = x % 3329;
    lemma_round_trip_2(xm);
    assert(pow2(2) == 4);
    assert(pow2(1) == 2);
    assert(2 * xm * pow2(2) == 8 * xm) by (nonlinear_arith)
        requires
            pow2(2) == 4,
    ;
    let c = compress_coeff(x, 2);
    assert(c == ((8 * xm + 3329) / 6658) % 4);
    let y = decompress_coeff(c, 2);
    assert(y == (c * 3329 + 2) / 4) by (nonlinear_arith)
        requires
            y == (c * 3329 + pow2(1)) / pow2(2),
            pow2(2) == 4,
            pow2(1) == 2,
    ;
    assert((y - x) % 3329 == (y - xm) % 3329);
    assert(compress_error_bound(2) == 416) by (nonlinear_arith)
        requires
            compress_error_bound(2) == (3329 + pow2(2)) / (2 * pow2(2)),
            pow2(2) == 4,
    ;
}

proof fn lemma_round_trip_3(xm: int)
    requires
        0 <= xm < 3329,
    ensures
        ring_distance((((16 * xm + 3329) / 6658) % 8 * 3329 + 4) / 8, xm) <= 208,
{
    let c0 = (16 * xm + 3329) / 6658;
    assert(0 <= c0 <= 8);
    let c = if c0 == 8 { 0 } else { c0 };
    assert(c == c0 % 8);
    let y = (c * 3329 + 4) / 8;
    assert(8 * y <= c * 3329 + 4 < 8 * y + 8);
    assert(6658 * c0 <= 16 * xm + 3329 < 6658 * c0 + 6658);
    if c0 == 8 {
        assert(y == 0);
        assert(xm >= 3329 - 208);
    } else {
        assert(-208 <= y - xm <= 208);
    }
}

proof fn lemma_close_3(x: int)
    ensures
        ring_distance(decompress_coeff(compress_coeff(x, 3), 3), x) <= compress_error_bound(3),
{
    lemma_pow2_values();
    let xm = x % 3329;
    lemma_round_trip_3(xm);
    assert(pow2(3) == 8);
    assert(pow2(2) == 4);
    assert(2 * xm * pow2(3) == 16 * xm) by (nonlinear_arith)
        requires
            pow2(3) == 8,
    ;
    let c = compress_coeff(x, 3);
    assert(c == ((16 * xm + 3329) / 6658) % 8);
    let y = decompress_coeff(c, 3);
    assert(y == (c * 3329 + 4) / 8) by (nonlinear_arith)
        requires
            y == (c * 3329 + pow2(2)) / pow2(3),
            pow2(3) == 8,
            pow2(2) == 4,
    ;
    assert((y - x) % 3329 == (y - xm) % 3329);
    assert(compress_error_bound(3) == 208) by (nonlinear_arith)
        requires
            compress_error_bound(3) == (3329 + pow2(3)) / (2 * pow2(3)),
            pow2(3) == 8,
    ;
}

proof fn lemma_round_trip_4(xm: int)
    requires
        0 <= xm < 3329,
    ensures
        ring_distance((((32 * xm + 3329) / 6658) % 16 * 3329 + 8) / 16, xm) <= 104,
{
    let c0 = (32 * xm + 3329) / 6658;
    assert(0 <= c0 <= 16);
    let c = if c0 == 16 { 0 } else { c0 };
    assert(c == c0 % 16);
    let y = (c * 3329 + 8) / 16;
    assert(16 * y <= c * 3329 + 8 < 16 * y + 16);
    assert(6658 * c0 <= 32 * xm + 3329 < 6658 * c0 + 6658);
    if c0 == 16 {
        assert(y == 0);
        assert(xm >= 3329 - 104);
    } else {
        assert(-104 <= y - xm <= 104);
    }
}

proof fn lemma_close_4(x: int)
    ensures
        ring_distance(decompress_coeff(compress_coeff(x, 4), 4), x) <= compress_error_bound(4),
{
    lemma_pow2_values();
    let xm = x % 3329;
    lemma_round_trip_4(xm);
    assert(pow2(4) == 16);
    assert(pow2(3) == 8);
    assert(2 * xm * pow2(4) == 32 * xm) by (nonlinear_arith)
        requires
            pow2(4) == 16,
    ;
    let c = compress_coeff(x, 4);
    assert(c == ((32 * xm + 3329) / 6658) % 16);
    let y = decompress_coeff(c, 4);
    assert(y == (c * 3329 + 8) / 16) by (nonlinear_arith)
        requires
            y == (c * 3329 + pow2(3)) / pow2(4),
            pow2(4) == 16,
            pow2(3) == 8,
    ;
    assert((y - x) % 3329 == (y - xm) % 3329);
    assert(compress_error_bound(4) == 104) by (nonlinear_arith)
        requires
            compress_error_bound(4) == (3329 + pow2(4)) / (2 * pow2(4)),
            pow2(4) == 16,
    ;
}

proof fn lemma_round_trip_5(xm: int)
    requires
        0 <= xm < 3329,
    ensures
        ring_distance((((64 * xm + 3329) / 6658) % 32 * 3329 + 16) / 32, xm) <= 52,
{
    let c0 = (64 * xm + 3329) / 6658;
    assert(0 <= c0 <= 32);
    let c = if c0 == 32 { 0 } else { c0 };
    assert(c == c0 % 32);
    let y = (c * 3329 + 16) / 32;
    assert(32 * y <= c * 3329 + 16 < 32 * y + 32);
    assert(6658 * c0 <= 64 * xm + 3329 < 6658 * c0 + 6658);
    if c0 == 32 {
        assert(y == 0);
        assert(xm >= 3329 - 52);
    } else {
        assert(-52 <= y - xm <= 52);
    }
}

proof fn lemma_close_5(x: int)
    ensures
        ring_distance(decompress_coeff(compress_coeff(x, 5), 5), x) <= compress_error_bound(5),
{
    lemma_pow2_values();
    let xm = x % 3329;
    lemma_round_trip_5(xm);
    assert(pow2(5) == 32);
    assert(pow2(4) == 16);
    assert(2 * xm * pow2(5) == 64 * xm) by (nonlinear_arith)
        requires
            pow2(5) == 32,
    ;
    let c = compress_coeff(x, 5);
    assert(c == ((64 * xm + 3329) / 6658) % 32);
    let y = decompress_coeff(c, 5);
    assert(y == (c * 3329 + 16) / 32) by (nonlinear_arith)
        requires
            y == (c * 3329 + pow2(4)) / pow2(5),
            pow2(5) == 32,
            pow2(4) == 16,
    ;
    assert((y - x) % 3329 == (y - xm) % 3329);
    assert(compress_error_bound(5) == 52) by (nonlinear_arith)
        requires
            compress_error_bound(5) == (3329 + pow2(5)) / (2 * pow2(5)),
            pow2(5) == 32,
    ;
}

proof fn lemma_round_trip_6(xm: int)
    requires
        0 <= xm < 3329,
    ensures
        ring_distance((((128 * xm + 3329) / 6658) % 64 * 3329 + 32) / 64, xm) <= 26,
{
    let c0 = (128 * xm + 3329) / 6658;
    assert(0 <= c0 <= 64);
    let c = if c0 == 64 { 0 } else { c0 };
    assert(c == c0 % 64);
    let y = (c * 3329 + 32) / 64;
    assert(64 * y <= c * 3329 + 32 < 64 * y + 64);
    assert(6658 * c0 <= 128 * xm + 3329 < 6658 * c0 + 6658);
    if c0 == 64 {
        assert(y == 0);
        assert(xm >= 3329 - 26);
    } else {
        assert(-26 <= y - xm <= 26);
    }
}

proof fn lemma_close_6(x: int)
    ensures
        ring_distance(decompress_coeff(compress_coeff(x, 6), 6), x) <= compress_error_bound(6),
{
    lemma_pow2_values();
    let xm = x % 3329;
    lemma_round_trip_6(xm);
    assert(pow2(6) == 64);
    assert(pow2(5) == 32);
    assert(2 * xm * pow2(6) == 128 * xm) by (nonlinear_arith)
        requires
            pow2(6) == 64,
    ;
    let c = compress_coeff(x, 6);
    assert(c == ((128 * xm + 3329) / 6658) % 64);
    let y = decompress_coeff(c, 6);
    assert(y == (c * 3329 + 32) / 64) by (nonlinear_arith)
        requires
            y == (c * 3329 + pow2(5)) / pow2(6),
            pow2(6) == 64,
            pow2(5) == 32,
    ;
    assert((y - x) % 3329 == (y - xm) % 3329);
    assert(compress_error_bound(6) == 26) by (nonlinear_arith)
        requires
            compress_error_bound(6) == (3329 + pow2(6)) / (2 * pow2(6)),
            pow2(6) == 64,
    ;
}

proof fn lemma_round_trip_7(xm: int)
    requires
        0 <= xm < 3329,
    ensures
        ring_distance((((256 * xm + 3329) / 6658) % 128 * 3329 + 64) / 128, xm) <= 13,
{
    let c0 = (256 * xm + 3329) / 6658;
    assert(0 <= c0 <= 128);
    let c = if c0 == 128 { 0 } else { c0 };
    assert(c == c0 % 128);
    let y = (c * 3329 + 64) / 128;
    assert(128 * y <= c * 3329 + 64 < 128 * y + 128);
    assert(6658 * c0 <= 256 * xm + 3329 < 6658 * c0 + 6658);
    if c0 == 128 {
        assert(y == 0);
        assert(xm >= 3329 - 13);
    } else {
        assert(-13 <= y - xm <= 13);
    }
}

proof fn lemma_close_7(x: int)
    ensures
        ring_distance(decompress_coeff(compress_coeff(x, 7), 7), x) <= compress_error_bound(7),
{
    lemma_pow2_values();
    let xm = x % 3329;
    lemma_round_trip_7(xm);
    assert(pow2(7) == 128);
    assert(pow2(6) == 64);
    assert(2 * xm * pow2(7) == 256 * xm) by (nonlinear_arith)
        requires
            pow2(7) == 128,
    ;
    let c = compress_coeff(x, 7);
    assert(c == ((256 * xm + 3329) / 6658) % 128);
    let y = decompress_coeff(c, 7);
    assert(y == (c * 3329 + 64) / 128) by (nonlinear_arith)
        requires
            y == (c * 3329 + pow2(6)) / pow2(7),
            pow2(7) == 128,
            pow2(6) == 64,
    ;
    assert((y - x) % 3329 == (y - xm) % 3329);
    assert(compress_error_bound(7) == 13) by (nonlinear_arith)
        requires
            compress_error_bound(7) == (3329 + pow2(7)) / (2 * pow2(7)),
            pow2(7) == 128,
    ;
}

proof fn lemma_round_trip_8(xm: int)
    requires
        0 <= xm < 3329,
    ensures
        ring_distance((((512 * xm + 3329) / 6658) % 256 * 3329 + 128) / 256, xm) <= 7,
{
    let c0 = (512 * xm + 3329) / 6658;
    assert(0 <= c0 <= 256);
    let c = if c0 == 256 { 0 } else { c0 };
    assert(c == c0 % 256);
    let y = (c * 3329 + 128) / 256;
    assert(256 * y <= c * 3329 + 128 < 256 * y + 256);
    assert(6658 * c0 <= 512 * xm + 3329 < 6658 * c0 + 6658);
    if c0 == 256 {
        assert(y == 0);
        assert(xm >= 3329 - 7);
    } else {
        assert(-7 <= y - xm <= 7);
    }
}

proof fn lemma_close_8(x: int)
    ensures
        ring_distance(decompress_coeff(compress_coeff(x, 8), 8), x) <= compress_error_bound(8),
{
    lemma_pow2_values();
    let xm = x % 3329;
    lemma_round_trip_8(xm);
    assert(pow2(8) == 256);
    assert(pow2(7) == 128);
    assert(2 * xm * pow2(8) == 512 * xm) by (nonlinear_arith)
        requires
            pow2(8) == 256,
    ;
    let c = compress_coeff(x, 8);
    assert(c == ((512 * xm + 3329) / 6658) % 256);
    let y = decompress_coeff(c, 8);
    assert(y == (c * 3329 + 128) / 256) by (nonlinear_arith)
        requires
            y == (c * 3329 + pow2(7)) / pow2(8),
            pow2(8) == 256,
            pow2(7) == 128,
    ;
    assert((y - x) % 3329 == (y - xm) % 3329);
    assert(compress_error_bound(8) == 7) by (nonlinear_arith)
        requires
            compress_error_bound(8) == (3329 + pow2(8)) / (2 * pow2(8)),
            pow2(8) == 256,
    ;
}

proof fn lemma_round_trip_9(xm: int)
    requires
        0 <= xm < 3329,
    ensures
        ring_distance((((1024 * xm + 3329) / 6658) % 512 * 3329 + 256) / 512, xm) <= 3,
{
    let c0 = (1024 * xm + 3329) / 6658;
    assert(0 <= c0 <= 512);
    let c = if c0 == 512 { 0 } else { c0 };
    assert(c == c0 % 512);
    let y = (c * 3329 + 256) / 512;
    assert(512 * y <= c * 3329 + 256 < 512 * y + 512);
    assert(6658 * c0 <= 1024 * xm + 3329 < 6658 * c0 + 6658);
    if c0 == 512 {
        assert(y == 0);
        assert(xm >= 3329 - 3);
    } else {
        assert(-3 <= y - xm <= 3);
    }
}

proof fn lemma_close_9(x: int)
    ensures
        ring_distance(decompress_coeff(compress_coeff(x, 9), 9), x) <= compress_error_bound(9),
{
    lemma_pow2_values();
    let xm = x % 3329;
    lemma_round_trip_9(xm);
    assert(pow2(9) == 512);
    assert(pow2(8) == 256);
    assert(2 * xm * pow2(9) == 1024 * xm) by (nonlinear_arith)
        requires
            pow2(9) == 512,
    ;
    let c = compress_coeff(x, 9);
    assert(c == ((1024 * xm + 3329) / 6658) % 512);
    let y = decompress_coeff(c, 9);
    assert(y == (c * 3329 + 256) / 512) by (nonlinear_arith)
        requires
            y == (c * 3329 + pow2(8)) / pow2(9),
            pow2(9) == 512,
            pow2(8) == 256,
    ;
    assert((y - x) % 3329 == (y - xm) % 3329);
    assert(compress_error_bound(9) == 3) by (nonlinear_arith)
        requires
            compress_error_bound(9) == (3329 + pow2(9)) / (2 * pow2(9)),
            pow2(9) == 512,
    ;
}

proof fn lemma_round_trip_10(xm: int)
    requires
        0 <= xm < 3329,
    ensures
        ring_distance((((2048 * xm + 3329) / 6658) % 1024 * 3329 + 512) / 1024, xm) <= 2,
{
    let c0 = (2048 * xm + 3329) / 6658;
    assert(0 <= c0 <= 1024);
    let c = if c0 == 1024 { 0 } else { c0 };
    assert(c == c0 % 1024);
    let y = (c * 3329 + 512) / 1024;
    assert(1024 * y <= c * 3329 + 512 < 1024 * y + 1024);
    assert(6658 * c0 <= 2048 * xm + 3329 < 6658 * c0 + 6658);
    if c0 == 1024 {
        assert(y == 0);
        assert(xm >= 3329 - 2);
    } else {
        assert(-2 <= y - xm <= 2);
    }
}

proof fn lemma_close_10(x: int)
    ensures
        ring_distance(decompress_coeff(compress_coeff(x, 10), 10), x) <= compress_error_bound(10),
{
    lemma_pow2_values();
    let xm = x % 3329;
    lemma_round_trip_10(xm);
    assert(pow2(10) == 1024);
    assert(pow2(9) == 512);
    assert(2 * xm * pow2(10) == 2048 * xm) by (nonlinear_arith)
        requires
            pow2(10) == 1024,
    ;
    let c = compress_coeff(x, 10);
    assert(c == ((2048 * xm + 3329) / 6658) % 1024);
    let y = decompress_coeff(c, 10);
    assert(y == (c * 3329 + 512) / 1024) by (nonlinear_arith)
        requires
            y == (c * 3329 + pow2(9)) / pow2(10),
            pow2(10) == 1024,
            pow2(9) == 512,
    ;
    assert((y - x) % 3329 == (y - xm) % 3329);
    assert(compress_error_bound(10) == 2) by (nonlinear_arith)
        requires
            compress_error_bound(10) == (3329 + pow2(10)) / (2 * pow2(10)),
            pow2(10) == 1024,
    ;
}

proof fn lemma_round_trip_11(xm: int)
    requires
        0 <= xm < 3329,
    ensures
        ring_distance((((4096 * xm + 3329) / 6658) % 2048 * 3329 + 1024) / 2048, xm) <= 1,
{
    let c0 = (4096 * xm + 3329) / 6658;
    assert(0 <= c0 <= 2048);
    let c = if c0 == 2048 { 0 } else { c0 };
    assert(c == c0 % 2048);
    let y = (c * 3329 + 1024) / 2048;
    assert(2048 * y <= c * 3329 + 1024 < 2048 * y + 2048);
    assert(6658 * c0 <= 4096 * xm + 3329 < 6658 * c0 + 6658);
    if c0 == 2048 {
        assert(y == 0);
        assert(xm >= 3329 - 1);
    } else {
        assert(-1 <= y - xm <= 1);
    }
}

proof fn lemma_close_11(x: int)
    ensures
        ring_distance(decompress_coeff(compress_coeff(x, 11), 11), x) <= compress_error_bound(11),
{
    lemma_pow2_values();
    let xm = x % 3329;
    lemma_round_trip_11(xm);
    assert(pow2(11) == 2048);
    assert(pow2(10) == 1024);
    assert(2 * xm * pow2(11) == 4096 * xm) by (nonlinear_arith)
        requires
            pow2(11) == 2048,
    ;
    let c = compress_coeff(x, 11);
    assert(c == ((4096 * xm + 3329) / 6658) % 2048);
    let y = decompress_coeff(c, 11);
    assert(y == (c * 3329 + 1024) / 2048) by (nonlinear_arith)
        requires
            y == (c * 3329 + pow2(10)) / pow2(11),
            pow2(11) == 2048,
            pow2(10) == 1024,
    ;
    assert((y - x) % 3329 == (y - xm) % 3329);
    assert(compress_error_bound(11) == 1) by (nonlinear_arith)
        requires
            compress_error_bound(11) == (3329 + pow2(11)) / (2 * pow2(11)),
            pow2(11) == 2048,
    ;
}

proof fn lemma_round_trip_12(xm: int)
    requires
        0 <= xm < 3329,
    ensures
        ring_distance((((8192 * xm + 3329) / 6658) % 4096 * 3329 + 2048) / 4096, xm) <= 0,
{
    let c0 = (8192 * xm + 3329) / 6658;
    assert(0 <= c0 <= 4096);
    let c = if c0 == 4096 { 0 } else { c0 };
    assert(c == c0 % 4096);
    let y = (c * 3329 + 2048) / 4096;
    assert(4096 * y <= c * 3329 + 2048 < 4096 * y + 4096);
    assert(6658 * c0 <= 8192 * xm + 3329 < 6658 * c0 + 6658);
    if c0 == 4096 {
        assert(y == 0);
        assert(xm >= 3329 - 0);
    } else {
        assert(-0 <= y - xm <= 0);
    }
}

proof fn lemma_close_12(x: int)
    ensures
        ring_distance(decompress_coeff(compress_coeff(x, 12), 12), x) <= compress_error_bound(12),
{
    lemma_pow2_values();
    let xm = x % 3329;
    lemma_round_trip_12(xm);
    assert(pow2(12) == 4096);
    assert(pow2(11) == 2048);
    assert(2 * xm * pow2(12) == 8192 * xm) by (nonlinear_arith)
        requires
            pow2(12) == 4096,
    ;
    let c = compress_coeff(x, 12);
    assert(c == ((8192 * xm + 3329) / 6658) % 4096);
    let y = decompress_coeff(c, 12);
    assert(y == (c * 3329 + 2048) / 4096) by (nonlinear_arith)
        requires
            y == (c * 3329 + pow2(11)) / pow2(12),
            pow2(12) == 4096,
            pow2(11) == 2048,
    ;
    assert((y - x) % 3329 == (y - xm) % 3329);
    assert(compress_error_bound(12) == 0) by (nonlinear_arith)
        requires
            compress_error_bound(12) == (3329 + pow2(12)) / (2 * pow2(12)),
            pow2(12) == 4096,
    ;
}

/// Compression to `d` bits followed by decompression moves a coefficient by
/// at most the nearest integer to `q / 2^(d+1)`, measured modulo q.
pub proof fn lemma_compress_decompress_close(x: int, d: nat)
    requires
        1 <= d <= 12,
    ensures
        ring_distance(decompress_coeff(compress_coeff(x, d), d), x) <= compress_error_bound(d),
{
    if d == 1 {
        lemma_close_1(x);
    }
    if d == 2 {
        lemma_close_2(x);
    }
    if d == 3 {
        lemma_close_3(x);
    }
    if d == 4 {
        lemma_close_4(x);
    }
    if d == 5 {
        lemma_close_5(x);
    }
    if d == 6 {
        lemma_close_6(x);
    }
    if d == 7 {
        lemma_close_7(x);
    }
    if d == 8 {
        lemma_close_8(x);
    }
    if d == 9 {
        lemma_close_9(x);
    }
    if d == 10 {
        lemma_close_10(x);
    }
    if d == 11 {
        lemma_close_11(x);
    }
    if d == 12 {
        lemma_close_12(x);
    }
}

/// For the widths at which `q / 2^(d+1)` rounds down, the error of
/// compression followed by decompression is at most `q / 2^(d+1)` itself.
pub proof fn lemma_compress_decompress_within_fraction(x: int, d: nat)
    requires
        1 <= d <= 12,
        d != 8,
        d != 10,
        d != 11,
    ensures
        2 * pow2(d) * ring_distance(decompress_coeff(compress_coeff(x, d), d), x) <= 3329,
{
    lemma_pow2_values();
    if d == 1 {
        lemma_close_1(x);
        assert(pow2(1) == 2);
        assert(compress_error_bound(1) == 832) by (nonlinear_arith)
            requires
                compress_error_bound(1) == (3329 + pow2(1)) / (2 * pow2(1)),
                pow2(1) == 2,
        ;
        let e = ring_distance(decompress_coeff(compress_coeff(x, 1), 1), x);
        assert(2 * pow2(1) * e <= 3329) by (nonlinear_arith)
            requires
                pow2(1) == 2,
                e <= 832,
        ;
    }
    if d == 2 {
        lemma_close_2(x);
        assert(pow2(2) == 4);
        assert(compress_error_bound(2) == 416) by (nonlinear_arith)
            requires
                compress_error_bound(2) == (3329 + pow2(2)) / (2 * pow2(2)),
                pow2(2) == 4,
        ;
        let e = ring_distance(decompress_coeff(compress_coeff(x, 2), 2), x);
        assert(2 * pow2(2) * e <= 3329) by (nonlinear_arith)
            requires
                pow2(2) == 4,
                e <= 416,
        ;
    }
    if d == 3 {
        lemma_close_3(x);
        assert(pow2(3) == 8);
        assert(compress_error_bound(3) == 208) by (nonlinear_arith)
            requires
                compress_error_bound(3) == (3329 + pow2(3)) / (2 * pow2(3)),
                pow2(3) == 8,
        ;
        let e = ring_distance(decompress_coeff(compress_coeff(x, 3), 3), x);
        assert(2 * pow2(3) * e <= 3329) by (nonlinear_arith)
            requires
                pow2(3) == 8,
                e <= 208,
        ;
    }
    if d == 4 {
        lemma_close_4(x);
        assert(pow2(4) == 16);
        assert(compress_error_bound(4) == 104) by (nonlinear_arith)
            requires
                compress_error_bound(4) == (3329 + pow2(4)) / (2 * pow2(4)),
                pow2(4) == 16,
        ;
        let e = ring_distance(decompress_coeff(compress_coeff(x, 4), 4), x);
        assert(2 * pow2(4) * e <= 3329) by (nonlinear_arith)
            requires
                pow2(4) == 16,
                e <= 104,
        ;
    }
    if d == 5 {
        lemma_close_5(x);
        assert(pow2(5) == 32);
        assert(compress_error_bound(5) == 52) by (nonlinear_arith)
            requires
                compress_error_bound(5) == (3329 + pow2(5)) / (2 * pow2(5)),
                pow2(5) == 32,
        ;
        let e = ring_distance(decompress_coeff(compress_coeff(x, 5), 5), x);
        assert(2 * pow2(5) * e <= 3329) by (nonlinear_arith)
            requires
                pow2(5) == 32,
                e <= 52,
        ;
    }
    if d == 6 {
        lemma_close_6(x);
        assert(pow2(6) == 64);
        assert(compress_error_bound(6) == 26) by (nonlinear_arith)
            requires
                compress_error_bound(6) == (3329 + pow2(6)) / (2 * pow2(6)),
                pow2(6) == 64,
        ;
        let e = ring_distance(decompress_coeff(compress_coeff(x, 6), 6), x);
        assert(2 * pow2(6) * e <= 3329) by (nonlinear_arith)
            requires
                pow2(6) == 64,
                e <= 26,
        ;
    }
    if d == 7 {
        lemma_close_7(x);
        assert(pow2(7) == 128);
        assert(compress_error_bound(7) == 13) by (nonlinear_arith)
            requires
                compress_error_bound(7) == (3329 + pow2(7)) / (2 * pow2(7)),
                pow2(7) == 128,
        ;
        let e = ring_distance(decompress_coeff(compress_coeff(x, 7), 7), x);
        assert(2 * pow2(7) * e <= 3329) by (nonlinear_arith)
            requires
                pow2(7) == 128,
                e <= 13,
        ;
    }
    if d == 9 {
        lemma_close_9(x);
        assert(pow2(9) == 512);
        assert(compress_error_bound(9) == 3) by (nonlinear_arith)
            requires
                compress_error_bound(9) == (3329 + pow2(9)) / (2 * pow2(9)),
                pow2(9) == 512,
        ;
        let e = ring_distance(decompress_coeff(compress_coeff(x, 9), 9), x);
        assert(2 * pow2(9) * e <= 3329) by (nonlinear_arith)
            requires
                pow2(9) == 512,
                e <= 3,
        ;
    }
    if d == 12 {
        lemma_close_12(x);
        assert(pow2(12) == 4096);
        assert(compress_error_bound(12) == 0) by (nonlinear_arith)
            requires
                compress_error_bound(12) == (3329 + pow2(12)) / (2 * pow2(12)),
                pow2(12) == 4096,
        ;
        let e = ring_distance(decompress_coeff(compress_coeff(x, 12), 12), x);
        assert(2 * pow2(12) * e <= 3329) by (nonlinear_arith)
            requires
                pow2(12) == 4096,
                e <= 0,
        ;
    }
}

} // verus!
