//! Ring elements drawn from seed material: uniform ones for the public
//! matrix and small ones, centered binomial, for secrets and errors.

use crate::hash::append_bytes;
use crate::hash::sha256;
use crate::hash::sha256_digest;
use crate::kyber::Kyber768;
use crate::packing::read_bit_group;
use crate::packing::unpacked_value;
use crate::ring::bit_of;
use crate::ring::is_poly_matrix;
use crate::ring::is_poly_vec;
use crate::ring::is_reduced;
use crate::ring::lemma_pow2_values;
use crate::ring::mat_polys;
use crate::ring::poly_zero;
use crate::ring::pow2;
use crate::ring::pow2_exec;
use crate::ring::vec_polys;
use vstd::prelude::*;

verus! {

/// The two bytes of a 16-bit number, low byte first.
pub open spec fn le16(x: u16) -> Seq<u8> {
    seq![(x % 256) as u8, (x / 256) as u8]
}

/// The number of digest blocks that are read at most for one uniform ring
/// element: as many as a 16-bit counter can number.
pub const UNIFORM_MAX_BLOCKS: u32 = 65536;

/// `prev`, followed by the values below q among the first `pairs`
/// little-endian byte pairs of `block`, in order, as far as that makes no
/// more than 256 values.
pub open spec fn accept_pairs(prev: Seq<i16>, block: Seq<u8>, pairs: nat) -> Seq<i16>
    decreases pairs,
{
    if pairs == 0 {
        prev
    } else {
        let before = accept_pairs(prev, block, (pairs - 1) as nat);
        let v = block[2 * (pairs - 1)] as int + 256 * (block[2 * (pairs - 1) + 1] as int);
        if v < 3329 && before.len() < 256 {
            before.push(v as i16)
        } else {
            before
        }
    }
}

/// Block `counter` of the stream that a seed and a nonce expand to: the
/// digest of the seed, the nonce and the counter.
pub open spec fn uniform_block_spec(seed: Seq<u8>, nonce: u16, counter: u16) -> Seq<u8> {
    sha256(seed + le16(nonce) + le16(counter))
}

/// The values that rejection sampling accepts from the first `blocks`
/// blocks of the stream, at most 256 of them.
pub open spec fn accepted_stream(seed: Seq<u8>, nonce: u16, blocks: nat) -> Seq<i16>
    decreases blocks,
{
    if blocks == 0 {
        Seq::<i16>::empty()
    } else {
        accept_pairs(
            accepted_stream(seed, nonce, (blocks - 1) as nat),
            uniform_block_spec(seed, nonce, (blocks - 1) as u16),
            16,
        )
    }
}

/// A ring element that starts with the given values; where they run out,
/// the coefficients are zero.
pub open spec fn padded(values: Seq<i16>) -> Seq<i16> {
    Seq::new(
        256,
        |i: int|
            if i < values.len() {
                values[i]
            } else {
                0i16
            },
    )
}

/// The uniform ring element of a seed and a 16-bit nonce: the first 256
/// values that rejection sampling accepts from the stream. Coefficients
/// are zero only where the whole stream does not yield 256 values.
pub open spec fn sample_uniform_spec(seed: Seq<u8>, nonce: u16) -> Seq<i16> {
    padded(accepted_stream(seed, nonce, 65536))
}

/// Accepting from a block adds values and never leads past 256 of them.
pub proof fn lemma_accept_pairs_bounds(prev: Seq<i16>, block: Seq<u8>, pairs: nat)
    requires
        prev.len() <= 256,
    ensures
        prev.len() <= accept_pairs(prev, block, pairs).len() <= 256,
        prev.len() == 256 ==> accept_pairs(prev, block, pairs) == prev,
    decreases pairs,
{
    if pairs > 0 {
        lemma_accept_pairs_bounds(prev, block, (pairs - 1) as nat);
    }
}

/// Accepting from a block leaves the values that were there in place.
pub proof fn lemma_accept_pairs_prefix(prev: Seq<i16>, block: Seq<u8>, pairs: nat, i: int)
    requires
        0 <= i < prev.len(),
    ensures
        i < accept_pairs(prev, block, pairs).len(),
        accept_pairs(prev, block, pairs)[i] == prev[i],
    decreases pairs,
{
    if pairs > 0 {
        lemma_accept_pairs_prefix(prev, block, (pairs - 1) as nat, i);
    }
}

/// The stream never yields more than 256 values.
pub proof fn lemma_stream_bounded(seed: Seq<u8>, nonce: u16, blocks: nat)
    ensures
        accepted_stream(seed, nonce, blocks).len() <= 256,
    decreases blocks,
{
    if blocks > 0 {
        lemma_stream_bounded(seed, nonce, (blocks - 1) as nat);
        lemma_accept_pairs_bounds(
            accepted_stream(seed, nonce, (blocks - 1) as nat),
            uniform_block_spec(seed, nonce, (blocks - 1) as u16),
            16,
        );
    }
}

/// Once 256 values are accepted, further blocks change nothing.
pub proof fn lemma_full_stream_stays(seed: Seq<u8>, nonce: u16, n: nat, m: nat)
    requires
        n <= m,
        accepted_stream(seed, nonce, n).len() == 256,
    ensures
        accepted_stream(seed, nonce, m) == accepted_stream(seed, nonce, n),
    decreases m,
{
    if n < m {
        lemma_full_stream_stays(seed, nonce, n, (m - 1) as nat);
        lemma_accept_pairs_bounds(
            accepted_stream(seed, nonce, (m - 1) as nat),
            uniform_block_spec(seed, nonce, (m - 1) as u16),
            16,
        );
    }
}

/// The number of ones among the `n` bits of `v` from bit `from` on.
pub open spec fn bits_sum(v: int, from: nat, n: nat) -> int
    decreases n,
{
    if n == 0 {
        0
    } else {
        bits_sum(v, from, (n - 1) as nat) + bit_of(v, (from + n - 1) as nat)
    }
}

/// The centered binomial value of `2 * eta` bits: the ones among the low
/// `eta` bits less the ones among the next `eta` bits.
pub open spec fn cbd_value(v: int, eta: nat) -> int {
    bits_sum(v, 0, eta) - bits_sum(v, eta, eta)
}

/// The noise ring element that a buffer of `64 * eta` bytes yields:
/// coefficient `i` is the centered binomial value of the `i`-th group of
/// `2 * eta` bits.
pub open spec fn cbd_poly_spec(buf: Seq<u8>, eta: nat) -> Seq<i16> {
    Seq::new(256, |i: int| cbd_value(unpacked_value(buf, 2 * eta, i, 2 * eta), eta) as i16)
}

/// The first `blocks` blocks of the stream that `input` expands to: block
/// `c` is the digest of `input` followed by the byte `c`.
pub open spec fn expand_spec(input: Seq<u8>, blocks: nat) -> Seq<u8>
    decreases blocks,
{
    if blocks == 0 {
        Seq::<u8>::empty()
    } else {
        expand_spec(input, (blocks - 1) as nat) + sha256(input + seq![(blocks - 1) as u8])
    }
}

/// The noise ring element of a seed and a one-byte nonce: the centered
/// binomial values of the `64 * eta` bytes that seed and nonce expand to.
pub open spec fn sample_cbd_spec(seed: Seq<u8>, eta: nat, nonce: u8) -> Seq<i16> {
    cbd_poly_spec(expand_spec(seed + seq![nonce], 2 * eta), eta)
}

/// Three noise ring elements with consecutive nonces.
pub open spec fn noise_vector_spec(seed: Seq<u8>, eta: nat, nonce_offset: u8) -> Seq<Seq<i16>> {
    Seq::new(3, |i: int| sample_cbd_spec(seed, eta, (nonce_offset + i) as u8))
}

/// The nonce of the matrix entry in row `i`, column `j`.
pub open spec fn matrix_nonce(i: int, j: int, transpose: bool) -> u16 {
    if transpose {
        (i + 3 * j) as u16
    } else {
        (j + 3 * i) as u16
    }
}

/// The public matrix of a seed, or its transpose.
pub open spec fn matrix_spec(rho: Seq<u8>, transpose: bool) -> Seq<Seq<Seq<i16>>> {
    Seq::new(
        3,
        |i: int| Seq::new(3, |j: int| sample_uniform_spec(rho, matrix_nonce(i, j, transpose))),
    )
}

/// Every coefficient lies in `[-eta, eta]`.
pub open spec fn is_small(p: Seq<i16>, eta: int) -> bool {
    &&& p.len() == 256
    &&& forall|i: int| 0 <= i < 256 ==> -eta <= #[trigger] p[i] <= eta
}

/// Rejection sampling on one block: reads the block two bytes at a time
/// and writes the values below q into `poly` from place `ctr` on, as long
/// as there is room. Returns the number of places then filled.
pub fn accept_from_block(poly: &mut Vec<i16>, ctr: usize, block: &[u8]) -> (filled: usize)
    requires
        old(poly)@.len() == 256,
        ctr <= 256,
    ensures
        final(poly)@.len() == 256,
        ctr <= filled <= 256,
        final(poly)@.take(filled as int) == accept_pairs(
            old(poly)@.take(ctr as int),
            block@,
            (block@.len() / 2) as nat,
        ),
        forall|i: int| filled <= i < 256 ==> final(poly)@[i] == old(poly)@[i],
        forall|i: int| ctr <= i < filled ==> 0 <= #[trigger] final(poly)@[i] < 3329,
{
    let ghost prev = poly@.take(ctr as int);
    let pairs: usize = block.len() / 2;
    let mut filled: usize = ctr;
    let mut n: usize = 0;
    while n < pairs
        invariant
            n <= pairs,
            pairs == block@.len() / 2,
            2 * pairs <= block.len(),
            ctr <= filled <= 256,
            prev.len() == ctr,
            poly@.len() == 256,
            poly@.take(filled as int) == accept_pairs(prev, block@, n as nat),
            forall|i: int| filled <= i < 256 ==> poly@[i] == old(poly)@[i],
            forall|i: int| ctr <= i < filled ==> 0 <= #[trigger] poly@[i] < 3329,
        decreases pairs - n,
    {
        let val: u32 = block[2 * n] as u32 + 256 * (block[2 * n + 1] as u32);
        if val < 3329 && filled < 256 {
            let ghost before = poly@;
            poly[filled] = val as i16;
            assert(poly@.take(filled + 1) =~= before.take(filled as int).push(val as i16));
            filled += 1;
        }
        n += 1;
    }
    filled
}

/// The noise ring element of a buffer of at least `64 * eta` bytes.
pub fn cbd_poly_from_block(buf: &[u8], eta: u32) -> (poly: Vec<i16>)
    requires
        1 <= eta <= 4,
        buf@.len() >= 64 * eta,
    ensures
        poly@ == cbd_poly_spec(buf@, eta as nat),
        is_small(poly@, eta as int),
{
    let d: u8 = (2 * eta) as u8;
    let mut poly: Vec<i16> = Vec::new();
    let mut i: usize = 0;
    while i < 256
        invariant
            i <= 256,
            1 <= eta <= 4,
            d == 2 * eta,
            buf@.len() >= 64 * eta,
            poly@.len() == i,
            forall|k: int|
                0 <= k < i ==> #[trigger] poly@[k] == cbd_value(
                    unpacked_value(buf@, 2 * (eta as nat), k, 2 * (eta as nat)),
                    eta as nat,
                ) as i16,
            forall|k: int| 0 <= k < i ==> -eta <= #[trigger] poly@[k] <= eta,
        decreases 256 - i,
    {
        let group: u16 = read_bit_group(buf, d, i);
        proof {
            lemma_pow2_values();
            if eta == 1 {
                assert(pow2(d as nat) == 4);
            } else if eta == 2 {
                assert(pow2(d as nat) == 16);
            } else if eta == 3 {
                assert(pow2(d as nat) == 64);
            } else {
                assert(pow2(d as nat) == 256);
            }
        }
        let c: i16 = Kyber768::cbd(group as u8, eta);
        poly.push(c);
        i += 1;
    }
    assert(poly@ =~= cbd_poly_spec(buf@, eta as nat));
    poly
}

impl Kyber768 {
    /// The centered binomial value of the low `2 * eta` bits of a byte.
    pub fn cbd(byte: u8, eta: u32) -> (r: i16)
        requires
            1 <= eta <= 4,
        ensures
            r == cbd_value(byte as int, eta as nat),
            -eta <= r <= eta,
    {
        let mut a: i16 = 0;
        let mut b: i16 = 0;
        let mut i: u32 = 0;
        while i < eta
            invariant
                i <= eta <= 4,
                a == bits_sum(byte as int, 0, i as nat),
                b == bits_sum(byte as int, eta as nat, i as nat),
                0 <= a <= i,
                0 <= b <= i,
            decreases eta - i,
        {
            let lo: u32 = (byte as u32 / pow2_exec(i as u8)) % 2;
            let hi: u32 = (byte as u32 / pow2_exec((eta + i) as u8)) % 2;
            a = a + lo as i16;
            b = b + hi as i16;
            i += 1;
        }
        a - b
    }

    /// Expands a seed and a 16-bit nonce into a ring element with
    /// coefficients in `[0, q)`: digest blocks are read, one per value of a
    /// counter, until rejection sampling has accepted 256 values.
    pub fn sample_uniform_poly(&self, seed: &[u8], nonce: u16) -> (poly: Vec<i16>)
        ensures
            poly@ == sample_uniform_spec(seed@, nonce),
            is_reduced(poly@),
    {
        let mut poly: Vec<i16> = poly_zero();
        let mut filled: usize = 0;
        let mut counter: u32 = 0;
        assert(poly@.take(0) =~= accepted_stream(seed@, nonce, 0));
        while filled < 256 && counter < UNIFORM_MAX_BLOCKS
            invariant
                counter <= 65536,
                filled <= 256,
                poly@.len() == 256,
                poly@.take(filled as int) == accepted_stream(seed@, nonce, counter as nat),
                forall|i: int| filled <= i < 256 ==> poly@[i] == 0i16,
                forall|i: int| 0 <= i < 256 ==> 0 <= #[trigger] poly@[i] < 3329,
            decreases 65536 - counter,
        {
            let mut input: Vec<u8> = Vec::new();
            append_bytes(&mut input, seed);
            input.push((nonce % 256) as u8);
            input.push((nonce / 256) as u8);
            input.push((counter % 256) as u8);
            input.push((counter / 256) as u8);
            assert(input@ =~= seed@ + le16(nonce) + le16(counter as u16));
            let block: Vec<u8> = sha256_digest(input.as_slice());
            let ghost before = poly@;
            let ghost start = filled;
            filled = accept_from_block(&mut poly, filled, block.as_slice());
            proof {
                assert forall|i: int| 0 <= i < 256 implies 0 <= #[trigger] poly@[i] < 3329 by {
                    if i < start {
                        assert(poly@.take(filled as int)[i] == poly@[i]);
                        lemma_accept_pairs_prefix(before.take(start as int), block@, 16, i);
                        assert(before.take(start as int)[i] == before[i]);
                    }
                }
            }
            counter += 1;
        }
        proof {
            if filled == 256 {
                lemma_full_stream_stays(seed@, nonce, counter as nat, 65536);
            }
            assert(poly@ =~= padded(accepted_stream(seed@, nonce, 65536))) by {
                let acc = accepted_stream(seed@, nonce, 65536);
                assert(acc == poly@.take(filled as int));
                assert forall|i: int| 0 <= i < 256 implies poly@[i] == padded(acc)[i] by {
                    if i < filled {
                        assert(poly@.take(filled as int)[i] == poly@[i]);
                    }
                }
            }
        }
        poly
    }

    /// Expands a seed and a one-byte nonce into a noise ring element with
    /// coefficients in `[-eta, eta]`: `2 * eta` digest blocks are read, one
    /// per value of a counter, and every coefficient gets its own bits.
    pub fn sample_poly_cbd(&self, seed: &[u8], eta: u32, nonce: u8) -> (poly: Vec<i16>)
        requires
            1 <= eta <= 4,
        ensures
            poly@ == sample_cbd_spec(seed@, eta as nat, nonce),
            is_small(poly@, eta as int),
    {
        let blocks: u8 = (2 * eta) as u8;
        let mut buf: Vec<u8> = Vec::new();
        let mut c: u8 = 0;
        while c < blocks
            invariant
                c <= blocks,
                blocks == 2 * eta,
                1 <= eta <= 4,
                buf@.len() == 32 * c,
                buf@ == expand_spec(seed@ + seq![nonce], c as nat),
            decreases blocks - c,
        {
            let mut input: Vec<u8> = Vec::new();
            append_bytes(&mut input, seed);
            input.push(nonce);
            input.push(c);
            assert(input@ =~= (seed@ + seq![nonce]) + seq![c]);
            let block: Vec<u8> = sha256_digest(input.as_slice());
            append_bytes(&mut buf, block.as_slice());
            c += 1;
        }
        cbd_poly_from_block(buf.as_slice(), eta)
    }

    /// Three noise ring elements, with the nonces `nonce_offset`,
    /// `nonce_offset + 1` and `nonce_offset + 2`.
    pub fn sample_noise_vector(&self, seed: &[u8], eta: u32, nonce_offset: u8) -> (v: Vec<
        Vec<i16>,
    >)
        requires
            1 <= eta <= 4,
            nonce_offset <= 253,
        ensures
            vec_polys(v@) == noise_vector_spec(seed@, eta as nat, nonce_offset),
            is_poly_vec(v@),
            forall|i: int| 0 <= i < 3 ==> is_small(#[trigger] v@[i]@, eta as int),
    {
        let mut v: Vec<Vec<i16>> = Vec::new();
        let mut i: u8 = 0;
        while i < 3
            invariant
                i <= 3,
                1 <= eta <= 4,
                nonce_offset <= 253,
                v@.len() == i,
                forall|k: int|
                    0 <= k < i ==> (#[trigger] v@[k])@ == sample_cbd_spec(
                        seed@,
                        eta as nat,
                        (nonce_offset + k) as u8,
                    ),
                forall|k: int| 0 <= k < i ==> is_small(#[trigger] v@[k]@, eta as int),
            decreases 3 - i,
        {
            let p: Vec<i16> = self.sample_poly_cbd(seed, eta, nonce_offset + i);
            v.push(p);
            i += 1;
        }
        assert(vec_polys(v@) =~= noise_vector_spec(seed@, eta as nat, nonce_offset));
        v
    }

    /// The three by three public matrix of a seed; with `transpose`, entry
    /// `(i, j)` is the one that the plain matrix holds at `(j, i)`.
    pub fn sample_matrix(&self, rho: &[u8], transpose: bool) -> (a: Vec<Vec<Vec<i16>>>)
        ensures
            mat_polys(a@) == matrix_spec(rho@, transpose),
            is_poly_matrix(a@),
            forall|i: int, j: int|
                0 <= i < 3 && 0 <= j < 3 ==> is_reduced(#[trigger] a@[i]@[j]@),
    {
        let mut a: Vec<Vec<Vec<i16>>> = Vec::new();
        let mut i: usize = 0;
        while i < 3
            invariant
                i <= 3,
                a@.len() == i,
                forall|r: int| 0 <= r < i ==> (#[trigger] a@[r])@.len() == 3,
                forall|r: int, c: int|
                    0 <= r < i && 0 <= c < 3 ==> (#[trigger] a@[r]@[c])@ == sample_uniform_spec(
                        rho@,
                        matrix_nonce(r, c, transpose),
                    ),
                forall|r: int, c: int|
                    0 <= r < i && 0 <= c < 3 ==> is_reduced(#[trigger] a@[r]@[c]@),
            decreases 3 - i,
        {
            let mut row: Vec<Vec<i16>> = Vec::new();
            let mut j: usize = 0;
            while j < 3
                invariant
                    i < 3,
                    j <= 3,
                    row@.len() == j,
                    forall|c: int|
                        0 <= c < j ==> (#[trigger] row@[c])@ == sample_uniform_spec(
                            rho@,
                            matrix_nonce(i as int, c, transpose),
                        ),
                    forall|c: int| 0 <= c < j ==> is_reduced(#[trigger] row@[c]@),
                decreases 3 - j,
            {
                let idx: usize = if transpose {
                    i + 3 * j
                } else {
                    j + 3 * i
                };
                let poly: Vec<i16> = self.sample_uniform_poly(rho, idx as u16);
                row.push(poly);
                j += 1;
            }
            a.push(row);
            i += 1;
        }
        assert(mat_polys(a@) =~~= matrix_spec(rho@, transpose));
        a
    }
}

} // verus!
