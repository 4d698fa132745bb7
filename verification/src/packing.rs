//! Compression of ring elements to `d` bits per coefficient, packed into
//! bytes with the least significant bit first, and the way back.

use crate::hash::append_bytes;
use crate::hash::copy_range;
use crate::kyber::Kyber768;
use crate::ring::bit_of;
use crate::ring::compress_coeff;
use crate::ring::compress_value;
use crate::ring::decompress_coeff;
use crate::ring::decompress_value;
use crate::ring::is_poly;
use crate::ring::is_poly_vec;
use crate::ring::vec_polys;
use crate::ring::is_reduced;
use crate::ring::lemma_pow2_values;
use crate::ring::pow2;
use crate::ring::pow2_exec;
use vstd::prelude::*;

verus! {

/// Bit `pos` of the stream that holds the compressed coefficients of `p`
/// one after the other, `d` bits each, lowest bit first.
pub open spec fn packed_bit(p: Seq<i16>, d: nat, pos: int) -> int {
    bit_of(compress_coeff(p[pos / (d as int)] as int, d), (pos % (d as int)) as nat)
}

/// The value of the lowest `t` bits of byte `j` of that stream.
pub open spec fn packed_byte(p: Seq<i16>, d: nat, j: int, t: nat) -> int
    decreases t,
{
    if t == 0 {
        0
    } else {
        packed_byte(p, d, j, (t - 1) as nat) + packed_bit(p, d, 8 * j + t - 1) * pow2(
            (t - 1) as nat,
        )
    }
}

/// A ring element compressed to `d` bits per coefficient: `32 * d` bytes.
pub open spec fn compress_poly_spec(p: Seq<i16>, d: nat) -> Seq<u8> {
    Seq::new(32 * d, |j: int| packed_byte(p, d, j, 8) as u8)
}

/// Bit `pos` of a byte string, lowest bit of each byte first.
pub open spec fn stream_bit(bytes: Seq<u8>, pos: int) -> int {
    bit_of(bytes[pos / 8] as int, (pos % 8) as nat)
}

/// The value of the lowest `t` bits of the `i`-th group of `d` bits.
pub open spec fn unpacked_value(bytes: Seq<u8>, d: nat, i: int, t: nat) -> int
    decreases t,
{
    if t == 0 {
        0
    } else {
        unpacked_value(bytes, d, i, (t - 1) as nat) + stream_bit(bytes, i * d + t - 1) * pow2(
            (t - 1) as nat,
        )
    }
}

/// The ring element that `32 * d` packed bytes decompress to.
pub open spec fn decompress_poly_spec(bytes: Seq<u8>, d: nat) -> Seq<i16> {
    Seq::new(256, |i: int| decompress_coeff(unpacked_value(bytes, d, i, d), d) as i16)
}

/// The compressed forms of the ring elements of a vector, one after the
/// other.
pub open spec fn compress_vec_spec(v: Seq<Seq<i16>>, d: nat) -> Seq<u8>
    decreases v.len(),
{
    if v.len() == 0 {
        Seq::<u8>::empty()
    } else {
        compress_vec_spec(v.drop_last(), d) + compress_poly_spec(v.last(), d)
    }
}

/// The three ring elements that `3 * 32 * d` packed bytes decompress to.
pub open spec fn decompress_vec_spec(bytes: Seq<u8>, d: nat) -> Seq<Seq<i16>> {
    Seq::new(
        3,
        |i: int| decompress_poly_spec(bytes.subrange(i * (32 * d), (i + 1) * (32 * d)), d),
    )
}

/// Reads the `i`-th group of `d` bits of a byte string.
pub fn read_bit_group(bytes: &[u8], d: u8, i: usize) -> (v: u16)
    requires
        1 <= d <= 12,
        i < 256,
        bytes@.len() >= 32 * d,
    ensures
        v == unpacked_value(bytes@, d as nat, i as int, d as nat),
        v < pow2(d as nat),
{
    let dd: usize = d as usize;
    assert(i * dd + dd <= 256 * dd) by (nonlinear_arith)
        requires
            i < 256,
            dd > 0,
    ;
    let base: usize = i * dd;
    let mut acc: u32 = 0;
    let mut t: u8 = 0;
    while t < d
        invariant
            t <= d,
            1 <= d <= 12,
            i < 256,
            dd == d,
            base == i * dd,
            base + dd <= 256 * dd,
            bytes@.len() >= 32 * d,
            acc == unpacked_value(bytes@, d as nat, i as int, t as nat),
            0 <= acc < pow2(t as nat),
            pow2(t as nat) <= 4096,
        decreases d - t,
    {
        let pos: usize = base + t as usize;
        let byte: u8 = bytes[pos / 8];
        let b: u8 = (pos % 8) as u8;
        let bit: u32 = (byte as u32 / pow2_exec(b)) % 2;
        let pt: u32 = pow2_exec(t);
        assert(bit == stream_bit(bytes@, pos as int));
        assert(bit * pt == if bit == 1 { pt } else { 0 }) by (nonlinear_arith)
            requires
                bit == 0 || bit == 1,
        ;
        proof {
            lemma_pow2_values();
        }
        if bit == 1 {
            acc = acc + pt;
        }
        t += 1;
    }
    acc as u16
}

impl Kyber768 {
    /// Compresses every coefficient to `d` bits and packs the bits.
    pub fn compress_poly(&self, poly: &Vec<i16>, d: u8) -> (out: Vec<u8>)
        requires
            is_poly(poly@),
            1 <= d <= 12,
        ensures
            out@ == compress_poly_spec(poly@, d as nat),
            out@.len() == 32 * d,
    {
        let mut vals: Vec<u16> = Vec::new();
        let mut i: usize = 0;
        while i < 256
            invariant
                i <= 256,
                is_poly(poly@),
                1 <= d <= 12,
                vals@.len() == i,
                forall|k: int|
                    0 <= k < i ==> vals@[k] as int == compress_coeff(
                        #[trigger] poly@[k] as int,
                        d as nat,
                    ),
            decreases 256 - i,
        {
            vals.push(compress_value(poly[i], d));
            i += 1;
        }
        let nbytes: usize = 32 * (d as usize);
        let mut out: Vec<u8> = Vec::new();
        let mut j: usize = 0;
        while j < nbytes
            invariant
                j <= nbytes,
                nbytes == 32 * d,
                1 <= d <= 12,
                vals@.len() == 256,
                forall|k: int|
                    0 <= k < 256 ==> vals@[k] as int == compress_coeff(
                        #[trigger] poly@[k] as int,
                        d as nat,
                    ),
                out@.len() == j,
                forall|k: int|
                    0 <= k < j ==> out@[k] == packed_byte(poly@, d as nat, k, 8) as u8,
            decreases nbytes - j,
        {
            let mut acc: u32 = 0;
            let mut t: u8 = 0;
            while t < 8
                invariant
                    t <= 8,
                    j < nbytes,
                    nbytes == 32 * d,
                    1 <= d <= 12,
                    vals@.len() == 256,
                    forall|k: int|
                        0 <= k < 256 ==> vals@[k] as int == compress_coeff(
                            #[trigger] poly@[k] as int,
                            d as nat,
                        ),
                    acc == packed_byte(poly@, d as nat, j as int, t as nat),
                    0 <= acc < pow2(t as nat),
                    pow2(t as nat) <= 256,
                decreases 8 - t,
            {
                let pos: usize = 8 * j + t as usize;
                let dd: usize = d as usize;
                let i: usize = pos / dd;
                assert(i < 256) by (nonlinear_arith)
                    requires
                        i == pos / dd,
                        pos < 256 * dd,
                        dd > 0,
                ;
                let b: u8 = (pos % dd) as u8;
                let bit: u32 = (vals[i] as u32 / pow2_exec(b)) % 2;
                let pt: u32 = pow2_exec(t);
                assert(bit == packed_bit(poly@, d as nat, pos as int));
                assert(bit * pt == if bit == 1 { pt } else { 0 }) by (nonlinear_arith)
                    requires
                        bit == 0 || bit == 1,
                ;
                proof {
                    lemma_pow2_values();
                }
                if bit == 1 {
                    acc = acc + pt;
                }
                t += 1;
            }
            proof {
                lemma_pow2_values();
            }
            out.push(acc as u8);
            j += 1;
        }
        assert(out@ =~= compress_poly_spec(poly@, d as nat));
        out
    }

    /// Reads 256 groups of `d` bits and decompresses each to a coefficient.
    pub fn decompress_poly(&self, bytes: &[u8], d: u8) -> (poly: Vec<i16>)
        requires
            1 <= d <= 12,
            bytes@.len() >= 32 * d,
        ensures
            poly@ == decompress_poly_spec(bytes@, d as nat),
            is_reduced(poly@),
    {
        let mut poly: Vec<i16> = Vec::new();
        let mut i: usize = 0;
        while i < 256
            invariant
                i <= 256,
                1 <= d <= 12,
                bytes@.len() >= 32 * d,
                poly@.len() == i,
                forall|k: int|
                    0 <= k < i ==> #[trigger] poly@[k] == decompress_coeff(
                        unpacked_value(bytes@, d as nat, k, d as nat),
                        d as nat,
                    ) as i16,
                forall|k: int| 0 <= k < i ==> 0 <= #[trigger] poly@[k] < 3329,
            decreases 256 - i,
        {
            let acc: u16 = read_bit_group(bytes, d, i);
            let x: i16 = decompress_value(acc, d);
            poly.push(x);
            i += 1;
        }
        assert(poly@ =~= decompress_poly_spec(bytes@, d as nat));
        poly
    }

    /// Compresses the ring elements of a vector one after the other.
    pub fn compress_vec(&self, vec: &Vec<Vec<i16>>, d: u8) -> (out: Vec<u8>)
        requires
            forall|i: int| 0 <= i < vec@.len() ==> is_poly(#[trigger] vec@[i]@),
            1 <= d <= 12,
        ensures
            out@ == compress_vec_spec(vec_polys(vec@), d as nat),
            out@.len() == vec@.len() * (32 * d),
    {
        let mut out: Vec<u8> = Vec::new();
        let mut i: usize = 0;
        while i < vec.len()
            invariant
                i <= vec@.len(),
                forall|k: int| 0 <= k < vec@.len() ==> is_poly(#[trigger] vec@[k]@),
                1 <= d <= 12,
                out@ == compress_vec_spec(vec_polys(vec@).take(i as int), d as nat),
                out@.len() == i * (32 * d),
            decreases vec@.len() - i,
        {
            let part: Vec<u8> = self.compress_poly(&vec[i], d);
            append_bytes(&mut out, part.as_slice());
            proof {
                let next = vec_polys(vec@).take(i + 1);
                assert(next.drop_last() == vec_polys(vec@).take(i as int));
                assert(next.last() == vec@[i as int]@);
                assert((i + 1) * (32 * d) == i * (32 * d) + 32 * d) by (nonlinear_arith);
            }
            i += 1;
        }
        assert(vec_polys(vec@).take(vec@.len() as int) == vec_polys(vec@));
        out
    }

    /// Decompresses three ring elements that lie one after the other.
    pub fn decompress_vec(&self, bytes: &[u8], d: u8) -> (vec: Vec<Vec<i16>>)
        requires
            1 <= d <= 12,
            bytes@.len() >= 3 * (32 * d),
        ensures
            vec_polys(vec@) == decompress_vec_spec(bytes@, d as nat),
            is_poly_vec(vec@),
            forall|i: int| 0 <= i < 3 ==> is_reduced(#[trigger] vec@[i]@),
    {
        let size: usize = 32 * (d as usize);
        let mut vec: Vec<Vec<i16>> = Vec::new();
        let mut start: usize = 0;
        let mut i: usize = 0;
        while i < 3
            invariant
                i <= 3,
                1 <= d <= 12,
                size == 32 * d,
                start == i * size,
                bytes@.len() >= 3 * size,
                vec@.len() == i,
                forall|k: int|
                    0 <= k < i ==> (#[trigger] vec@[k])@ == decompress_poly_spec(
                        bytes@.subrange(k * (32 * d), (k + 1) * (32 * d)),
                        d as nat,
                    ),
                forall|k: int| 0 <= k < i ==> is_reduced(#[trigger] vec@[k]@),
            decreases 3 - i,
        {
            assert(i * size + size == (i + 1) * size && (i + 1) * size <= 3 * size)
                by (nonlinear_arith)
                requires
                    i < 3,
                    size >= 0,
            ;
            let part: Vec<u8> = copy_range(bytes, start, start + size);
            let poly: Vec<i16> = self.decompress_poly(part.as_slice(), d);
            vec.push(poly);
            start = start + size;
            i += 1;
        }
        assert(vec_polys(vec@) =~= decompress_vec_spec(bytes@, d as nat));
        vec
    }
}

} // verus!
