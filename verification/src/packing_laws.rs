//! Laws of the packed form: what is packed comes back bit for bit, so a
//! ring element that is compressed and decompressed stays within the
//! rounding error of each coefficient.

use crate::packing::compress_poly_spec;
use crate::packing::compress_vec_spec;
use crate::packing::decompress_vec_spec;
use crate::packing::decompress_poly_spec;
use crate::packing::packed_bit;
use crate::packing::packed_byte;
use crate::packing::stream_bit;
use crate::packing::unpacked_value;
use crate::ring::bit_of;
use crate::ring::compress_coeff;
use crate::ring::compress_error_bound;
use crate::ring::decompress_coeff;
use crate::ring::is_reduced;
use crate::ring::lemma_compress_decompress_close;
use crate::ring::lemma_pow2_values;
use crate::ring::pow2;
use crate::ring::ring_distance;
use vstd::arithmetic::div_mod::lemma_fundamental_div_mod_converse;
use vstd::arithmetic::div_mod::lemma_mod_breakdown;
use vstd::prelude::*;

verus! {

/// The value of the lowest `n` bits of `c`.
pub open spec fn low_bits(c: int, n: nat) -> int
    decreases n,
{
    if n == 0 {
        0
    } else {
        low_bits(c, (n - 1) as nat) + bit_of(c, (n - 1) as nat) * pow2((n - 1) as nat)
    }
}

/// Powers of two are positive.
pub proof fn lemma_pow2_positive(n: nat)
    ensures
        pow2(n) > 0,
    decreases n,
{
    if n > 0 {
        lemma_pow2_positive((n - 1) as nat);
    }
}

/// The lowest `n` bits of a non-negative number are its remainder modulo
/// `2^n`.
pub proof fn lemma_low_bits_is_remainder(c: int, n: nat)
    requires
        0 <= c,
    ensures
        low_bits(c, n) == c % pow2(n),
    decreases n,
{
    if n == 0 {
        assert(pow2(0) == 1);
    } else {
        let m = (n - 1) as nat;
        lemma_low_bits_is_remainder(c, m);
        lemma_pow2_positive(m);
        lemma_mod_breakdown(c, pow2(m), 2);
        assert(pow2(n) == pow2(m) * 2) by (nonlinear_arith)
            requires
                pow2(n) == 2 * pow2(m),
        ;
        assert(bit_of(c, m) * pow2(m) == pow2(m) * ((c / pow2(m)) % 2)) by (nonlinear_arith)
            requires
                bit_of(c, m) == (c / pow2(m)) % 2,
        ;
    }
}

/// A byte put together from eight bits gives each of them back.
proof fn lemma_byte_bits(
    b0: int,
    b1: int,
    b2: int,
    b3: int,
    b4: int,
    b5: int,
    b6: int,
    b7: int,
)
    requires
        0 <= b0 <= 1,
        0 <= b1 <= 1,
        0 <= b2 <= 1,
        0 <= b3 <= 1,
        0 <= b4 <= 1,
        0 <= b5 <= 1,
        0 <= b6 <= 1,
        0 <= b7 <= 1,
    ensures
        ({
            let v = b0 + 2 * b1 + 4 * b2 + 8 * b3 + 16 * b4 + 32 * b5 + 64 * b6 + 128 * b7;
            &&& 0 <= v < 256
            &&& (v / 1) % 2 == b0
            &&& (v / 2) % 2 == b1
            &&& (v / 4) % 2 == b2
            &&& (v / 8) % 2 == b3
            &&& (v / 16) % 2 == b4
            &&& (v / 32) % 2 == b5
            &&& (v / 64) % 2 == b6
            &&& (v / 128) % 2 == b7
        }),
{
    let v = b0 + 2 * b1 + 4 * b2 + 8 * b3 + 16 * b4 + 32 * b5 + 64 * b6 + 128 * b7;
    let w7 = b7;
    let w6 = b6 + 2 * w7;
    let w5 = b5 + 2 * w6;
    let w4 = b4 + 2 * w5;
    let w3 = b3 + 2 * w4;
    let w2 = b2 + 2 * w3;
    let w1 = b1 + 2 * w2;
    assert(v == b0 + 2 * w1);
    assert(v / 1 == v);
    assert(v / 2 == w1) by {
        assert(v == 2 * w1 + b0);
    }
    assert(v / 4 == w2) by {
        assert(v == 4 * w2 + (b0 + 2 * b1));
    }
    assert(v / 8 == w3) by {
        assert(v == 8 * w3 + (b0 + 2 * b1 + 4 * b2));
    }
    assert(v / 16 == w4) by {
        assert(v == 16 * w4 + (b0 + 2 * b1 + 4 * b2 + 8 * b3));
    }
    assert(v / 32 == w5) by {
        assert(v == 32 * w5 + (b0 + 2 * b1 + 4 * b2 + 8 * b3 + 16 * b4));
    }
    assert(v / 64 == w6) by {
        assert(v == 64 * w6 + (b0 + 2 * b1 + 4 * b2 + 8 * b3 + 16 * b4 + 32 * b5));
    }
    assert(v / 128 == w7) by {
        assert(v == 128 * w7 + (b0 + 2 * b1 + 4 * b2 + 8 * b3 + 16 * b4 + 32 * b5 + 64 * b6));
    }
    assert(v % 2 == b0);
    assert(w1 % 2 == b1);
    assert(w2 % 2 == b2);
    assert(w3 % 2 == b3);
    assert(w4 % 2 == b4);
    assert(w5 % 2 == b5);
    assert(w6 % 2 == b6);
    assert(w7 % 2 == b7);
}

/// Each bit of a packed byte is the bit of the stream at its place.
pub proof fn lemma_packed_byte_bits(p: Seq<i16>, d: nat, j: int, k: nat)
    requires
        k < 8,
    ensures
        0 <= packed_byte(p, d, j, 8) < 256,
        bit_of(packed_byte(p, d, j, 8), k) == packed_bit(p, d, 8 * j + k),
{
    lemma_pow2_values();
    reveal_with_fuel(packed_byte, 9);
    let b0 = packed_bit(p, d, 8 * j + 0);
    let b1 = packed_bit(p, d, 8 * j + 1);
    let b2 = packed_bit(p, d, 8 * j + 2);
    let b3 = packed_bit(p, d, 8 * j + 3);
    let b4 = packed_bit(p, d, 8 * j + 4);
    let b5 = packed_bit(p, d, 8 * j + 5);
    let b6 = packed_bit(p, d, 8 * j + 6);
    let b7 = packed_bit(p, d, 8 * j + 7);
    lemma_byte_bits(b0, b1, b2, b3, b4, b5, b6, b7);
    assert(packed_byte(p, d, j, 8) == b0 * 1 + b1 * 2 + b2 * 4 + b3 * 8 + b4 * 16 + b5 * 32 + b6
        * 64 + b7 * 128);
}

/// In the packed form of a ring element, bit `t` of group `i` is bit `t`
/// of the compressed coefficient `i`.
pub proof fn lemma_stream_bit_of_packed(p: Seq<i16>, d: nat, i: int, t: nat)
    requires
        p.len() == 256,
        1 <= d <= 12,
        0 <= i < 256,
        t < d,
    ensures
        stream_bit(compress_poly_spec(p, d), i * d + t) == bit_of(
            compress_coeff(p[i] as int, d),
            t,
        ),
{
    let pos = i * d + t;
    assert(0 <= pos < 256 * d) by (nonlinear_arith)
        requires
            pos == i * d + t,
            0 <= i < 256,
            0 <= t < d,
    ;
    let j = pos / 8;
    let k = (pos % 8) as nat;
    assert(0 <= j < 32 * d);
    lemma_packed_byte_bits(p, d, j, k);
    assert(compress_poly_spec(p, d)[j] == packed_byte(p, d, j, 8) as u8);
    assert(8 * j + k == pos);
    lemma_fundamental_div_mod_converse(pos, d as int, i, t as int);
}

/// The lowest `t` bits of group `i` of a packed ring element are the
/// lowest `t` bits of the compressed coefficient `i`.
pub proof fn lemma_unpacked_low_bits(p: Seq<i16>, d: nat, i: int, t: nat)
    requires
        p.len() == 256,
        1 <= d <= 12,
        0 <= i < 256,
        t <= d,
    ensures
        unpacked_value(compress_poly_spec(p, d), d, i, t) == low_bits(
            compress_coeff(p[i] as int, d),
            t,
        ),
    decreases t,
{
    if t > 0 {
        lemma_unpacked_low_bits(p, d, i, (t - 1) as nat);
        lemma_stream_bit_of_packed(p, d, i, (t - 1) as nat);
    }
}

/// What is packed comes back: group `i` of the packed form of a ring
/// element holds the compressed coefficient `i`.
pub proof fn lemma_unpack_packed(p: Seq<i16>, d: nat, i: int)
    requires
        p.len() == 256,
        1 <= d <= 12,
        0 <= i < 256,
    ensures
        unpacked_value(compress_poly_spec(p, d), d, i, d) == compress_coeff(p[i] as int, d),
{
    let c = compress_coeff(p[i] as int, d);
    lemma_pow2_positive(d);
    assert(0 <= c < pow2(d));
    lemma_unpacked_low_bits(p, d, i, d);
    lemma_low_bits_is_remainder(c, d);
    assert(c % pow2(d) == c) by (nonlinear_arith)
        requires
            0 <= c < pow2(d),
    ;
}

/// A ring element that is compressed to `d` bits and decompressed again
/// has every coefficient within the nearest integer to `q / 2^(d+1)` of
/// where it was, measured modulo q.
pub proof fn lemma_poly_round_trip_close(p: Seq<i16>, d: nat, i: int)
    requires
        p.len() == 256,
        1 <= d <= 12,
        0 <= i < 256,
    ensures
        decompress_poly_spec(compress_poly_spec(p, d), d)[i] == decompress_coeff(
            compress_coeff(p[i] as int, d),
            d,
        ),
        ring_distance(decompress_poly_spec(compress_poly_spec(p, d), d)[i] as int, p[i] as int)
            <= compress_error_bound(d),
{
    lemma_unpack_packed(p, d, i);
    lemma_compress_decompress_close(p[i] as int, d);
    lemma_pow2_positive(d);
    lemma_decompress_in_range(compress_coeff(p[i] as int, d), d);
}

/// A `d`-bit value decompresses to a coefficient in `[0, q)`.
pub proof fn lemma_decompress_in_range(y: int, d: nat)
    requires
        1 <= d <= 12,
        0 <= y < pow2(d),
    ensures
        0 <= decompress_coeff(y, d) < 3329,
{
    lemma_pow2_values();
    let p = pow2(d);
    let h = pow2((d - 1) as nat);
    assert(p == 2 * h);
    lemma_pow2_positive((d - 1) as nat);
    assert(h <= 2048) by {
        if d == 1 {
        } else if d == 2 {
        } else if d == 3 {
        } else if d == 4 {
        } else if d == 5 {
        } else if d == 6 {
        } else if d == 7 {
        } else if d == 8 {
        } else if d == 9 {
        } else if d == 10 {
        } else if d == 11 {
        } else {
        }
    }
    assert(0 <= (y * 3329 + h) / p < 3329) by (nonlinear_arith)
        requires
            0 <= y < p,
            p == 2 * h,
            1 <= h <= 2048,
    ;
}

/// At 12 bits nothing is lost: a ring element with coefficients in
/// `[0, q)` comes back as it was.
pub proof fn lemma_twelve_bits_exact(p: Seq<i16>, i: int)
    requires
        p.len() == 256,
        0 <= i < 256,
        0 <= p[i] < 3329,
    ensures
        decompress_poly_spec(compress_poly_spec(p, 12), 12)[i] == p[i],
{
    lemma_poly_round_trip_close(p, 12, i);
    lemma_pow2_values();
    assert(compress_error_bound(12) == 0) by (nonlinear_arith)
        requires
            compress_error_bound(12) == (3329 + pow2(12)) / (2 * pow2(12)),
            pow2(12) == 4096,
    ;
    lemma_pow2_positive(12);
    lemma_decompress_in_range(compress_coeff(p[i] as int, 12), 12);
}

/// The packed form of a vector of three ring elements is the three packed
/// forms one after the other.
pub proof fn lemma_compress_vec_parts(v: Seq<Seq<i16>>, d: nat)
    requires
        v.len() == 3,
    ensures
        compress_vec_spec(v, d) == compress_poly_spec(v[0], d) + compress_poly_spec(v[1], d)
            + compress_poly_spec(v[2], d),
        compress_vec_spec(v, d).len() == 3 * (32 * d),
{
    reveal_with_fuel(compress_vec_spec, 4);
    let v2 = v.drop_last();
    let v1 = v2.drop_last();
    let v0 = v1.drop_last();
    assert(v0.len() == 0);
    assert(v1.last() == v[0]);
    assert(v2.last() == v[1]);
    assert(v.last() == v[2]);
    assert(compress_vec_spec(v, d) =~= compress_poly_spec(v[0], d) + compress_poly_spec(v[1], d)
        + compress_poly_spec(v[2], d));
}

/// At 12 bits a vector of ring elements with coefficients in `[0, q)`
/// comes back from its packed form as it was.
pub proof fn lemma_vector_round_trip_exact(v: Seq<Seq<i16>>)
    requires
        v.len() == 3,
        forall|i: int| 0 <= i < 3 ==> is_reduced(#[trigger] v[i]),
    ensures
        compress_vec_spec(v, 12).len() == 1152,
        decompress_vec_spec(compress_vec_spec(v, 12), 12) == v,
{
    lemma_compress_vec_parts(v, 12);
    let bytes = compress_vec_spec(v, 12);
    let back = decompress_vec_spec(bytes, 12);
    assert forall|i: int| 0 <= i < 3 implies back[i] == v[i] by {
        assert(is_reduced(v[i]));
        let part = bytes.subrange(i * (32 * 12), (i + 1) * (32 * 12));
        assert(part =~= compress_poly_spec(v[i], 12));
        assert forall|k: int| 0 <= k < 256 implies decompress_poly_spec(part, 12)[k] == v[i][k] by {
            lemma_twelve_bits_exact(v[i], k);
        }
        assert(decompress_poly_spec(part, 12) =~= v[i]);
    }
    assert(back =~= v);
}

} // verus!
