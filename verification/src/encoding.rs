//! Small encodings: lower-case hexadecimal text and 64-bit little-endian
//! numbers.

use vstd::prelude::*;

verus! {

/// The hexadecimal digit of a value below 16.
pub open spec fn hex_digit_spec(n: int) -> char {
    if n == 0 {
        '0'
    } else if n == 1 {
        '1'
    } else if n == 2 {
        '2'
    } else if n == 3 {
        '3'
    } else if n == 4 {
        '4'
    } else if n == 5 {
        '5'
    } else if n == 6 {
        '6'
    } else if n == 7 {
        '7'
    } else if n == 8 {
        '8'
    } else if n == 9 {
        '9'
    } else if n == 10 {
        'a'
    } else if n == 11 {
        'b'
    } else if n == 12 {
        'c'
    } else if n == 13 {
        'd'
    } else if n == 14 {
        'e'
    } else {
        'f'
    }
}

/// Two lower-case hexadecimal digits per byte, the high digit first.
pub open spec fn hex_spec(bytes: Seq<u8>) -> Seq<char> {
    Seq::new(
        2 * bytes.len(),
        |i: int|
            if i % 2 == 0 {
                hex_digit_spec(bytes[i / 2] as int / 16)
            } else {
                hex_digit_spec(bytes[i / 2] as int % 16)
            },
    )
}

/// Calls `String::push`.
///
/// Trusted: the string then ends with `c` and is otherwise as before.
#[verifier::external_body]
pub(crate) fn string_push(s: &mut String, c: char)
    ensures
        final(s)@ == old(s)@.push(c),
{
    s.push(c)
}

/// The hexadecimal digit of a value below 16.
pub fn hex_digit(n: u8) -> (c: char)
    requires
        n < 16,
    ensures
        c == hex_digit_spec(n as int),
{
    if n == 0 {
        '0'
    } else if n == 1 {
        '1'
    } else if n == 2 {
        '2'
    } else if n == 3 {
        '3'
    } else if n == 4 {
        '4'
    } else if n == 5 {
        '5'
    } else if n == 6 {
        '6'
    } else if n == 7 {
        '7'
    } else if n == 8 {
        '8'
    } else if n == 9 {
        '9'
    } else if n == 10 {
        'a'
    } else if n == 11 {
        'b'
    } else if n == 12 {
        'c'
    } else if n == 13 {
        'd'
    } else if n == 14 {
        'e'
    } else {
        'f'
    }
}

/// Writes bytes as lower-case hexadecimal text.
pub fn encode(bytes: &[u8]) -> (s: String)
    ensures
        s@ == hex_spec(bytes@),
{
    let mut s: String = String::new();
    let mut i: usize = 0;
    while i < bytes.len()
        invariant
            i <= bytes.len(),
            s@.len() == 2 * i,
            forall|k: int| 0 <= k < 2 * i ==> s@[k] == hex_spec(bytes@)[k],
        decreases bytes.len() - i,
    {
        let b: u8 = bytes[i];
        string_push(&mut s, hex_digit(b / 16));
        string_push(&mut s, hex_digit(b % 16));
        i += 1;
    }
    assert(s@ =~= hex_spec(bytes@));
    s
}

/// The `n` low bytes of a number, lowest first.
pub open spec fn le_bytes_spec(v: nat, n: nat) -> Seq<u8>
    decreases n,
{
    if n == 0 {
        Seq::<u8>::empty()
    } else {
        seq![(v % 256) as u8] + le_bytes_spec(v / 256, (n - 1) as nat)
    }
}

/// The number that little-endian bytes stand for.
pub open spec fn le_value_spec(s: Seq<u8>) -> nat
    decreases s.len(),
{
    if s.len() == 0 {
        0
    } else {
        (s[0] as nat) + 256 * le_value_spec(s.drop_first())
    }
}

/// The eight bytes of a 64-bit number, lowest first.
pub fn u64_to_le_bytes(t: u64) -> (out: Vec<u8>)
    ensures
        out@ == le_bytes_spec(t as nat, 8),
        out@.len() == 8,
{
    let mut out: Vec<u8> = Vec::new();
    let mut v: u64 = t;
    let mut i: usize = 0;
    while i < 8
        invariant
            i <= 8,
            out@.len() == i,
            out@ + le_bytes_spec(v as nat, (8 - i) as nat) == le_bytes_spec(t as nat, 8),
        decreases 8 - i,
    {
        let ghost before = out@;
        out.push((v % 256) as u8);
        proof {
            let rest = le_bytes_spec((v / 256) as nat, (8 - i - 1) as nat);
            assert(le_bytes_spec(v as nat, (8 - i) as nat) == seq![(v % 256) as u8] + rest);
            assert(out@ + rest =~= before + (seq![(v % 256) as u8] + rest));
        }
        v = v / 256;
        i += 1;
    }
    assert(le_bytes_spec(v as nat, 0) =~= Seq::<u8>::empty());
    assert(out@ + Seq::<u8>::empty() =~= out@);
    out
}

/// 256 to the power `k`.
pub open spec fn pow256(k: nat) -> nat
    decreases k,
{
    if k == 0 {
        1
    } else {
        256 * pow256((k - 1) as nat)
    }
}

/// The value of little-endian bytes is below 256 to the number of bytes.
pub proof fn lemma_le_value_bound(s: Seq<u8>)
    ensures
        le_value_spec(s) < pow256(s.len()),
    decreases s.len(),
{
    if s.len() > 0 {
        lemma_le_value_bound(s.drop_first());
    }
}

/// The 64-bit number that eight little-endian bytes stand for.
pub fn u64_from_le_bytes(bytes: &[u8; 8]) -> (v: u64)
    ensures
        v == le_value_spec(bytes@),
{
    proof {
        reveal_with_fuel(pow256, 10);
        assert(pow256(8) == 0x1_0000_0000_0000_0000);
    }
    let mut v: u64 = 0;
    let mut i: usize = 8;
    while i > 0
        invariant
            i <= 8,
            v == le_value_spec(bytes@.subrange(i as int, 8)),
            pow256(8) == 0x1_0000_0000_0000_0000,
        decreases i,
    {
        let ghost tail = bytes@.subrange(i as int, 8);
        let ghost next = bytes@.subrange(i - 1, 8);
        proof {
            assert(next.drop_first() =~= tail);
            assert(next[0] == bytes@[i - 1]);
            lemma_le_value_bound(next);
            lemma_pow256_monotone(next.len(), 8);
        }
        v = v * 256 + bytes[i - 1] as u64;
        i -= 1;
    }
    assert(bytes@.subrange(0, 8) =~= bytes@);
    v
}

/// Powers of 256 grow with the exponent.
pub proof fn lemma_pow256_monotone(a: nat, b: nat)
    requires
        a <= b,
    ensures
        pow256(a) <= pow256(b),
    decreases b,
{
    if a < b {
        lemma_pow256_monotone(a, (b - 1) as nat);
    }
}

/// Little-endian bytes stand for the number they were made from, if the
/// number fits them.
pub proof fn lemma_le_round_trip(v: nat, n: nat)
    requires
        v < pow256(n),
    ensures
        le_bytes_spec(v, n).len() == n,
        le_value_spec(le_bytes_spec(v, n)) == v,
    decreases n,
{
    if n > 0 {
        let rest = le_bytes_spec(v / 256, (n - 1) as nat);
        lemma_le_round_trip(v / 256, (n - 1) as nat);
        let all = seq![(v % 256) as u8] + rest;
        assert(all.drop_first() =~= rest);
        assert(all[0] == (v % 256) as u8);
    }
}

} // verus!
