//! The record cipher and checksum.
//!
//! An obfuscated record differs from its clear form in two reversible
//! steps, both keyed by material stored in the record's own unencrypted
//! 8-byte header. Decoding first undoes a per-byte keystream XOR over the
//! encrypted region, then restores canonical block order; encoding is the
//! exact inverse composition. The checksum is an additive sum of the
//! 16-bit little-endian words of the protected region, wrapping on
//! overflow.

use vstd::prelude::*;

use crate::reader::{read_u32_le, spec_read_u16_le, spec_read_u32_le};

verus! {

/// One step of the keystream generator: a linear congruential recurrence
/// on 32 bits.
pub open spec fn spec_next_seed(seed: u32) -> u32 {
    (((seed as int) * 0x41C64E6D + 0x6073) % 0x1_0000_0000) as u32
}

/// The seed after `k` steps from the initial value `ec`.
pub open spec fn spec_seed_at(ec: u32, k: nat) -> u32
    decreases k,
{
    if k == 0 {
        ec
    } else {
        spec_next_seed(spec_seed_at(ec, (k - 1) as nat))
    }
}

/// Keystream byte for buffer position `i` (meaningful for `i >= 8`):
/// the 16-bit word holding position `i` is word `(i - 8) / 2`, and it is
/// XORed with the upper half of the seed after `(i - 8) / 2 + 1` steps,
/// low byte first.
pub open spec fn spec_key_byte(ec: u32, i: int) -> u8 {
    let seed = spec_seed_at(ec, ((i - 8) / 2 + 1) as nat);
    if (i - 8) % 2 == 0 {
        (seed >> 16) as u8
    } else {
        (seed >> 24) as u8
    }
}

/// The keystream XOR layer: the header (first 8 bytes) passes through
/// unchanged, every later byte is XORed with its keystream byte. The
/// keystream is seeded by the 32-bit value at offset 0, which lies in the
/// header and is therefore readable before decoding.
pub open spec fn spec_crypt(s: Seq<u8>) -> Seq<u8> {
    let ec = spec_read_u32_le(s, 0);
    Seq::new(s.len(), |i: int| if i < 8 { s[i] } else { s[i] ^ spec_key_byte(ec, i) })
}

proof fn lemma_xor_cancel(a: u8, b: u8)
    by (bit_vector)
    ensures
        (a ^ b) ^ b == a,
{
}

/// The keystream layer leaves the header alone, so its seed can be read
/// back out of its own output.
proof fn lemma_crypt_keeps_header(s: Seq<u8>)
    requires
        s.len() >= 8,
    ensures
        spec_read_u32_le(spec_crypt(s), 0) == spec_read_u32_le(s, 0),
{
    assert(spec_crypt(s)[0] == s[0]);
    assert(spec_crypt(s)[1] == s[1]);
    assert(spec_crypt(s)[2] == s[2]);
    assert(spec_crypt(s)[3] == s[3]);
}

/// XORing with the same keystream twice gives the bytes back.
proof fn lemma_crypt_involution(s: Seq<u8>)
    requires
        s.len() >= 8,
    ensures
        spec_crypt(spec_crypt(s)) == s,
{
    let c = spec_crypt(s);
    lemma_crypt_keeps_header(s);
    let ec = spec_read_u32_le(s, 0);
    assert forall|i: int| 0 <= i < s.len() implies spec_crypt(c)[i] == s[i] by {
        if i >= 8 {
            lemma_xor_cancel(s[i], spec_key_byte(ec, i));
        }
    }
    assert(spec_crypt(c) =~= s);
}

fn crypt<const SIZE: usize>(data: [u8; SIZE]) -> (r: [u8; SIZE])
    requires
        8 <= SIZE,
        (SIZE - 8) % 2 == 0,
    ensures
        r@ == spec_crypt(data@),
{
    let ec = read_u32_le(&data, 0);
    let mut out = data;
    let mut seed: u32 = ec;
    let n: usize = (SIZE - 8) / 2;
    assert(SIZE == 8 + 2 * n);
    let mut k: usize = 0;
    while k < n
        invariant
            k <= n,
            SIZE == 8 + 2 * n,
            out@.len() == SIZE,
            data@.len() == SIZE,
            ec == spec_read_u32_le(data@, 0),
            seed == spec_seed_at(ec, k as nat),
            forall|i: int| 0 <= i < 8 ==> out@[i] == data@[i],
            forall|i: int| 8 <= i < 8 + 2 * k ==> out@[i] == (data@[i] ^ spec_key_byte(ec, i)),
            forall|i: int| 8 + 2 * (k as int) <= i < SIZE ==> out@[i] == data@[i],
        decreases n - k,
    {
        seed = (((seed as u64) * 0x41C64E6D + 0x6073) % 0x1_0000_0000) as u32;
        let lo = (seed >> 16) as u8;
        let hi = (seed >> 24) as u8;
        let off = 8 + 2 * k;
        out[off] = out[off] ^ lo;
        out[off + 1] = out[off + 1] ^ hi;
        proof {
            assert(seed == spec_seed_at(ec, (k + 1) as nat));
            assert((off as int - 8) / 2 == k as int);
            assert((off as int - 8) % 2 == 0);
            assert((off as int + 1 - 8) / 2 == k as int);
            assert((off as int + 1 - 8) % 2 == 1);
            assert(lo == spec_key_byte(ec, off as int));
            assert(hi == spec_key_byte(ec, off as int + 1));
        }
        k = k + 1;
    }
    proof {
        assert forall|i: int| 0 <= i < SIZE implies out@[i] == spec_crypt(data@)[i] by {}
        assert(out@ =~= spec_crypt(data@));
    }
    out
}

/// Source block for destination block `b` when unshuffling with shift
/// value `sv`: row `sv` of the fixed 32-row permutation table (rows 24
/// to 31 repeat rows 0 to 7, so the shift value needs no reduction).
pub open spec fn spec_block_shuffle(sv: int, b: int) -> int {
    if sv == 0 {
        if b == 0 { 0 } else if b == 1 { 1 } else if b == 2 { 2 } else { 3 }
    } else if sv == 1 {
        if b == 0 { 0 } else if b == 1 { 1 } else if b == 2 { 3 } else { 2 }
    } else if sv == 2 {
        if b == 0 { 0 } else if b == 1 { 2 } else if b == 2 { 1 } else { 3 }
    } else if sv == 3 {
        if b == 0 { 0 } else if b == 1 { 3 } else if b == 2 { 1 } else { 2 }
    } else if sv == 4 {
        if b == 0 { 0 } else if b == 1 { 2 } else if b == 2 { 3 } else { 1 }
    } else if sv == 5 {
        if b == 0 { 0 } else if b == 1 { 3 } else if b == 2 { 2 } else { 1 }
    } else if sv == 6 {
        if b == 0 { 1 } else if b == 1 { 0 } else if b == 2 { 2 } else { 3 }
    } else if sv == 7 {
        if b == 0 { 1 } else if b == 1 { 0 } else if b == 2 { 3 } else { 2 }
    } else if sv == 8 {
        if b == 0 { 2 } else if b == 1 { 0 } else if b == 2 { 1 } else { 3 }
    } else if sv == 9 {
        if b == 0 { 3 } else if b == 1 { 0 } else if b == 2 { 1 } else { 2 }
    } else if sv == 10 {
        if b == 0 { 2 } else if b == 1 { 0 } else if b == 2 { 3 } else { 1 }
    } else if sv == 11 {
        if b == 0 { 3 } else if b == 1 { 0 } else if b == 2 { 2 } else { 1 }
    } else if sv == 12 {
        if b == 0 { 1 } else if b == 1 { 2 } else if b == 2 { 0 } else { 3 }
    } else if sv == 13 {
        if b == 0 { 1 } else if b == 1 { 3 } else if b == 2 { 0 } else { 2 }
    } else if sv == 14 {
        if b == 0 { 2 } else if b == 1 { 1 } else if b == 2 { 0 } else { 3 }
    } else if sv == 15 {
        if b == 0 { 3 } else if b == 1 { 1 } else if b == 2 { 0 } else { 2 }
    } else if sv == 16 {
        if b == 0 { 2 } else if b == 1 { 3 } else if b == 2 { 0 } else { 1 }
    } else if sv == 17 {
        if b == 0 { 3 } else if b == 1 { 2 } else if b == 2 { 0 } else { 1 }
    } else if sv == 18 {
        if b == 0 { 1 } else if b == 1 { 2 } else if b == 2 { 3 } else { 0 }
    } else if sv == 19 {
        if b == 0 { 1 } else if b == 1 { 3 } else if b == 2 { 2 } else { 0 }
    } else if sv == 20 {
        if b == 0 { 2 } else if b == 1 { 1 } else if b == 2 { 3 } else { 0 }
    } else if sv == 21 {
        if b == 0 { 3 } else if b == 1 { 1 } else if b == 2 { 2 } else { 0 }
    } else if sv == 22 {
        if b == 0 { 2 } else if b == 1 { 3 } else if b == 2 { 1 } else { 0 }
    } else if sv == 23 {
        if b == 0 { 3 } else if b == 1 { 2 } else if b == 2 { 1 } else { 0 }
    } else if sv == 24 {
        if b == 0 { 0 } else if b == 1 { 1 } else if b == 2 { 2 } else { 3 }
    } else if sv == 25 {
        if b == 0 { 0 } else if b == 1 { 1 } else if b == 2 { 3 } else { 2 }
    } else if sv == 26 {
        if b == 0 { 0 } else if b == 1 { 2 } else if b == 2 { 1 } else { 3 }
    } else if sv == 27 {
        if b == 0 { 0 } else if b == 1 { 3 } else if b == 2 { 1 } else { 2 }
    } else if sv == 28 {
        if b == 0 { 0 } else if b == 1 { 2 } else if b == 2 { 3 } else { 1 }
    } else if sv == 29 {
        if b == 0 { 0 } else if b == 1 { 3 } else if b == 2 { 2 } else { 1 }
    } else if sv == 30 {
        if b == 0 { 1 } else if b == 1 { 0 } else if b == 2 { 2 } else { 3 }
    } else if sv == 31 {
        if b == 0 { 1 } else if b == 1 { 0 } else if b == 2 { 3 } else { 2 }
    } else {
        b
    }
}

/// The shift value whose permutation row undoes row `sv`.
pub open spec fn spec_inverse_sv(sv: int) -> int {
    if sv == 0 {
        0
    } else if sv == 1 {
        1
    } else if sv == 2 {
        2
    } else if sv == 3 {
        4
    } else if sv == 4 {
        3
    } else if sv == 5 {
        5
    } else if sv == 6 {
        6
    } else if sv == 7 {
        7
    } else if sv == 8 {
        12
    } else if sv == 9 {
        18
    } else if sv == 10 {
        13
    } else if sv == 11 {
        19
    } else if sv == 12 {
        8
    } else if sv == 13 {
        10
    } else if sv == 14 {
        14
    } else if sv == 15 {
        20
    } else if sv == 16 {
        16
    } else if sv == 17 {
        22
    } else if sv == 18 {
        9
    } else if sv == 19 {
        11
    } else if sv == 20 {
        15
    } else if sv == 21 {
        21
    } else if sv == 22 {
        17
    } else if sv == 23 {
        23
    } else if sv == 24 {
        0
    } else if sv == 25 {
        1
    } else if sv == 26 {
        2
    } else if sv == 27 {
        4
    } else if sv == 28 {
        3
    } else if sv == 29 {
        5
    } else if sv == 30 {
        6
    } else if sv == 31 {
        7
    } else {
        sv
    }
}

fn block_shuffle_source(sv: u32, b: usize) -> (r: usize)
    requires
        sv < 32,
        b < 4,
    ensures
        r as int == spec_block_shuffle(sv as int, b as int),
        r < 4,
{
    match sv {
        0 => match b { 0 => 0, 1 => 1, 2 => 2, _ => 3 },
        1 => match b { 0 => 0, 1 => 1, 2 => 3, _ => 2 },
        2 => match b { 0 => 0, 1 => 2, 2 => 1, _ => 3 },
        3 => match b { 0 => 0, 1 => 3, 2 => 1, _ => 2 },
        4 => match b { 0 => 0, 1 => 2, 2 => 3, _ => 1 },
        5 => match b { 0 => 0, 1 => 3, 2 => 2, _ => 1 },
        6 => match b { 0 => 1, 1 => 0, 2 => 2, _ => 3 },
        7 => match b { 0 => 1, 1 => 0, 2 => 3, _ => 2 },
        8 => match b { 0 => 2, 1 => 0, 2 => 1, _ => 3 },
        9 => match b { 0 => 3, 1 => 0, 2 => 1, _ => 2 },
        10 => match b { 0 => 2, 1 => 0, 2 => 3, _ => 1 },
        11 => match b { 0 => 3, 1 => 0, 2 => 2, _ => 1 },
        12 => match b { 0 => 1, 1 => 2, 2 => 0, _ => 3 },
        13 => match b { 0 => 1, 1 => 3, 2 => 0, _ => 2 },
        14 => match b { 0 => 2, 1 => 1, 2 => 0, _ => 3 },
        15 => match b { 0 => 3, 1 => 1, 2 => 0, _ => 2 },
        16 => match b { 0 => 2, 1 => 3, 2 => 0, _ => 1 },
        17 => match b { 0 => 3, 1 => 2, 2 => 0, _ => 1 },
        18 => match b { 0 => 1, 1 => 2, 2 => 3, _ => 0 },
        19 => match b { 0 => 1, 1 => 3, 2 => 2, _ => 0 },
        20 => match b { 0 => 2, 1 => 1, 2 => 3, _ => 0 },
        21 => match b { 0 => 3, 1 => 1, 2 => 2, _ => 0 },
        22 => match b { 0 => 2, 1 => 3, 2 => 1, _ => 0 },
        23 => match b { 0 => 3, 1 => 2, 2 => 1, _ => 0 },
        24 => match b { 0 => 0, 1 => 1, 2 => 2, _ => 3 },
        25 => match b { 0 => 0, 1 => 1, 2 => 3, _ => 2 },
        26 => match b { 0 => 0, 1 => 2, 2 => 1, _ => 3 },
        27 => match b { 0 => 0, 1 => 3, 2 => 1, _ => 2 },
        28 => match b { 0 => 0, 1 => 2, 2 => 3, _ => 1 },
        29 => match b { 0 => 0, 1 => 3, 2 => 2, _ => 1 },
        30 => match b { 0 => 1, 1 => 0, 2 => 2, _ => 3 },
        _ => match b { 0 => 1, 1 => 0, 2 => 3, _ => 2 },
    }
}

fn invert_shift_value(sv: u32) -> (r: u32)
    requires
        sv < 32,
    ensures
        r as int == spec_inverse_sv(sv as int),
        r < 32,
{
    match sv {
        0 => 0,
        1 => 1,
        2 => 2,
        3 => 4,
        4 => 3,
        5 => 5,
        6 => 6,
        7 => 7,
        8 => 12,
        9 => 18,
        10 => 13,
        11 => 19,
        12 => 8,
        13 => 10,
        14 => 14,
        15 => 20,
        16 => 16,
        17 => 22,
        18 => 9,
        19 => 11,
        20 => 15,
        21 => 21,
        22 => 17,
        23 => 23,
        24 => 0,
        25 => 1,
        26 => 2,
        27 => 4,
        28 => 3,
        29 => 5,
        30 => 6,
        _ => 7,
    }
}

/// The block-shuffle layer: the encrypted region is four equal blocks,
/// and destination block `b` is filled from source block
/// `spec_block_shuffle(sv, b)`. The header passes through unchanged.
pub open spec fn spec_shuffle(s: Seq<u8>, block: int, sv: int) -> Seq<u8> {
    Seq::new(
        s.len(),
        |i: int|
            if i < 8 {
                s[i]
            } else {
                let b = (i - 8) / block;
                let j = (i - 8) % block;
                if b < 4 {
                    s[8 + spec_block_shuffle(sv, b) * block + j]
                } else {
                    s[i]
                }
            },
    )
}

/// Rows `sv` and `spec_inverse_sv(sv)` of the table are mutually inverse
/// permutations of the four blocks.
proof fn lemma_block_shuffle_inverse(sv: int, b: int)
    requires
        0 <= sv < 32,
        0 <= b < 4,
    ensures
        0 <= spec_block_shuffle(sv, b) < 4,
        0 <= spec_inverse_sv(sv) < 32,
        spec_block_shuffle(spec_inverse_sv(sv), spec_block_shuffle(sv, b)) == b,
        spec_block_shuffle(sv, spec_block_shuffle(spec_inverse_sv(sv), b)) == b,
{
}

proof fn lemma_shuffle_keeps_header(s: Seq<u8>, block: int, sv: int)
    requires
        s.len() >= 8,
    ensures
        spec_shuffle(s, block, sv).len() == s.len(),
        spec_read_u32_le(spec_shuffle(s, block, sv), 0) == spec_read_u32_le(s, 0),
{
    let t = spec_shuffle(s, block, sv);
    assert(t[0] == s[0]);
    assert(t[1] == s[1]);
    assert(t[2] == s[2]);
    assert(t[3] == s[3]);
}

/// Position `8 + b * block + j` of a shuffled buffer holds the source
/// byte at `8 + spec_block_shuffle(sv, b) * block + j`.
proof fn lemma_shuffle_index(s: Seq<u8>, block: int, sv: int, b: int, j: int)
    requires
        s.len() == 8 + 4 * block,
        block >= 1,
        0 <= b < 4,
        0 <= j < block,
    ensures
        spec_shuffle(s, block, sv)[8 + b * block + j] == s[8 + spec_block_shuffle(sv, b) * block
            + j],
{
    let i = 8 + b * block + j;
    vstd::arithmetic::mul::lemma_mul_inequality(b, 3, block);
    assert(b * block <= 3 * block);
    vstd::arithmetic::mul::lemma_mul_nonnegative(b, block);
    assert(8 <= i < s.len());
    vstd::arithmetic::div_mod::lemma_fundamental_div_mod_converse(i - 8, block, b, j);
    assert((i - 8) / block == b);
    assert((i - 8) % block == j);
}

/// Shuffling with a row and then with its inverse row restores the
/// buffer, in either order.
proof fn lemma_shuffle_involution(s: Seq<u8>, block: int, sv: int)
    requires
        s.len() == 8 + 4 * block,
        block >= 1,
        0 <= sv < 32,
    ensures
        spec_shuffle(spec_shuffle(s, block, sv), block, spec_inverse_sv(sv)) == s,
        spec_shuffle(spec_shuffle(s, block, spec_inverse_sv(sv)), block, sv) == s,
{
    let isv = spec_inverse_sv(sv);
    lemma_block_shuffle_inverse(sv, 0);
    let t1 = spec_shuffle(s, block, sv);
    let t2 = spec_shuffle(s, block, isv);
    assert forall|i: int| 0 <= i < s.len() implies spec_shuffle(t1, block, isv)[i] == s[i]
        && spec_shuffle(t2, block, sv)[i] == s[i] by {
        if i >= 8 {
            let b = (i - 8) / block;
            let j = (i - 8) % block;
            vstd::arithmetic::div_mod::lemma_fundamental_div_mod(i - 8, block);
            assert(i - 8 == block * b + j);
            if b >= 4 {
                vstd::arithmetic::mul::lemma_mul_inequality(4, b, block);
                assert(false);
            }
            lemma_block_shuffle_inverse(sv, b);
            lemma_shuffle_index(t1, block, isv, b, j);
            lemma_shuffle_index(s, block, sv, spec_block_shuffle(isv, b), j);
            lemma_shuffle_index(t2, block, sv, b, j);
            lemma_shuffle_index(s, block, isv, spec_block_shuffle(sv, b), j);
            lemma_block_shuffle_inverse(sv, spec_block_shuffle(isv, b));
        }
    }
    assert(spec_shuffle(t1, block, isv) =~= s);
    assert(spec_shuffle(t2, block, sv) =~= s);
}

fn shuffle<const SIZE: usize, const BLOCK: usize>(data: [u8; SIZE], sv: u32) -> (r: [u8; SIZE])
    requires
        SIZE == 8 + 4 * BLOCK,
        BLOCK >= 1,
        sv < 32,
    ensures
        r@ == spec_shuffle(data@, BLOCK as int, sv as int),
{
    let mut out = data;
    let mut i: usize = 8;
    while i < SIZE
        invariant
            8 <= i <= SIZE,
            SIZE == 8 + 4 * BLOCK,
            BLOCK >= 1,
            sv < 32,
            out@.len() == SIZE,
            data@.len() == SIZE,
            forall|m: int| 0 <= m < 8 ==> out@[m] == data@[m],
            forall|m: int|
                8 <= m < i ==> out@[m] == spec_shuffle(data@, BLOCK as int, sv as int)[m],
        decreases SIZE - i,
    {
        let d = i - 8;
        let b = d / BLOCK;
        let j = d % BLOCK;
        proof {
            vstd::arithmetic::div_mod::lemma_fundamental_div_mod(d as int, BLOCK as int);
            assert(d as int == (BLOCK as int) * (b as int) + (j as int));
            if b as int >= 4 {
                vstd::arithmetic::mul::lemma_mul_inequality(4, b as int, BLOCK as int);
                assert(false);
            }
        }
        let src = block_shuffle_source(sv, b);
        proof {
            vstd::arithmetic::mul::lemma_mul_inequality(src as int, 3, BLOCK as int);
            vstd::arithmetic::mul::lemma_mul_nonnegative(src as int, BLOCK as int);
        }
        let si = 8 + src * BLOCK + j;
        out[i] = data[si];
        i = i + 1;
        proof {
            lemma_shuffle_index(data@, BLOCK as int, sv as int, b as int, j as int);
        }
    }
    proof {
        assert(out@ =~= spec_shuffle(data@, BLOCK as int, sv as int));
    }
    out
}

/// The shift value: five bits of the header word select which of the 32
/// table rows governs the block order.
pub open spec fn spec_shift_value(ec: u32) -> int {
    ((ec >> 13) & 31) as int
}

proof fn lemma_shift_value_bound(ec: u32)
    by (bit_vector)
    ensures
        (ec >> 13) & 31 < 32,
{
}

/// Decoding: undo the keystream, then restore canonical block order.
pub open spec fn spec_decrypt(s: Seq<u8>, block: int) -> Seq<u8> {
    spec_shuffle(spec_crypt(s), block, spec_shift_value(spec_read_u32_le(s, 0)))
}

/// Encoding: permute the blocks with the inverse row, then apply the
/// keystream; the exact inverse composition of decoding.
pub open spec fn spec_encrypt(s: Seq<u8>, block: int) -> Seq<u8> {
    spec_crypt(spec_shuffle(s, block, spec_inverse_sv(spec_shift_value(spec_read_u32_le(s, 0)))))
}

/// Decoding and encoding are a strict involution pair: each undoes the
/// other exactly, for every buffer of the right shape, valid or not.
pub proof fn lemma_cipher_round_trip(s: Seq<u8>, block: int)
    requires
        s.len() == 8 + 4 * block,
        block >= 1,
    ensures
        spec_decrypt(spec_encrypt(s, block), block) == s,
        spec_encrypt(spec_decrypt(s, block), block) == s,
{
    let ec = spec_read_u32_le(s, 0);
    let sv = spec_shift_value(ec);
    lemma_shift_value_bound(ec);
    let isv = spec_inverse_sv(sv);
    lemma_block_shuffle_inverse(sv, 0);
    // encode then decode
    let p = spec_shuffle(s, block, isv);
    lemma_shuffle_keeps_header(s, block, isv);
    let e = spec_crypt(p);
    lemma_crypt_keeps_header(p);
    assert(spec_encrypt(s, block) == e);
    assert(spec_read_u32_le(e, 0) == ec);
    lemma_crypt_involution(p);
    assert(spec_crypt(e) == p);
    lemma_shuffle_involution(s, block, isv);
    assert(spec_shuffle(p, block, sv) == s) by {
        lemma_shuffle_involution(s, block, sv);
    }
    assert(spec_decrypt(e, block) == s);
    // decode then encode
    let c = spec_crypt(s);
    lemma_crypt_keeps_header(s);
    let d = spec_shuffle(c, block, sv);
    lemma_shuffle_keeps_header(c, block, sv);
    assert(spec_decrypt(s, block) == d);
    assert(spec_read_u32_le(d, 0) == ec);
    lemma_shuffle_involution(c, block, sv);
    assert(spec_shuffle(d, block, isv) == c);
    lemma_crypt_involution(s);
    assert(spec_encrypt(d, block) == spec_crypt(c));
    assert(spec_crypt(c) == s);
}

/// Transform an obfuscated record to its clear form. A pure function of
/// the bytes alone: a wrong-looking buffer decodes deterministically to
/// a (meaningless) result, never to an error.
pub fn decrypt<const SIZE: usize, const BLOCK: usize>(data: [u8; SIZE]) -> (r: [u8; SIZE])
    requires
        SIZE == 8 + 4 * BLOCK,
        BLOCK >= 1,
    ensures
        r@ == spec_decrypt(data@, BLOCK as int),
{
    let ec = read_u32_le(&data, 0);
    let sv = (ec >> 13) & 31;
    proof {
        lemma_shift_value_bound(ec);
        assert(4 * (BLOCK as int) % 2 == 0) by {
            vstd::arithmetic::div_mod::lemma_mod_multiples_basic(2 * (BLOCK as int), 2);
        }
    }
    let crypted = crypt(data);
    proof {
        lemma_crypt_keeps_header(data@);
    }
    shuffle::<SIZE, BLOCK>(crypted, sv)
}

/// Transform a clear record to its obfuscated form.
pub fn encrypt<const SIZE: usize, const BLOCK: usize>(data: [u8; SIZE]) -> (r: [u8; SIZE])
    requires
        SIZE == 8 + 4 * BLOCK,
        BLOCK >= 1,
    ensures
        r@ == spec_encrypt(data@, BLOCK as int),
{
    let ec = read_u32_le(&data, 0);
    let sv = (ec >> 13) & 31;
    proof {
        lemma_shift_value_bound(ec);
        assert(4 * (BLOCK as int) % 2 == 0) by {
            vstd::arithmetic::div_mod::lemma_mod_multiples_basic(2 * (BLOCK as int), 2);
        }
    }
    let isv = invert_shift_value(sv);
    let shuffled = shuffle::<SIZE, BLOCK>(data, isv);
    proof {
        lemma_shuffle_keeps_header(data@, BLOCK as int, isv as int);
    }
    crypt(shuffled)
}

/// Sum of the first `k` 16-bit little-endian words of the protected
/// region, which starts at byte 8.
pub open spec fn spec_checksum_words(s: Seq<u8>, k: int) -> int
    decreases k,
{
    if k <= 0 {
        0
    } else {
        spec_checksum_words(s, k - 1) + spec_read_u16_le(s, 8 + 2 * (k - 1))
    }
}

/// The record checksum: the wrapping 16-bit sum of every word of the
/// protected region.
pub open spec fn spec_checksum(s: Seq<u8>) -> u16 {
    (spec_checksum_words(s, (s.len() - 8) / 2) % 0x1_0000) as u16
}

/// Compute the checksum of the protected region (everything after the
/// 8-byte header).
pub fn calculate_checksum<const SIZE: usize>(data: &[u8; SIZE]) -> (r: u16)
    requires
        8 <= SIZE,
        (SIZE - 8) % 2 == 0,
    ensures
        r == spec_checksum(data@),
{
    let n: usize = (SIZE - 8) / 2;
    assert(SIZE == 8 + 2 * n);
    let mut sum: u32 = 0;
    let mut k: usize = 0;
    while k < n
        invariant
            k <= n,
            SIZE == 8 + 2 * n,
            data@.len() == SIZE,
            sum < 0x1_0000,
            sum as int == spec_checksum_words(data@, k as int) % 0x1_0000,
        decreases n - k,
    {
        let w = crate::reader::read_u16_le(data, 8 + 2 * k);
        proof {
            let total = spec_checksum_words(data@, k as int);
            vstd::arithmetic::div_mod::lemma_add_mod_noop(total, w as int, 0x1_0000);
            vstd::arithmetic::div_mod::lemma_small_mod(w as nat, 0x1_0000);
        }
        sum = (sum + w as u32) % 0x1_0000;
        k = k + 1;
    }
    sum as u16
}

/// Two buffers that agree on the first `8 + 2 * k` bytes have the same
/// word sum up to `k`.
proof fn lemma_checksum_words_agree(s1: Seq<u8>, s2: Seq<u8>, k: int)
    requires
        s1.len() == s2.len(),
        0 <= k,
        8 + 2 * k <= s1.len(),
        forall|m: int| 8 <= m < 8 + 2 * k ==> s1[m] == s2[m],
    ensures
        spec_checksum_words(s1, k) == spec_checksum_words(s2, k),
    decreases k,
{
    if k > 0 {
        lemma_checksum_words_agree(s1, s2, k - 1);
        assert(spec_read_u16_le(s1, 8 + 2 * (k - 1)) == spec_read_u16_le(s2, 8 + 2 * (k - 1)));
    }
}

/// If the buffers differ in exactly one word of the region, the word
/// sums differ by exactly that word difference.
proof fn lemma_checksum_words_single_diff(s1: Seq<u8>, s2: Seq<u8>, k0: int, k: int)
    requires
        s1.len() == s2.len(),
        0 <= k0 < k,
        8 + 2 * k <= s1.len(),
        forall|m: int| 8 <= m < s1.len() && !(8 + 2 * k0 <= m < 8 + 2 * k0 + 2) ==> s1[m] == s2[m],
    ensures
        spec_checksum_words(s1, k) - spec_checksum_words(s2, k) == spec_read_u16_le(s1, 8 + 2 * k0)
            - spec_read_u16_le(s2, 8 + 2 * k0),
    decreases k,
{
    if k - 1 == k0 {
        lemma_checksum_words_agree(s1, s2, k0);
    } else {
        lemma_checksum_words_single_diff(s1, s2, k0, k - 1);
        assert(spec_read_u16_le(s1, 8 + 2 * (k - 1)) == spec_read_u16_le(s2, 8 + 2 * (k - 1)));
    }
}

/// The checksum is a function of the protected region alone: two
/// buffers of one length that agree after the header have the same
/// checksum. In particular, recomputing it over unchanged bytes always
/// yields the same value.
pub proof fn lemma_checksum_stable(s1: Seq<u8>, s2: Seq<u8>)
    requires
        s1.len() == s2.len(),
        s1.len() >= 8,
        forall|m: int| 8 <= m < s1.len() ==> s1[m] == s2[m],
    ensures
        spec_checksum(s1) == spec_checksum(s2),
{
    let n = (s1.len() - 8) / 2;
    vstd::arithmetic::div_mod::lemma_fundamental_div_mod(s1.len() - 8, 2);
    lemma_checksum_words_agree(s1, s2, n);
}

/// Changing any single byte of the protected region always changes the
/// checksum: the affected word changes by less than the modulus, so the
/// wrapped sum cannot come back to the same value.
pub proof fn lemma_checksum_byte_sensitive(s1: Seq<u8>, s2: Seq<u8>, i: int)
    requires
        s1.len() == s2.len(),
        s1.len() >= 8,
        (s1.len() - 8) % 2 == 0,
        8 <= i < s1.len(),
        s1[i] != s2[i],
        forall|m: int| 0 <= m < s1.len() && m != i ==> s1[m] == s2[m],
    ensures
        spec_checksum(s1) != spec_checksum(s2),
{
    let n = (s1.len() - 8) / 2;
    let k0 = (i - 8) / 2;
    let m: int = 0x1_0000;
    vstd::arithmetic::div_mod::lemma_fundamental_div_mod(s1.len() - 8, 2);
    vstd::arithmetic::div_mod::lemma_fundamental_div_mod(i - 8, 2);
    assert(0 <= k0 < n);
    let w1 = spec_read_u16_le(s1, 8 + 2 * k0);
    let w2 = spec_read_u16_le(s2, 8 + 2 * k0);
    // the changed byte lies in word k0, whose two byte positions are
    // 8 + 2 * k0 and 8 + 2 * k0 + 1; the words differ as values
    assert(8 + 2 * k0 <= i < 8 + 2 * k0 + 2);
    assert(w1 != w2) by {
        assert(w1 as int == (s1[8 + 2 * k0] as int) + 0x100 * (s1[8 + 2 * k0 + 1] as int));
        assert(w2 as int == (s2[8 + 2 * k0] as int) + 0x100 * (s2[8 + 2 * k0 + 1] as int));
    }
    lemma_checksum_words_single_diff(s1, s2, k0, n);
    let t1 = spec_checksum_words(s1, n);
    let t2 = spec_checksum_words(s2, n);
    let d = t1 - t2;
    assert(d == w1 - w2);
    assert(-m < d < m && d != 0);
    if t1 % m == t2 % m {
        vstd::arithmetic::div_mod::lemma_mod_equivalence(t1, t2, m);
        assert(d % m == 0);
        if d > 0 {
            vstd::arithmetic::div_mod::lemma_small_mod(d as nat, m as nat);
        } else {
            vstd::arithmetic::div_mod::lemma_mod_sub_multiples_vanish(d + m, m);
            vstd::arithmetic::div_mod::lemma_small_mod((d + m) as nat, m as nat);
        }
        assert(false);
    }
}

} // verus!
