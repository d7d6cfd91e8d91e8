//! The field contract shared by every record variant.
//!
//! A variant binds a total size, the cipher at its block size, and an
//! offset map for every stored field. The derived values — shininess,
//! the individual-value unpack, the hidden-power type — are identical in
//! formula across variants, so they live here once as provided methods,
//! specified against the variant's field views.

use vstd::prelude::*;

use crate::types::{AbilityNumber, Gender, HiddenPower, Language, Nature, Stats};

verus! {

/// Trainer shininess value: the two trainer identifiers XORed, then the
/// low four bits dropped. Always below 4096.
pub open spec fn spec_tsv(tid: u16, sid: u16) -> u16 {
    (tid ^ sid) >> 4
}

/// Personality shininess value: the two halves of the personality word
/// XORed, then the low four bits dropped. Always below 4096.
pub open spec fn spec_psv(pid: u32) -> u16 {
    ((((pid >> 16) ^ (pid & 0xffff)) >> 4) & 0xffff) as u16
}

/// A record is shiny when its two shininess values agree. The degenerate
/// record with a zero personality value is never reported shiny, so a
/// freshly default-constructed (all-zero) record reports not-shiny even
/// though both values are zero.
pub open spec fn spec_is_shiny(pid: u32, tid: u16, sid: u16) -> bool {
    pid != 0 && spec_psv(pid) == spec_tsv(tid, sid)
}

/// The 32-bit individual-value word unpacked into six 5-bit fields, in
/// the packed order hp, atk, def, spe, spa, spd (speed sits below the
/// two special stats in the word, unlike the display order).
pub open spec fn spec_ivs(iv32: u32) -> Stats {
    Stats {
        hp: (iv32 & 0x1f) as u8,
        atk: ((iv32 >> 5) & 0x1f) as u8,
        def: ((iv32 >> 10) & 0x1f) as u8,
        spe: ((iv32 >> 15) & 0x1f) as u8,
        spa: ((iv32 >> 20) & 0x1f) as u8,
        spd: ((iv32 >> 25) & 0x1f) as u8,
    }
}

/// The low bit of each individual value, packed as bits 0 to 5 in the
/// order hp, atk, def, spe, spa, spd.
pub open spec fn spec_hidden_power_bits(s: Stats) -> int {
    ((s.hp & 1) as int) + (((s.atk & 1) as u16) << 1) + (((s.def & 1) as u16) << 2) + (((s.spe
        & 1) as u16) << 3) + (((s.spa & 1) as u16) << 4) + (((s.spd & 1) as u16) << 5)
}

/// The hidden-power index: the packed low bits scaled from 0..=63 down
/// to 0..=15.
pub open spec fn spec_hidden_power_num(iv32: u32) -> int {
    spec_hidden_power_bits(spec_ivs(iv32)) * 15 / 63
}

/// The egg flag is bit 30 of the individual-value word.
pub open spec fn spec_is_egg(iv32: u32) -> bool {
    (iv32 >> 30) & 1 == 1
}

/// What a buffer handed to a constructor decodes to: obfuscated input is
/// decoded, clear input is wrapped as it is.
pub open spec fn spec_decoded<P: Pkx>(data: Seq<u8>) -> Seq<u8> {
    if P::spec_is_encrypted(data) {
        P::spec_decrypt(data)
    } else {
        data
    }
}

/// The all-zero buffer a default record holds.
pub open spec fn spec_zero_bytes(n: nat) -> Seq<u8> {
    Seq::new(n, |i: int| 0u8)
}

pub trait Pkx: Sized {
    type StoredBytes: View<V = Seq<u8>>;

    /// The record bytes this value wraps.
    spec fn spec_stored(&self) -> Seq<u8>;

    /// This variant's total record size in bytes.
    spec fn spec_size() -> nat;

    /// True iff either of the variant's two obfuscation sentinel fields
    /// is nonzero. Both are architecturally zero in a legitimately clear
    /// record, and almost surely nonzero after the keystream is applied.
    spec fn spec_is_encrypted(data: Seq<u8>) -> bool;

    /// The clear form of an obfuscated buffer.
    spec fn spec_decrypt(data: Seq<u8>) -> Seq<u8>;

    /// The obfuscated form of a clear buffer.
    spec fn spec_encrypt(data: Seq<u8>) -> Seq<u8>;

    spec fn spec_encryption_constant(&self) -> u32;

    spec fn spec_sanity(&self) -> u16;

    spec fn spec_checksum(&self) -> u16;

    spec fn spec_species(&self) -> u16;

    spec fn spec_tid(&self) -> u16;

    spec fn spec_sid(&self) -> u16;

    spec fn spec_ability(&self) -> u16;

    spec fn spec_ability_number(&self) -> u8;

    spec fn spec_pid(&self) -> u32;

    spec fn spec_nature(&self) -> u8;

    spec fn spec_minted_nature(&self) -> u8;

    spec fn spec_gender(&self) -> u8;

    spec fn spec_evs(&self) -> Stats;

    spec fn spec_move1(&self) -> u16;

    spec fn spec_move2(&self) -> u16;

    spec fn spec_move3(&self) -> u16;

    spec fn spec_move4(&self) -> u16;

    spec fn spec_iv32(&self) -> u32;

    spec fn spec_current_handler(&self) -> u8;

    spec fn spec_ht_friendship(&self) -> u8;

    spec fn spec_language(&self) -> u8;

    spec fn spec_ot_friendship(&self) -> u8;

    /// The checksum recomputed over this variant's protected region.
    spec fn spec_calculate_checksum(&self) -> u16;

    /// Wrap an already-clear buffer without transforming it.
    fn new_pkx(data: Self::StoredBytes) -> (r: Self)
        ensures
            r.spec_stored() == data@,
    ;

    fn is_encrypted(data: &Self::StoredBytes) -> (r: bool)
        ensures
            r == Self::spec_is_encrypted(data@),
    ;

    fn decrypt(data: Self::StoredBytes) -> (r: Self::StoredBytes)
        ensures
            r@ == Self::spec_decrypt(data@),
    ;

    fn encrypt(data: Self::StoredBytes) -> (r: Self::StoredBytes)
        ensures
            r@ == Self::spec_encrypt(data@),
    ;

    /// This record's bytes in obfuscated form, leaving the record as it
    /// is.
    fn get_encrypted(&self) -> (r: Self::StoredBytes)
        ensures
            r@ == Self::spec_encrypt(self.spec_stored()),
    ;

    /// Build from a byte slice: a slice of exactly the declared size is
    /// decoded as `new` would, any other length yields the default
    /// (all-zero) record rather than an error.
    fn new_or_default(data: &[u8]) -> (r: Self)
        ensures
            data@.len() == Self::spec_size() && Self::spec_is_encrypted(data@)
                ==> r.spec_stored() == Self::spec_decrypt(data@),
            data@.len() == Self::spec_size() && !Self::spec_is_encrypted(data@)
                ==> r.spec_stored() == data@,
            data@.len() != Self::spec_size() ==> r.spec_stored() == spec_zero_bytes(
                Self::spec_size(),
            ),
    ;

    fn encryption_constant(&self) -> (r: u32)
        ensures
            r == self.spec_encryption_constant(),
    ;

    fn sanity(&self) -> (r: u16)
        ensures
            r == self.spec_sanity(),
    ;

    fn checksum(&self) -> (r: u16)
        ensures
            r == self.spec_checksum(),
    ;

    fn species(&self) -> (r: u16)
        ensures
            r == self.spec_species(),
    ;

    fn tid(&self) -> (r: u16)
        ensures
            r == self.spec_tid(),
    ;

    fn sid(&self) -> (r: u16)
        ensures
            r == self.spec_sid(),
    ;

    fn ability(&self) -> (r: u16)
        ensures
            r == self.spec_ability(),
    ;

    fn ability_number(&self) -> (r: AbilityNumber)
        ensures
            r == AbilityNumber::spec_from_u8(self.spec_ability_number()),
    ;

    fn pid(&self) -> (r: u32)
        ensures
            r == self.spec_pid(),
    ;

    fn nature(&self) -> (r: Nature)
        ensures
            r == Nature::spec_from_u8(self.spec_nature()),
    ;

    fn minted_nature(&self) -> (r: Nature)
        ensures
            r == Nature::spec_from_u8(self.spec_minted_nature()),
    ;

    fn gender(&self) -> (r: Gender)
        ensures
            r == Gender::spec_from_u8(self.spec_gender()),
    ;

    fn evs(&self) -> (r: Stats)
        ensures
            r == self.spec_evs(),
    ;

    fn move1(&self) -> (r: u16)
        ensures
            r == self.spec_move1(),
    ;

    fn move2(&self) -> (r: u16)
        ensures
            r == self.spec_move2(),
    ;

    fn move3(&self) -> (r: u16)
        ensures
            r == self.spec_move3(),
    ;

    fn move4(&self) -> (r: u16)
        ensures
            r == self.spec_move4(),
    ;

    fn iv32(&self) -> (r: u32)
        ensures
            r == self.spec_iv32(),
    ;

    fn current_handler(&self) -> (r: u8)
        ensures
            r == self.spec_current_handler(),
    ;

    fn ht_friendship(&self) -> (r: u8)
        ensures
            r == self.spec_ht_friendship(),
    ;

    fn language(&self) -> (r: Language)
        ensures
            r == Language::spec_from_u8(self.spec_language()),
    ;

    fn ot_friendship(&self) -> (r: u8)
        ensures
            r == self.spec_ot_friendship(),
    ;

    fn calculate_checksum(&self) -> (r: u16)
        ensures
            r == self.spec_calculate_checksum(),
    ;

    /// Wrap a buffer of the declared size, decoding it first when the
    /// sentinels say it is obfuscated.
    fn new(data: Self::StoredBytes) -> (r: Self)
        ensures
            Self::spec_is_encrypted(data@) ==> r.spec_stored() == Self::spec_decrypt(data@),
            !Self::spec_is_encrypted(data@) ==> r.spec_stored() == data@,
    {
        if Self::is_encrypted(&data) {
            Self::new_pkx(Self::decrypt(data))
        } else {
            Self::new_pkx(data)
        }
    }

    fn tsv(&self) -> (r: u16)
        ensures
            r == spec_tsv(self.spec_tid(), self.spec_sid()),
            r <= 0xfff,
    {
        let tid = self.tid();
        let sid = self.sid();
        proof {
            lemma_shininess_value_bounds(tid, sid, 0);
        }
        (tid ^ sid) >> 4
    }

    fn psv(&self) -> (r: u16)
        ensures
            r == spec_psv(self.spec_pid()),
            r <= 0xfff,
    {
        let pid = self.pid();
        proof {
            lemma_shininess_value_bounds(0, 0, pid);
        }
        ((((pid >> 16) ^ (pid & 0xffff)) >> 4) & 0xffff) as u16
    }

    /// See `spec_is_shiny` for the degenerate zero-personality case.
    fn is_shiny(&self) -> (r: bool)
        ensures
            r == spec_is_shiny(self.spec_pid(), self.spec_tid(), self.spec_sid()),
    {
        self.pid() != 0 && self.psv() == self.tsv()
    }

    fn ivs(&self) -> (r: Stats)
        ensures
            r == spec_ivs(self.spec_iv32()),
    {
        let iv32 = self.iv32();
        Stats {
            hp: (iv32 & 0x1f) as u8,
            atk: ((iv32 >> 5) & 0x1f) as u8,
            def: ((iv32 >> 10) & 0x1f) as u8,
            spe: ((iv32 >> 15) & 0x1f) as u8,
            spa: ((iv32 >> 20) & 0x1f) as u8,
            spd: ((iv32 >> 25) & 0x1f) as u8,
        }
    }

    fn hidden_power_num(&self) -> (r: u8)
        ensures
            r == spec_hidden_power_num(self.spec_iv32()),
            r < 16,
    {
        let ivs = self.ivs();
        let b0: u16 = (ivs.hp & 1) as u16;
        let b1: u16 = ((ivs.atk & 1) as u16) << 1;
        let b2: u16 = ((ivs.def & 1) as u16) << 2;
        let b3: u16 = ((ivs.spe & 1) as u16) << 3;
        let b4: u16 = ((ivs.spa & 1) as u16) << 4;
        let b5: u16 = ((ivs.spd & 1) as u16) << 5;
        proof {
            lemma_hidden_power_bit_bounds(ivs.hp, ivs.atk, ivs.def, ivs.spe, ivs.spa, ivs.spd);
        }
        let bits: u16 = b0 + b1 + b2 + b3 + b4 + b5;
        (bits * 15 / 63) as u8
    }

    fn hidden_power(&self) -> (r: HiddenPower)
        ensures
            r == HiddenPower::spec_from_u8(spec_hidden_power_num(self.spec_iv32()) as u8),
    {
        HiddenPower::from_u8(self.hidden_power_num())
    }

    fn is_egg(&self) -> (r: bool)
        ensures
            r == spec_is_egg(self.spec_iv32()),
    {
        (self.iv32() >> 30) & 1 == 1
    }

    /// Friendship with whoever currently handles the record's creature:
    /// the original trainer when the handler flag is zero, the current
    /// handling trainer otherwise.
    fn current_friendship(&self) -> (r: u8)
        ensures
            r == if self.spec_current_handler() == 0 {
                self.spec_ot_friendship()
            } else {
                self.spec_ht_friendship()
            },
    {
        if self.current_handler() == 0 {
            self.ot_friendship()
        } else {
            self.ht_friendship()
        }
    }

    /// A record is valid when its sanity field is zero and its stored
    /// checksum equals the checksum recomputed over the protected
    /// region. Corrupt records stay fully inspectable; this is the one
    /// explicit validity query.
    fn is_valid(&self) -> (r: bool)
        ensures
            r == (self.spec_sanity() == 0 && self.spec_checksum()
                == self.spec_calculate_checksum()),
    {
        self.sanity() == 0 && self.checksum() == self.calculate_checksum()
    }
}

/// Both shininess values drop the low four bits of a 16-bit quantity,
/// so each lies in 0..=4095.
proof fn lemma_shininess_value_bounds(tid: u16, sid: u16, pid: u32)
    by (bit_vector)
    ensures
        (tid ^ sid) >> 4 <= 0xfff,
        ((((pid >> 16) ^ (pid & 0xffff)) >> 4) & 0xffff) <= 0xfff,
{
}

proof fn lemma_hidden_power_bit_bounds(hp: u8, atk: u8, def: u8, spe: u8, spa: u8, spd: u8)
    by (bit_vector)
    ensures
        ((hp & 1) as u16) <= 1,
        (((atk & 1) as u16) << 1) <= 2,
        (((def & 1) as u16) << 2) <= 4,
        (((spe & 1) as u16) << 3) <= 8,
        (((spa & 1) as u16) << 4) <= 16,
        (((spd & 1) as u16) << 5) <= 32,
{
}

} // verus!
