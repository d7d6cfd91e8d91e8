//! The ninth-generation record variant: 328 bytes, an 8-byte clear
//! header followed by four 80-byte shuffled blocks.

use vstd::prelude::*;

use crate::pkx::{spec_decoded, spec_zero_bytes, Pkx};
use crate::poke_crypto;
use crate::reader::{read_u16_le, read_u32_le, read_u8, spec_read_u16_le, spec_read_u32_le,
    spec_read_u8};
use crate::types::{AbilityNumber, Gender, Language, Nature, Stats};

verus! {

/// Total size in bytes of a stored record of this generation.
pub const PK9_STORED_SIZE: usize = 328;

/// Size in bytes of each of the four shuffled blocks.
pub const PK9_BLOCK_SIZE: usize = 80;

/// A stored record buffer of this generation.
pub type Pk9Bytes = [u8; 328];

/// A clear (decoded) record of this generation. Field reads are lazy:
/// every accessor reads straight from the buffer, and the codec holds no
/// other state.
pub struct Pk9 {
    data: Pk9Bytes,
}

impl Default for Pk9 {
    /// The default record holds the all-zero buffer, distinguishable
    /// from any genuine record by its zero checksum region and zero
    /// identifiers.
    fn default() -> (r: Self)
        ensures
            r.spec_stored() == spec_zero_bytes(328),
    {
        let r = Pk9 { data: [0; 328] };
        proof {
            assert(r.spec_stored() =~= spec_zero_bytes(328));
        }
        r
    }
}

impl Pkx for Pk9 {
    type StoredBytes = Pk9Bytes;

    closed spec fn spec_stored(&self) -> Seq<u8> {
        self.data@
    }

    open spec fn spec_size() -> nat {
        328
    }

    /// The sentinel fields of this variant sit at offsets 0x70 and
    /// 0x110; both are zero in any legitimately clear record.
    open spec fn spec_is_encrypted(data: Seq<u8>) -> bool {
        spec_read_u16_le(data, 0x70) != 0 || spec_read_u16_le(data, 0x110) != 0
    }

    open spec fn spec_decrypt(data: Seq<u8>) -> Seq<u8> {
        poke_crypto::spec_decrypt(data, 80)
    }

    open spec fn spec_encrypt(data: Seq<u8>) -> Seq<u8> {
        poke_crypto::spec_encrypt(data, 80)
    }

    open spec fn spec_encryption_constant(&self) -> u32 {
        spec_read_u32_le(self.spec_stored(), 0x00)
    }

    open spec fn spec_sanity(&self) -> u16 {
        spec_read_u16_le(self.spec_stored(), 0x04)
    }

    open spec fn spec_checksum(&self) -> u16 {
        spec_read_u16_le(self.spec_stored(), 0x06)
    }

    open spec fn spec_species(&self) -> u16 {
        spec_read_u16_le(self.spec_stored(), 0x08)
    }

    open spec fn spec_tid(&self) -> u16 {
        spec_read_u16_le(self.spec_stored(), 0x0c)
    }

    open spec fn spec_sid(&self) -> u16 {
        spec_read_u16_le(self.spec_stored(), 0x0e)
    }

    open spec fn spec_ability(&self) -> u16 {
        spec_read_u16_le(self.spec_stored(), 0x14)
    }

    open spec fn spec_ability_number(&self) -> u8 {
        spec_read_u8(self.spec_stored(), 0x16)
    }

    open spec fn spec_pid(&self) -> u32 {
        spec_read_u32_le(self.spec_stored(), 0x1c)
    }

    open spec fn spec_nature(&self) -> u8 {
        spec_read_u8(self.spec_stored(), 0x20)
    }

    open spec fn spec_minted_nature(&self) -> u8 {
        spec_read_u8(self.spec_stored(), 0x21)
    }

    /// Gender is the two bits above the low bit of the gender byte.
    open spec fn spec_gender(&self) -> u8 {
        (spec_read_u8(self.spec_stored(), 0x22) >> 1) & 3
    }

    open spec fn spec_evs(&self) -> Stats {
        Stats {
            hp: spec_read_u8(self.spec_stored(), 0x26),
            atk: spec_read_u8(self.spec_stored(), 0x27),
            def: spec_read_u8(self.spec_stored(), 0x28),
            spe: spec_read_u8(self.spec_stored(), 0x29),
            spa: spec_read_u8(self.spec_stored(), 0x2a),
            spd: spec_read_u8(self.spec_stored(), 0x2b),
        }
    }

    open spec fn spec_move1(&self) -> u16 {
        spec_read_u16_le(self.spec_stored(), 0x72)
    }

    open spec fn spec_move2(&self) -> u16 {
        spec_read_u16_le(self.spec_stored(), 0x74)
    }

    open spec fn spec_move3(&self) -> u16 {
        spec_read_u16_le(self.spec_stored(), 0x76)
    }

    open spec fn spec_move4(&self) -> u16 {
        spec_read_u16_le(self.spec_stored(), 0x78)
    }

    open spec fn spec_iv32(&self) -> u32 {
        spec_read_u32_le(self.spec_stored(), 0x8c)
    }

    open spec fn spec_current_handler(&self) -> u8 {
        spec_read_u8(self.spec_stored(), 0xc4)
    }

    open spec fn spec_ht_friendship(&self) -> u8 {
        spec_read_u8(self.spec_stored(), 0xc8)
    }

    open spec fn spec_language(&self) -> u8 {
        spec_read_u8(self.spec_stored(), 0xc3)
    }

    open spec fn spec_ot_friendship(&self) -> u8 {
        spec_read_u8(self.spec_stored(), 0x112)
    }

    /// The protected region is everything after the 8-byte header.
    open spec fn spec_calculate_checksum(&self) -> u16 {
        poke_crypto::spec_checksum(self.spec_stored())
    }

    fn new_pkx(data: Pk9Bytes) -> Self {
        Pk9 { data }
    }

    fn is_encrypted(data: &Pk9Bytes) -> bool {
        read_u16_le(data, 0x70) != 0 || read_u16_le(data, 0x110) != 0
    }

    fn decrypt(data: Pk9Bytes) -> Pk9Bytes {
        poke_crypto::decrypt::<PK9_STORED_SIZE, PK9_BLOCK_SIZE>(data)
    }

    fn encrypt(data: Pk9Bytes) -> Pk9Bytes {
        poke_crypto::encrypt::<PK9_STORED_SIZE, PK9_BLOCK_SIZE>(data)
    }

    fn get_encrypted(&self) -> Pk9Bytes {
        Self::encrypt(self.data)
    }

    fn new_or_default(data: &[u8]) -> Self {
        if data.len() == 328 {
            let mut buf: Pk9Bytes = [0; 328];
            let mut i: usize = 0;
            while i < 328
                invariant
                    i <= 328,
                    data@.len() == 328,
                    buf@.len() == 328,
                    forall|m: int| 0 <= m < i ==> buf@[m] == data@[m],
                decreases 328 - i,
            {
                buf[i] = data[i];
                i = i + 1;
            }
            proof {
                assert(buf@ =~= data@);
            }
            Self::new(buf)
        } else {
            Pk9::default()
        }
    }

    fn encryption_constant(&self) -> u32 {
        read_u32_le(&self.data, 0x00)
    }

    fn sanity(&self) -> u16 {
        read_u16_le(&self.data, 0x04)
    }

    fn checksum(&self) -> u16 {
        read_u16_le(&self.data, 0x06)
    }

    fn species(&self) -> u16 {
        read_u16_le(&self.data, 0x08)
    }

    fn tid(&self) -> u16 {
        read_u16_le(&self.data, 0x0c)
    }

    fn sid(&self) -> u16 {
        read_u16_le(&self.data, 0x0e)
    }

    fn ability(&self) -> u16 {
        read_u16_le(&self.data, 0x14)
    }

    fn ability_number(&self) -> AbilityNumber {
        AbilityNumber::from_u8(read_u8(&self.data, 0x16))
    }

    fn pid(&self) -> u32 {
        read_u32_le(&self.data, 0x1c)
    }

    fn nature(&self) -> Nature {
        Nature::from_u8(read_u8(&self.data, 0x20))
    }

    fn minted_nature(&self) -> Nature {
        Nature::from_u8(read_u8(&self.data, 0x21))
    }

    fn gender(&self) -> Gender {
        let byte = read_u8(&self.data, 0x22);
        Gender::from_u8((byte >> 1) & 3)
    }

    fn evs(&self) -> Stats {
        Stats {
            hp: read_u8(&self.data, 0x26),
            atk: read_u8(&self.data, 0x27),
            def: read_u8(&self.data, 0x28),
            spe: read_u8(&self.data, 0x29),
            spa: read_u8(&self.data, 0x2a),
            spd: read_u8(&self.data, 0x2b),
        }
    }

    fn move1(&self) -> u16 {
        read_u16_le(&self.data, 0x72)
    }

    fn move2(&self) -> u16 {
        read_u16_le(&self.data, 0x74)
    }

    fn move3(&self) -> u16 {
        read_u16_le(&self.data, 0x76)
    }

    fn move4(&self) -> u16 {
        read_u16_le(&self.data, 0x78)
    }

    fn iv32(&self) -> u32 {
        read_u32_le(&self.data, 0x8c)
    }

    fn current_handler(&self) -> u8 {
        read_u8(&self.data, 0xc4)
    }

    fn ht_friendship(&self) -> u8 {
        read_u8(&self.data, 0xc8)
    }

    fn language(&self) -> Language {
        Language::from_u8(read_u8(&self.data, 0xc3))
    }

    fn ot_friendship(&self) -> u8 {
        read_u8(&self.data, 0x112)
    }

    fn calculate_checksum(&self) -> u16 {
        poke_crypto::calculate_checksum::<PK9_STORED_SIZE>(&self.data)
    }
}

/// An obfuscated record buffer of this generation, as read from disk or
/// from the wire.
pub struct Ek9 {
    data: Pk9Bytes,
}

impl Default for Ek9 {
    fn default() -> (r: Self)
        ensures
            r.spec_stored() == spec_zero_bytes(328),
    {
        let r = Ek9 { data: [0; 328] };
        proof {
            assert(r.spec_stored() =~= spec_zero_bytes(328));
        }
        r
    }
}

impl Ek9 {
    pub closed spec fn spec_stored(&self) -> Seq<u8> {
        self.data@
    }

    pub fn new(data: Pk9Bytes) -> (r: Self)
        ensures
            r.spec_stored() == data@,
    {
        Ek9 { data }
    }

    /// Decode into the clear record form.
    pub fn to_pk9(self) -> (r: Pk9)
        ensures
            r.spec_stored() == spec_decoded::<Pk9>(self.spec_stored()),
    {
        Pk9::new(self.data)
    }
}

/// Encoding then decoding — or decoding then encoding — restores any
/// 328-byte buffer exactly: the transform pair is a strict involution.
pub proof fn lemma_pk9_round_trip(s: Seq<u8>)
    requires
        s.len() == 328,
    ensures
        Pk9::spec_decrypt(Pk9::spec_encrypt(s)) == s,
        Pk9::spec_encrypt(Pk9::spec_decrypt(s)) == s,
{
    poke_crypto::lemma_cipher_round_trip(s, 80);
}

/// A buffer produced by a genuine encoding of a legitimately clear
/// record (both sentinels zero) never looks obfuscated after decoding.
pub proof fn lemma_pk9_decode_clears_detection(s: Seq<u8>)
    requires
        s.len() == 328,
        !Pk9::spec_is_encrypted(s),
    ensures
        !Pk9::spec_is_encrypted(Pk9::spec_decrypt(Pk9::spec_encrypt(s))),
{
    lemma_pk9_round_trip(s);
}

} // verus!
