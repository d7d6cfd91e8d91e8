//! Typed values decoded from record fields.
//!
//! Small closed sets that the format itself defines (nature, gender,
//! ability slot, hidden-power type, language) are enums with an explicit
//! mapping from their stored code. Species, ability and move identifiers
//! are open-ended name-table indices: the codec produces and consumes
//! the raw integer code, and names only a few well-known codes.

use vstd::prelude::*;

verus! {

/// Species code for Ditto.
pub const SPECIES_DITTO: u16 = 132;

/// Ability code for Imposter.
pub const ABILITY_IMPOSTER: u16 = 150;

/// Move code for Transform.
pub const MOVE_TRANSFORM: u16 = 144;

/// Move code of an empty move slot.
pub const MOVE_NONE: u16 = 0;

/// Six per-stat values, one byte each.
#[derive(Clone, Copy, Debug, PartialEq, Eq, Structural)]
pub struct Stats {
    pub hp: u8,
    pub atk: u8,
    pub def: u8,
    pub spa: u8,
    pub spd: u8,
    pub spe: u8,
}

/// Which of a species' ability slots the record's ability occupies.
#[derive(Clone, Copy, Debug, PartialEq, Eq, Structural)]
pub enum AbilityNumber {
    Invalid,
    First,
    Second,
    Hidden,
}

impl AbilityNumber {
    /// Stored codes: 1 and 2 are the ordinary slots, 4 the hidden slot.
    pub open spec fn spec_from_u8(v: u8) -> AbilityNumber {
        if v == 1 {
            AbilityNumber::First
        } else if v == 2 {
            AbilityNumber::Second
        } else if v == 4 {
            AbilityNumber::Hidden
        } else {
            AbilityNumber::Invalid
        }
    }

    pub fn from_u8(v: u8) -> (r: AbilityNumber)
        ensures
            r == AbilityNumber::spec_from_u8(v),
    {
        match v {
            1 => AbilityNumber::First,
            2 => AbilityNumber::Second,
            4 => AbilityNumber::Hidden,
            _ => AbilityNumber::Invalid,
        }
    }
}

/// Gender, stored as two packed bits of the gender byte.
#[derive(Clone, Copy, Debug, PartialEq, Eq, Structural)]
pub enum Gender {
    Male,
    Female,
    Genderless,
    Invalid,
}

impl Gender {
    pub open spec fn spec_from_u8(v: u8) -> Gender {
        if v == 0 {
            Gender::Male
        } else if v == 1 {
            Gender::Female
        } else if v == 2 {
            Gender::Genderless
        } else {
            Gender::Invalid
        }
    }

    pub fn from_u8(v: u8) -> (r: Gender)
        ensures
            r == Gender::spec_from_u8(v),
    {
        match v {
            0 => Gender::Male,
            1 => Gender::Female,
            2 => Gender::Genderless,
            _ => Gender::Invalid,
        }
    }
}

/// Nature, stored as a code from 0 to 24.
#[derive(Clone, Copy, Debug, PartialEq, Eq, Structural)]
pub enum Nature {
    Hardy,
    Lonely,
    Brave,
    Adamant,
    Naughty,
    Bold,
    Docile,
    Relaxed,
    Impish,
    Lax,
    Timid,
    Hasty,
    Serious,
    Jolly,
    Naive,
    Modest,
    Mild,
    Quiet,
    Bashful,
    Rash,
    Calm,
    Gentle,
    Sassy,
    Careful,
    Quirky,
    Invalid,
}

impl Nature {
    pub open spec fn spec_from_u8(v: u8) -> Nature {
        if v == 0 {
            Nature::Hardy
        } else if v == 1 {
            Nature::Lonely
        } else if v == 2 {
            Nature::Brave
        } else if v == 3 {
            Nature::Adamant
        } else if v == 4 {
            Nature::Naughty
        } else if v == 5 {
            Nature::Bold
        } else if v == 6 {
            Nature::Docile
        } else if v == 7 {
            Nature::Relaxed
        } else if v == 8 {
            Nature::Impish
        } else if v == 9 {
            Nature::Lax
        } else if v == 10 {
            Nature::Timid
        } else if v == 11 {
            Nature::Hasty
        } else if v == 12 {
            Nature::Serious
        } else if v == 13 {
            Nature::Jolly
        } else if v == 14 {
            Nature::Naive
        } else if v == 15 {
            Nature::Modest
        } else if v == 16 {
            Nature::Mild
        } else if v == 17 {
            Nature::Quiet
        } else if v == 18 {
            Nature::Bashful
        } else if v == 19 {
            Nature::Rash
        } else if v == 20 {
            Nature::Calm
        } else if v == 21 {
            Nature::Gentle
        } else if v == 22 {
            Nature::Sassy
        } else if v == 23 {
            Nature::Careful
        } else if v == 24 {
            Nature::Quirky
        } else {
            Nature::Invalid
        }
    }

    pub fn from_u8(v: u8) -> (r: Nature)
        ensures
            r == Nature::spec_from_u8(v),
    {
        match v {
            0 => Nature::Hardy,
            1 => Nature::Lonely,
            2 => Nature::Brave,
            3 => Nature::Adamant,
            4 => Nature::Naughty,
            5 => Nature::Bold,
            6 => Nature::Docile,
            7 => Nature::Relaxed,
            8 => Nature::Impish,
            9 => Nature::Lax,
            10 => Nature::Timid,
            11 => Nature::Hasty,
            12 => Nature::Serious,
            13 => Nature::Jolly,
            14 => Nature::Naive,
            15 => Nature::Modest,
            16 => Nature::Mild,
            17 => Nature::Quiet,
            18 => Nature::Bashful,
            19 => Nature::Rash,
            20 => Nature::Calm,
            21 => Nature::Gentle,
            22 => Nature::Sassy,
            23 => Nature::Careful,
            24 => Nature::Quirky,
            _ => Nature::Invalid,
        }
    }
}

/// The sixteen hidden-power elemental types, mapped from the scaled
/// 0 to 15 composite of the individual values' low bits.
#[derive(Clone, Copy, Debug, PartialEq, Eq, Structural)]
pub enum HiddenPower {
    Fighting,
    Flying,
    Poison,
    Ground,
    Rock,
    Bug,
    Spirit,
    Steel,
    Fire,
    Water,
    Grass,
    Electric,
    Psychic,
    Ice,
    Dragon,
    Dark,
}

impl HiddenPower {
    pub open spec fn spec_from_u8(v: u8) -> HiddenPower {
        if v == 0 {
            HiddenPower::Fighting
        } else if v == 1 {
            HiddenPower::Flying
        } else if v == 2 {
            HiddenPower::Poison
        } else if v == 3 {
            HiddenPower::Ground
        } else if v == 4 {
            HiddenPower::Rock
        } else if v == 5 {
            HiddenPower::Bug
        } else if v == 6 {
            HiddenPower::Spirit
        } else if v == 7 {
            HiddenPower::Steel
        } else if v == 8 {
            HiddenPower::Fire
        } else if v == 9 {
            HiddenPower::Water
        } else if v == 10 {
            HiddenPower::Grass
        } else if v == 11 {
            HiddenPower::Electric
        } else if v == 12 {
            HiddenPower::Psychic
        } else if v == 13 {
            HiddenPower::Ice
        } else if v == 14 {
            HiddenPower::Dragon
        } else {
            HiddenPower::Dark
        }
    }

    pub fn from_u8(v: u8) -> (r: HiddenPower)
        ensures
            r == HiddenPower::spec_from_u8(v),
    {
        match v {
            0 => HiddenPower::Fighting,
            1 => HiddenPower::Flying,
            2 => HiddenPower::Poison,
            3 => HiddenPower::Ground,
            4 => HiddenPower::Rock,
            5 => HiddenPower::Bug,
            6 => HiddenPower::Spirit,
            7 => HiddenPower::Steel,
            8 => HiddenPower::Fire,
            9 => HiddenPower::Water,
            10 => HiddenPower::Grass,
            11 => HiddenPower::Electric,
            12 => HiddenPower::Psychic,
            13 => HiddenPower::Ice,
            14 => HiddenPower::Dragon,
            _ => HiddenPower::Dark,
        }
    }
}

/// Language of origin, stored as a code with a gap at 6.
#[derive(Clone, Copy, Debug, PartialEq, Eq, Structural)]
pub enum Language {
    Invalid,
    Japanese,
    English,
    French,
    Italian,
    German,
    Spanish,
    Korean,
    ChineseS,
    ChineseT,
}

impl Language {
    /// Stored codes 1 to 10, skipping 6; every other code is invalid.
    pub open spec fn spec_from_u8(v: u8) -> Language {
        if v == 1 {
            Language::Japanese
        } else if v == 2 {
            Language::English
        } else if v == 3 {
            Language::French
        } else if v == 4 {
            Language::Italian
        } else if v == 5 {
            Language::German
        } else if v == 7 {
            Language::Spanish
        } else if v == 8 {
            Language::Korean
        } else if v == 9 {
            Language::ChineseS
        } else if v == 10 {
            Language::ChineseT
        } else {
            Language::Invalid
        }
    }

    pub fn from_u8(v: u8) -> (r: Language)
        ensures
            r == Language::spec_from_u8(v),
    {
        match v {
            1 => Language::Japanese,
            2 => Language::English,
            3 => Language::French,
            4 => Language::Italian,
            5 => Language::German,
            7 => Language::Spanish,
            8 => Language::Korean,
            9 => Language::ChineseS,
            10 => Language::ChineseT,
            _ => Language::Invalid,
        }
    }

    /// The language's name, for display.
    pub fn name(&self) -> (r: &'static str)
        ensures
            *self is Japanese ==> r@ == "Japanese"@,
            *self is English ==> r@ == "English"@,
            *self is French ==> r@ == "French"@,
            *self is Italian ==> r@ == "Italian"@,
            *self is German ==> r@ == "German"@,
            *self is Spanish ==> r@ == "Spanish"@,
            *self is Korean ==> r@ == "Korean"@,
            *self is ChineseS ==> r@ == "ChineseS"@,
            *self is ChineseT ==> r@ == "ChineseT"@,
            *self is Invalid ==> r@ == "Invalid"@,
    {
        match self {
            Language::Invalid => "Invalid",
            Language::Japanese => "Japanese",
            Language::English => "English",
            Language::French => "French",
            Language::Italian => "Italian",
            Language::German => "German",
            Language::Spanish => "Spanish",
            Language::Korean => "Korean",
            Language::ChineseS => "ChineseS",
            Language::ChineseT => "ChineseT",
        }
    }
}

} // verus!
