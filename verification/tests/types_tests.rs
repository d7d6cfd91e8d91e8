use pkm::reader::{read_u16_le, read_u32_le, read_u8};
use pkm::types::{AbilityNumber, Gender, HiddenPower, Language, Nature};

#[test]
fn language_codes_map_with_gap_at_six() {
    assert_eq!(Language::from_u8(1), Language::Japanese);
    assert_eq!(Language::from_u8(2), Language::English);
    assert_eq!(Language::from_u8(5), Language::German);
    assert_eq!(Language::from_u8(6), Language::Invalid);
    assert_eq!(Language::from_u8(7), Language::Spanish);
    assert_eq!(Language::from_u8(10), Language::ChineseT);
    assert_eq!(Language::from_u8(0), Language::Invalid);
    assert_eq!(Language::from_u8(11), Language::Invalid);
}

#[test]
fn language_names() {
    assert_eq!(Language::English.name(), "English");
    assert_eq!(Language::ChineseS.name(), "ChineseS");
    assert_eq!(Language::Invalid.name(), "Invalid");
}

#[test]
fn gender_codes() {
    assert_eq!(Gender::from_u8(0), Gender::Male);
    assert_eq!(Gender::from_u8(1), Gender::Female);
    assert_eq!(Gender::from_u8(2), Gender::Genderless);
    assert_eq!(Gender::from_u8(3), Gender::Invalid);
}

#[test]
fn ability_number_codes() {
    assert_eq!(AbilityNumber::from_u8(1), AbilityNumber::First);
    assert_eq!(AbilityNumber::from_u8(2), AbilityNumber::Second);
    assert_eq!(AbilityNumber::from_u8(4), AbilityNumber::Hidden);
    assert_eq!(AbilityNumber::from_u8(0), AbilityNumber::Invalid);
    assert_eq!(AbilityNumber::from_u8(3), AbilityNumber::Invalid);
}

#[test]
fn nature_codes() {
    assert_eq!(Nature::from_u8(0), Nature::Hardy);
    assert_eq!(Nature::from_u8(22), Nature::Sassy);
    assert_eq!(Nature::from_u8(24), Nature::Quirky);
    assert_eq!(Nature::from_u8(25), Nature::Invalid);
}

#[test]
fn hidden_power_codes() {
    assert_eq!(HiddenPower::from_u8(0), HiddenPower::Fighting);
    assert_eq!(HiddenPower::from_u8(6), HiddenPower::Spirit);
    assert_eq!(HiddenPower::from_u8(15), HiddenPower::Dark);
}

#[test]
fn reads_are_little_endian() {
    let buf: [u8; 8] = [0x01, 0x02, 0x03, 0x04, 0x05, 0x06, 0x07, 0x08];
    assert_eq!(read_u8(&buf, 0), 0x01);
    assert_eq!(read_u16_le(&buf, 0), 0x0201);
    assert_eq!(read_u16_le(&buf, 3), 0x0504);
    assert_eq!(read_u32_le(&buf, 2), 0x06050403);
}

#[test]
fn out_of_range_reads_yield_zero() {
    let buf: [u8; 4] = [0xff, 0xff, 0xff, 0xff];
    assert_eq!(read_u8(&buf, 4), 0);
    assert_eq!(read_u16_le(&buf, 3), 0);
    assert_eq!(read_u32_le(&buf, 1), 0);
    assert_eq!(read_u32_le(&buf, 100), 0);
}
