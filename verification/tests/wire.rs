use silkroad_core::skill::{
    LearnSkill, LearnSkillResponse, LevelUpMastery, LevelUpMasteryError, LevelUpMasteryResponse,
};
use silkroad_core::wire::{from_bytes, to_bytes, DecodeError, Packet};

fn round_trip<T: Packet + PartialEq + std::fmt::Debug>(value: T, bytes: &[u8]) {
    assert_eq!(to_bytes(&value), bytes);
    assert_eq!(T::decode(bytes), Ok((from_bytes::<T>(bytes).unwrap(), bytes.len())));
    assert_eq!(from_bytes::<T>(bytes), Ok(value));
    for cut in 0..bytes.len() {
        assert_eq!(T::decode(&bytes[..cut]).err(), Some(DecodeError::UnexpectedEndOfInput));
    }
    let mut longer = bytes.to_vec();
    longer.extend_from_slice(&[0xAA, 0xBB]);
    assert_eq!(T::decode(&longer).map(|(_, read)| read), Ok(bytes.len()));
}

#[test]
fn integers_are_little_endian() {
    round_trip(0x12u8, &[0x12]);
    round_trip(0x1234u16, &[0x34, 0x12]);
    round_trip(0x12345678u32, &[0x78, 0x56, 0x34, 0x12]);
    round_trip(u32::MAX, &[0xFF; 4]);
    round_trip(0u16, &[0, 0]);
}

#[test]
fn encode_appends_to_the_buffer() {
    let mut buffer = vec![9u8];
    7u8.encode(&mut buffer);
    0x0102u16.encode(&mut buffer);
    (1u8, 2u32).encode(&mut buffer);
    assert_eq!(buffer, vec![9, 7, 2, 1, 1, 2, 0, 0, 0]);
}

#[test]
fn pairs_are_read_in_declared_order() {
    round_trip((0x0102u16, 0x03u8), &[2, 1, 3]);
    round_trip(((1u8, 2u8), 0x0403u16), &[1, 2, 3, 4]);
}

#[test]
fn level_up_mastery_round_trip() {
    round_trip(LevelUpMastery { mastery: 257, amount: 3 }, &[1, 1, 0, 0, 3]);
}

#[test]
fn level_up_mastery_error_has_two_byte_tags() {
    round_trip(LevelUpMasteryError::InsufficientSP, &[0x02, 0x38]);
    round_trip(LevelUpMasteryError::MasteryMaxLevel, &[0x04, 0x38]);
    round_trip(LevelUpMasteryError::ReachedTotalLimit, &[0x05, 0x38]);
    assert_eq!(
        from_bytes::<LevelUpMasteryError>(&[0x03, 0x38]),
        Err(DecodeError::UnknownDiscriminant(0x3803))
    );
}

#[test]
fn level_up_mastery_response_round_trip() {
    round_trip(
        LevelUpMasteryResponse::Success { mastery: 0x01020304, new_level: 9 },
        &[1, 4, 3, 2, 1, 9],
    );
    round_trip(
        LevelUpMasteryResponse::Error(LevelUpMasteryError::MasteryMaxLevel),
        &[2, 0x04, 0x38],
    );
    assert_eq!(
        from_bytes::<LevelUpMasteryResponse>(&[3, 0, 0, 0, 0, 0]),
        Err(DecodeError::UnknownDiscriminant(3))
    );
    assert_eq!(
        from_bytes::<LevelUpMasteryResponse>(&[2, 0xFF, 0xFF]),
        Err(DecodeError::UnknownDiscriminant(0xFFFF))
    );
}

#[test]
fn learn_skill_round_trip() {
    round_trip(LearnSkill(70000), &[0x70, 0x11, 0x01, 0x00]);
    round_trip(LearnSkillResponse::Success(5), &[1, 5, 0, 0, 0]);
    round_trip(LearnSkillResponse::Error(LevelUpMasteryError::InsufficientSP), &[2, 0x02, 0x38]);
    assert_eq!(from_bytes::<LearnSkillResponse>(&[0]), Err(DecodeError::UnknownDiscriminant(0)));
    assert_eq!(from_bytes::<LearnSkillResponse>(&[]), Err(DecodeError::UnexpectedEndOfInput));
}

#[test]
fn wide_integers_are_little_endian() {
    round_trip(0x0102030405060708u64, &[8, 7, 6, 5, 4, 3, 2, 1]);
    round_trip(u64::MAX, &[0xFF; 8]);
    round_trip(1u64 << 32, &[0, 0, 0, 0, 1, 0, 0, 0]);
}

#[test]
fn optional_values_start_with_a_marker() {
    round_trip(None::<u16>, &[0]);
    round_trip(Some(0x0102u16), &[1, 2, 1]);
    round_trip(Some(LearnSkill(1)), &[1, 1, 0, 0, 0]);
    round_trip(Some(None::<u8>), &[1, 0]);
    assert_eq!(from_bytes::<Option<u8>>(&[2, 9]), Err(DecodeError::UnknownDiscriminant(2)));
}

#[test]
fn sequences_start_with_their_length() {
    round_trip(Vec::<u8>::new(), &[0]);
    round_trip(vec![7u8, 8, 9], &[3, 7, 8, 9]);
    round_trip(vec![0x0102u16, 0x0304], &[2, 2, 1, 4, 3]);
    round_trip(
        vec![
            LearnSkillResponse::Success(1),
            LearnSkillResponse::Error(LevelUpMasteryError::ReachedTotalLimit),
        ],
        &[2, 1, 1, 0, 0, 0, 2, 0x05, 0x38],
    );
    round_trip(vec![vec![1u8], vec![], vec![2, 3]], &[3, 1, 1, 0, 2, 2, 3]);
    round_trip(vec![5u8; 255], &[&[255u8][..], &[5u8; 255][..]].concat());
}

#[test]
fn a_bad_item_fails_the_whole_sequence() {
    assert_eq!(
        from_bytes::<Vec<LevelUpMasteryError>>(&[2, 0x02, 0x38, 0x09, 0x38]),
        Err(DecodeError::UnknownDiscriminant(0x3809))
    );
    assert_eq!(
        from_bytes::<Vec<Option<u8>>>(&[3, 0, 7, 0]),
        Err(DecodeError::UnknownDiscriminant(7))
    );
}
