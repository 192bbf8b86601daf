use farm_staking::position::{
    decode_position, encode_position, Position, POSITION_FORMAT_VERSION,
};

fn sample() -> Position {
    Position {
        staked_amount: 0xDEAD_BEEF_0102_0304,
        reward_per_share_checkpoint: 0x0123_4567_89AB_CDEF_1122_3344_5566_7788,
        entering_epoch: 42,
    }
}

#[test]
fn codec_round_trips() {
    let p = sample();
    let bytes = encode_position(&p);
    assert_eq!(bytes.len(), 33);
    assert_eq!(decode_position(&bytes), Some(p));
}

#[test]
fn encoding_is_little_endian_with_version_byte() {
    let p = Position {
        staked_amount: 0x0102,
        reward_per_share_checkpoint: 3,
        entering_epoch: 0x0400,
    };
    let bytes = encode_position(&p);
    assert_eq!(bytes[0], POSITION_FORMAT_VERSION);
    assert_eq!(&bytes[1..9], &[0x02, 0x01, 0, 0, 0, 0, 0, 0]);
    assert_eq!(bytes[9], 3);
    assert_eq!(&bytes[25..33], &[0, 0x04, 0, 0, 0, 0, 0, 0]);
}

#[test]
fn decode_rejects_wrong_length() {
    let p = sample();
    let mut bytes = encode_position(&p);
    bytes.push(0);
    assert_eq!(decode_position(&bytes), None);
    let short: Vec<u8> = vec![POSITION_FORMAT_VERSION, 1, 2];
    assert_eq!(decode_position(&short), None);
}

#[test]
fn decode_rejects_deprecated_format_version() {
    let p = sample();
    let mut bytes = encode_position(&p);
    bytes[0] = POSITION_FORMAT_VERSION - 1;
    assert_eq!(decode_position(&bytes), None);
}

#[test]
fn zero_record_round_trips() {
    let p = Position {
        staked_amount: 0,
        reward_per_share_checkpoint: 0,
        entering_epoch: 0,
    };
    let bytes = encode_position(&p);
    assert_eq!(decode_position(&bytes), Some(p));
}

#[test]
fn extreme_record_round_trips() {
    let p = Position {
        staked_amount: u64::MAX,
        reward_per_share_checkpoint: u128::MAX,
        entering_epoch: u64::MAX,
    };
    let bytes = encode_position(&p);
    assert_eq!(decode_position(&bytes), Some(p));
}
