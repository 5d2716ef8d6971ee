use rshark::{signed, unsigned, DissectError, Endianness};

#[test]
fn unsigned_big_endian_of_every_width() {
    assert_eq!(unsigned(&[0x12], Endianness::BigEndian), Ok(0x12));
    assert_eq!(unsigned(&[0x12, 0x34], Endianness::BigEndian), Ok(0x1234));
    assert_eq!(unsigned(&[0x12, 0x34, 0x56, 0x78], Endianness::BigEndian), Ok(0x1234_5678));
    assert_eq!(
        unsigned(&[0x12, 0x34, 0x56, 0x78, 0x9a, 0xbc, 0xde, 0xf0], Endianness::BigEndian),
        Ok(0x1234_5678_9abc_def0)
    );
}

#[test]
fn unsigned_little_endian_of_every_width() {
    assert_eq!(unsigned(&[0x12], Endianness::LittleEndian), Ok(0x12));
    assert_eq!(unsigned(&[0x34, 0x12], Endianness::LittleEndian), Ok(0x1234));
    assert_eq!(unsigned(&[0x78, 0x56, 0x34, 0x12], Endianness::LittleEndian), Ok(0x1234_5678));
    assert_eq!(
        unsigned(&[0xf0, 0xde, 0xbc, 0x9a, 0x78, 0x56, 0x34, 0x12], Endianness::LittleEndian),
        Ok(0x1234_5678_9abc_def0)
    );
}

#[test]
fn unsigned_is_extended_by_zeros() {
    assert_eq!(unsigned(&[0xff], Endianness::BigEndian), Ok(255));
    assert_eq!(unsigned(&[0xff, 0xff], Endianness::LittleEndian), Ok(65535));
    assert_eq!(unsigned(&[0xff; 4], Endianness::BigEndian), Ok(4_294_967_295));
    assert_eq!(unsigned(&[0xff; 8], Endianness::LittleEndian), Ok(u64::MAX));
}

#[test]
fn signed_is_extended_by_its_sign() {
    assert_eq!(signed(&[0xff], Endianness::BigEndian), Ok(-1));
    assert_eq!(signed(&[0x80], Endianness::LittleEndian), Ok(-128));
    assert_eq!(signed(&[0x7f], Endianness::BigEndian), Ok(127));
    assert_eq!(signed(&[0xff, 0xfe], Endianness::BigEndian), Ok(-2));
    assert_eq!(signed(&[0xfe, 0xff], Endianness::LittleEndian), Ok(-2));
    assert_eq!(signed(&[0xec, 0x78], Endianness::BigEndian), Ok(-5000));
    assert_eq!(signed(&[0x80, 0, 0, 0], Endianness::BigEndian), Ok(-2_147_483_648));
    assert_eq!(signed(&[0xff, 0xff, 0xff, 0x7f], Endianness::LittleEndian), Ok(2_147_483_647));
    assert_eq!(signed(&[0x80, 0, 0, 0, 0, 0, 0, 0], Endianness::BigEndian), Ok(i64::MIN));
    assert_eq!(signed(&[0xff; 8], Endianness::LittleEndian), Ok(-1));
}

#[test]
fn signed_of_small_values_is_the_value() {
    assert_eq!(signed(&[0x01, 0x02], Endianness::BigEndian), Ok(258));
    assert_eq!(signed(&[0x01, 0x02], Endianness::LittleEndian), Ok(513));
    assert_eq!(signed(&[0, 0, 0, 0, 0, 0, 1, 0], Endianness::BigEndian), Ok(256));
}

#[test]
fn other_sizes_are_invalid_data() {
    for size in [0usize, 3, 5, 6, 7, 9, 16] {
        let buffer = vec![0xabu8; size];
        let expected = DissectError::InvalidData(format!("Invalid integer size: {} B", size));
        assert_eq!(unsigned(&buffer, Endianness::BigEndian), Err(DissectError::InvalidData(format!("Invalid integer size: {} B", size))));
        assert_eq!(unsigned(&buffer, Endianness::LittleEndian).unwrap_err(), expected);
        assert_eq!(signed(&buffer, Endianness::BigEndian).unwrap_err(), expected);
        assert_eq!(signed(&buffer, Endianness::LittleEndian).unwrap_err(), expected);
    }
}

#[test]
fn invalid_size_names_the_size() {
    match unsigned(&[1, 2, 3], Endianness::BigEndian) {
        Err(DissectError::InvalidData(message)) => assert_eq!(message, "Invalid integer size: 3 B"),
        _ => panic!("wrong outcome"),
    }
}
