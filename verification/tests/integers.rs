use move_binary_format::cursor::VersionedCursor;
use move_binary_format::errors::{Message, StatusCode};
use move_binary_format::primitives::{
    read_u128_internal, read_u16_internal, read_u256_internal, read_u32_internal,
    read_u64_internal, read_uleb_internal,
};

fn uleb(bytes: &[u8]) -> Option<u64> {
    VersionedCursor::new_for_test(6, bytes).read_uleb128_as_u64()
}

#[test]
fn uleb128_values() {
    assert_eq!(uleb(&[0x00]), Some(0));
    assert_eq!(uleb(&[0x7F]), Some(127));
    assert_eq!(uleb(&[0x80, 0x01]), Some(128));
    assert_eq!(uleb(&[0xE5, 0x8E, 0x26]), Some(624485));
    assert_eq!(uleb(&[0xFF, 0xFF, 0xFF, 0xFF, 0x0F]), Some(u32::MAX as u64));
    assert_eq!(
        uleb(&[0xFF, 0xFF, 0xFF, 0xFF, 0xFF, 0xFF, 0xFF, 0xFF, 0xFF, 0x01]),
        Some(u64::MAX)
    );
    assert_eq!(
        uleb(&[0x80, 0x80, 0x80, 0x80, 0x80, 0x80, 0x80, 0x80, 0x80, 0x01]),
        Some(1 << 63)
    );
}

#[test]
fn uleb128_rejections() {
    // no byte, or no last byte
    assert_eq!(uleb(&[]), None);
    assert_eq!(uleb(&[0x80]), None);
    assert_eq!(uleb(&[0xFF, 0xFF]), None);
    // more than 64 bits
    assert_eq!(uleb(&[0xFF, 0xFF, 0xFF, 0xFF, 0xFF, 0xFF, 0xFF, 0xFF, 0xFF, 0x02]), None);
    assert_eq!(uleb(&[0x80, 0x80, 0x80, 0x80, 0x80, 0x80, 0x80, 0x80, 0x80, 0x7F]), None);
    // more than ten bytes
    assert_eq!(uleb(&[0x80, 0x80, 0x80, 0x80, 0x80, 0x80, 0x80, 0x80, 0x80, 0x81, 0x00]), None);
    // a last byte of zero behind others
    assert_eq!(uleb(&[0x80, 0x00]), None);
    assert_eq!(uleb(&[0xFF, 0x80, 0x00]), None);
}

#[test]
fn uleb128_leaves_the_reader_behind_the_integer() {
    let bytes = [0x80, 0x01, 0x05, 0x06];
    let mut cursor = VersionedCursor::new_for_test(6, &bytes);
    assert_eq!(cursor.read_uleb128_as_u64(), Some(128));
    assert_eq!(cursor.position(), 2);
    assert_eq!(cursor.read_u8(), Some(5));
    assert_eq!(cursor.read_exact(2), None);
    assert_eq!(cursor.position(), 3);
    assert_eq!(cursor.read_exact(1), Some(vec![6]));
    assert!(cursor.at_end());
    assert_eq!(cursor.read_u8(), None);
    assert_eq!(cursor.version(), 6);
}

#[test]
fn bounded_uleb128() {
    let bytes = [0x80, 0x01];
    assert_eq!(read_uleb_internal(&mut VersionedCursor::new_for_test(6, &bytes), 128), Ok(128));
    let error = read_uleb_internal(&mut VersionedCursor::new_for_test(6, &bytes), 127).unwrap_err();
    assert_eq!(error.major_status, StatusCode::Malformed);
    assert_eq!(error.message, Message::UlebGreaterThanMax);
    let error = read_uleb_internal(&mut VersionedCursor::new_for_test(6, &[0x80]), 127).unwrap_err();
    assert_eq!(error.major_status, StatusCode::Malformed);
    assert_eq!(error.message, Message::BadUleb);
}

#[test]
fn little_endian_integers() {
    let bytes: Vec<u8> = (1u8..=32).collect();
    assert_eq!(read_u16_internal(&mut VersionedCursor::new_for_test(6, &bytes)), Ok(0x0201));
    assert_eq!(read_u32_internal(&mut VersionedCursor::new_for_test(6, &bytes)), Ok(0x04030201));
    assert_eq!(
        read_u64_internal(&mut VersionedCursor::new_for_test(6, &bytes)),
        Ok(0x0807060504030201)
    );
    assert_eq!(
        read_u128_internal(&mut VersionedCursor::new_for_test(6, &bytes)),
        Ok(0x100F0E0D0C0B0A090807060504030201)
    );
    let wide = read_u256_internal(&mut VersionedCursor::new_for_test(6, &bytes)).unwrap();
    assert_eq!(wide.low, 0x100F0E0D0C0B0A090807060504030201);
    assert_eq!(wide.high, 0x201F1E1D1C1B1A191817161514131211);
    let all = [0xFFu8; 16];
    assert_eq!(read_u128_internal(&mut VersionedCursor::new_for_test(6, &all)), Ok(u128::MAX));
    assert_eq!(read_u16_internal(&mut VersionedCursor::new_for_test(6, &all)), Ok(u16::MAX));
}

#[test]
fn short_little_endian_integers() {
    let bytes = [1u8; 31];
    assert_eq!(
        read_u256_internal(&mut VersionedCursor::new_for_test(6, &bytes)).unwrap_err().major_status,
        StatusCode::BadU256
    );
    assert_eq!(
        read_u128_internal(&mut VersionedCursor::new_for_test(6, &bytes[..15]))
            .unwrap_err()
            .major_status,
        StatusCode::BadU128
    );
    assert_eq!(
        read_u64_internal(&mut VersionedCursor::new_for_test(6, &bytes[..7]))
            .unwrap_err()
            .major_status,
        StatusCode::BadU64
    );
    assert_eq!(
        read_u32_internal(&mut VersionedCursor::new_for_test(6, &bytes[..3]))
            .unwrap_err()
            .major_status,
        StatusCode::BadU32
    );
    assert_eq!(
        read_u16_internal(&mut VersionedCursor::new_for_test(6, &bytes[..1]))
            .unwrap_err()
            .major_status,
        StatusCode::BadU16
    );
}
