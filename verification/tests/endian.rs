//! Tests for the endianness capabilities themselves: decoding through the
//! run-time `Endianness` value, order algebra and the native-order query.

use byteordered::{ByteReader, Endian, Endianness, LittleEndian, StaticNative};

fn test_bytes() -> Vec<u8> {
    vec![0x12, 0x34, 0x56, 0x78, 0x21, 0x43, 0x65, 0x87]
}

#[test]
fn base_test_read_u64() {
    let mut data = ByteReader::new(test_bytes());
    let e = Endianness::Little;
    let words = [e.read_u64(&mut data).unwrap()];
    assert_eq!(words, [0x87654321_78563412u64]);

    let mut data = ByteReader::new(test_bytes());
    let e = Endianness::Big;
    let words = [e.read_u64(&mut data).unwrap()];
    assert_eq!(words, [0x12345678_21436587u64]);
}

#[test]
fn test_read_u32() {
    let mut data = ByteReader::new(test_bytes());
    let e = Endianness::Little;
    let words = [
        e.read_u32(&mut data).unwrap(),
        e.read_u32(&mut data).unwrap(),
    ];
    assert_eq!(words, [0x7856_3412u32, 0x8765_4321u32]);

    let mut data = ByteReader::new(test_bytes());
    let e = Endianness::Big;
    let words = [
        e.read_u32(&mut data).unwrap(),
        e.read_u32(&mut data).unwrap(),
    ];
    assert_eq!(words, [0x1234_5678u32, 0x2143_6587u32]);
}

#[test]
fn test_read_u16() {
    let mut data = ByteReader::new(test_bytes());
    let e = Endianness::Little;
    let words = [
        e.read_u16(&mut data).unwrap(),
        e.read_u16(&mut data).unwrap(),
        e.read_u16(&mut data).unwrap(),
        e.read_u16(&mut data).unwrap(),
    ];
    assert_eq!(words, [0x3412u16, 0x7856, 0x4321, 0x8765]);

    let mut data = ByteReader::new(test_bytes());
    let e = Endianness::Big;
    let words = [
        e.read_u16(&mut data).unwrap(),
        e.read_u16(&mut data).unwrap(),
        e.read_u16(&mut data).unwrap(),
        e.read_u16(&mut data).unwrap(),
    ];
    assert_eq!(words, [0x1234u16, 0x5678, 0x2143, 0x6587]);
}

#[test]
fn test_read_u16_into() {
    let e = Endianness::Little;
    let mut data = ByteReader::new(test_bytes());
    let mut words = vec![0u16; 4];
    e.read_u16_into(&mut data, &mut words).unwrap();
    assert_eq!(words, vec![0x3412u16, 0x7856, 0x4321, 0x8765]);

    let e = Endianness::Big;
    let mut data = ByteReader::new(test_bytes());
    let mut words = vec![0u16; 4];
    e.read_u16_into(&mut data, &mut words).unwrap();
    assert_eq!(words, vec![0x1234u16, 0x5678, 0x2143, 0x6587]);
}

#[test]
fn base_test_read_u32_into() {
    let e = Endianness::Little;
    let mut data = ByteReader::new(test_bytes());
    let mut words = vec![0u32; 2];
    e.read_u32_into(&mut data, &mut words).unwrap();
    assert_eq!(words, vec![0x7856_3412u32, 0x8765_4321]);

    let e = Endianness::Big;
    let mut data = ByteReader::new(test_bytes());
    let mut words = vec![0u32; 2];
    e.read_u32_into(&mut data, &mut words).unwrap();
    assert_eq!(words, vec![0x1234_5678u32, 0x2143_6587]);
}

#[test]
fn test_native_is_le() {
    if u16::from_ne_bytes([1, 0]) == 1 {
        assert_eq!(Endianness::native(), Endianness::Little);
    } else {
        assert_eq!(Endianness::native(), Endianness::Big);
    }
}

#[test]
fn test_le_iff_reads() {
    let data = vec![4u8, 1];
    let e = Endianness::le_iff(2 + 2 == 4);
    assert_eq!(e.read_u16(&mut ByteReader::new(data.clone())).unwrap(), 260);

    let e = Endianness::le_iff(2 + 2 >= 5);
    assert_eq!(e.read_u16(&mut ByteReader::new(data)).unwrap(), 1025);
}

#[test]
fn test_be_iff() {
    assert_eq!(Endianness::be_iff(2 + 2 == 4), Endianness::Big);
    assert_eq!(Endianness::be_iff(2 + 2 >= 5), Endianness::Little);
}

#[test]
fn test_order_constants() {
    assert_eq!(byteordered::LE, Endianness::Little);
    assert_eq!(byteordered::BE, Endianness::Big);
}

#[test]
fn test_to_opposite() {
    assert_eq!(Endianness::Little.to_opposite(), Endianness::Big);
    assert_eq!(Endianness::Big.to_opposite(), Endianness::Little);
}

#[test]
fn test_opposite_involution_behaviour() {
    // Reading through a capability flipped twice gives the same value as
    // reading through the capability itself, for both starting orders.
    for e in [Endianness::Little, Endianness::Big] {
        let twice = e.into_opposite().into_opposite();
        assert_eq!(twice, e);
        let v1 = e.read_u32(&mut ByteReader::new(test_bytes())).unwrap();
        let v2 = twice.read_u32(&mut ByteReader::new(test_bytes())).unwrap();
        assert_eq!(v1, v2);
    }
}

#[test]
fn test_is_native_exactly_one() {
    let native = Endianness::native();
    assert!(native.is_native());
    assert!(!native.to_opposite().is_native());
    // The static markers agree with the run-time query.
    if native == Endianness::Little {
        assert!(<LittleEndian as StaticNative>::is_native());
    } else {
        assert!(!<LittleEndian as StaticNative>::is_native());
    }
}

#[test]
fn test_signed_conversions() {
    assert_eq!(byteordered::u16_to_i16(0xFFFF), -1);
    assert_eq!(byteordered::u16_to_i16(0x8000), i16::MIN);
    assert_eq!(byteordered::u16_to_i16(0x7FFF), i16::MAX);
    assert_eq!(byteordered::i16_to_u16(-1), 0xFFFF);
    assert_eq!(byteordered::i16_to_u16(i16::MIN), 0x8000);
    assert_eq!(byteordered::i8_to_u8(-4), 0xFC);
    assert_eq!(byteordered::u8_to_i8(0xFC), -4);
    assert_eq!(byteordered::u8_to_i8(0x7C), 124);
    assert_eq!(byteordered::i128_to_u128(-1), u128::MAX);
    assert_eq!(byteordered::u128_to_i128(u128::MAX), -1);
    assert_eq!(byteordered::i64_to_u64(i64::MIN), 0x8000_0000_0000_0000);
    assert_eq!(byteordered::u64_to_i64(0xFFFF_FFFF_FFFF_FFFF), -1);
    assert_eq!(byteordered::i32_to_u32(-2), 0xFFFF_FFFE);
    assert_eq!(byteordered::u32_to_i32(0xFFFF_FFFE), -2);
}

#[test]
fn test_short_read_error() {
    let e = Endianness::Little;
    let r = e.read_u32(&mut ByteReader::new(vec![1, 2]));
    assert!(matches!(r, Err(byteordered::IoError::ShortRead)));
    assert_ne!(byteordered::IoError::Io, byteordered::IoError::ShortRead);
}
