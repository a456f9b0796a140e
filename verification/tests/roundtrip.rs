//! Round-trip tests: every supported width, both orders, boundary values.
//! Writing a value and reading the written bytes back yields the value, and
//! non-palindromic byte strings decode differently under the two orders.

use byteordered::{ByteOrdered, ByteReader, ByteWriter, Endianness};

fn orders() -> [Endianness; 2] {
    [Endianness::Little, Endianness::Big]
}

#[test]
fn test_round_trip_u8_i8() {
    for e in orders() {
        for v in [0u8, 1, 0x7F, 0x80, 0xFF] {
            let mut w = ByteOrdered::runtime(ByteWriter::new(), e);
            w.write_u8(v).unwrap();
            let sink = w.into_inner().into_vec();
            let mut r = ByteOrdered::runtime(ByteReader::new(sink), e);
            assert_eq!(r.read_u8().unwrap(), v);
        }
        for v in [0i8, 1, -1, i8::MIN, i8::MAX] {
            let mut w = ByteOrdered::runtime(ByteWriter::new(), e);
            w.write_i8(v).unwrap();
            let sink = w.into_inner().into_vec();
            let mut r = ByteOrdered::runtime(ByteReader::new(sink), e);
            assert_eq!(r.read_i8().unwrap(), v);
        }
    }
}

#[test]
fn test_round_trip_16() {
    for e in orders() {
        for v in [0u16, 1, 0x1234, u16::MAX] {
            let mut w = ByteOrdered::runtime(ByteWriter::new(), e);
            w.write_u16(v).unwrap();
            let sink = w.into_inner().into_vec();
            assert_eq!(sink.len(), 2);
            let mut r = ByteOrdered::runtime(ByteReader::new(sink), e);
            assert_eq!(r.read_u16().unwrap(), v);
        }
        for v in [0i16, 1, -1, i16::MIN, i16::MAX] {
            let mut w = ByteOrdered::runtime(ByteWriter::new(), e);
            w.write_i16(v).unwrap();
            let sink = w.into_inner().into_vec();
            let mut r = ByteOrdered::runtime(ByteReader::new(sink), e);
            assert_eq!(r.read_i16().unwrap(), v);
        }
    }
}

#[test]
fn test_round_trip_32() {
    for e in orders() {
        for v in [0u32, 1, 0x1234_5678, u32::MAX] {
            let mut w = ByteOrdered::runtime(ByteWriter::new(), e);
            w.write_u32(v).unwrap();
            let sink = w.into_inner().into_vec();
            assert_eq!(sink.len(), 4);
            let mut r = ByteOrdered::runtime(ByteReader::new(sink), e);
            assert_eq!(r.read_u32().unwrap(), v);
        }
        for v in [0i32, 1, -1, i32::MIN, i32::MAX] {
            let mut w = ByteOrdered::runtime(ByteWriter::new(), e);
            w.write_i32(v).unwrap();
            let sink = w.into_inner().into_vec();
            let mut r = ByteOrdered::runtime(ByteReader::new(sink), e);
            assert_eq!(r.read_i32().unwrap(), v);
        }
    }
}

#[test]
fn test_round_trip_64() {
    for e in orders() {
        for v in [0u64, 1, 0x0123_4567_89AB_CDEF, u64::MAX] {
            let mut w = ByteOrdered::runtime(ByteWriter::new(), e);
            w.write_u64(v).unwrap();
            let sink = w.into_inner().into_vec();
            assert_eq!(sink.len(), 8);
            let mut r = ByteOrdered::runtime(ByteReader::new(sink), e);
            assert_eq!(r.read_u64().unwrap(), v);
        }
        for v in [0i64, 1, -1, i64::MIN, i64::MAX] {
            let mut w = ByteOrdered::runtime(ByteWriter::new(), e);
            w.write_i64(v).unwrap();
            let sink = w.into_inner().into_vec();
            let mut r = ByteOrdered::runtime(ByteReader::new(sink), e);
            assert_eq!(r.read_i64().unwrap(), v);
        }
    }
}

#[test]
fn test_round_trip_128() {
    for e in orders() {
        for v in [0u128, 1, 0x0123_4567_89AB_CDEF_1122_3344_5566_7788, u128::MAX] {
            let mut w = ByteOrdered::runtime(ByteWriter::new(), e);
            w.write_u128(v).unwrap();
            let sink = w.into_inner().into_vec();
            assert_eq!(sink.len(), 16);
            let mut r = ByteOrdered::runtime(ByteReader::new(sink), e);
            assert_eq!(r.read_u128().unwrap(), v);
        }
        for v in [0i128, 1, -1, i128::MIN, i128::MAX] {
            let mut w = ByteOrdered::runtime(ByteWriter::new(), e);
            w.write_i128(v).unwrap();
            let sink = w.into_inner().into_vec();
            let mut r = ByteOrdered::runtime(ByteReader::new(sink), e);
            assert_eq!(r.read_i128().unwrap(), v);
        }
    }
}

#[test]
fn test_order_sensitivity() {
    // A value whose byte representation is not a palindrome decodes
    // differently under the two orders, in the byte-swapped way.
    let bytes = vec![0x12, 0x34, 0x56, 0x78];
    let mut le = ByteOrdered::le(ByteReader::new(bytes.clone()));
    let mut be = ByteOrdered::be(ByteReader::new(bytes.clone()));
    let vl = le.read_u32().unwrap();
    let vb = be.read_u32().unwrap();
    assert_ne!(vl, vb);
    assert_eq!(vl, vb.swap_bytes());

    let mut rev: Vec<u8> = bytes;
    rev.reverse();
    let mut le_rev = ByteOrdered::le(ByteReader::new(rev));
    assert_eq!(le_rev.read_u32().unwrap(), vb);

    // A palindromic representation decodes the same either way.
    let mut le = ByteOrdered::le(ByteReader::new(vec![0xAB, 0xAB]));
    let mut be = ByteOrdered::be(ByteReader::new(vec![0xAB, 0xAB]));
    assert_eq!(le.read_u16().unwrap(), be.read_u16().unwrap());
}

#[test]
fn test_concrete_codec_values() {
    // The public codec functions on concrete inputs, exact expected values.
    assert_eq!(byteordered::decode_u16(Endianness::Little, &[4, 1]), 260);
    assert_eq!(byteordered::decode_u16(Endianness::Big, &[4, 1]), 1025);
    assert_eq!(
        byteordered::decode_u32(Endianness::Little, &[0x12, 0x34, 0x56, 0x78]),
        0x7856_3412,
    );
    assert_eq!(
        byteordered::decode_u32(Endianness::Big, &[0x12, 0x34, 0x56, 0x78]),
        0x1234_5678,
    );
    assert_eq!(
        byteordered::decode_u64(
            Endianness::Little,
            &[0x12, 0x34, 0x56, 0x78, 0x21, 0x43, 0x65, 0x87],
        ),
        0x87654321_78563412,
    );
    assert_eq!(
        byteordered::decode_u128(Endianness::Big, &[0u8; 16]),
        0,
    );
    assert_eq!(
        byteordered::encode_u16(Endianness::Big, 0x00C1),
        vec![0x00, 0xC1],
    );
    assert_eq!(
        byteordered::encode_u16(Endianness::Little, 0x00C1),
        vec![0xC1, 0x00],
    );
    assert_eq!(
        byteordered::encode_u32(Endianness::Big, 0x0102_0304),
        vec![1, 2, 3, 4],
    );
    assert_eq!(
        byteordered::encode_u64(Endianness::Little, 0x0102_0304_0506_0708),
        vec![8, 7, 6, 5, 4, 3, 2, 1],
    );
    assert_eq!(
        byteordered::encode_u128(Endianness::Big, 1),
        vec![0, 0, 0, 0, 0, 0, 0, 0, 0, 0, 0, 0, 0, 0, 0, 1],
    );
}

#[test]
fn test_float_bits_round_trip() {
    // Floating point stays outside the verified library; its bits travel
    // through the integer paths. The patterns must survive exactly,
    // including signed zeros, infinities and NaN payloads.
    for e in orders() {
        for v in [
            0.0f32,
            -0.0,
            1.5,
            f32::MIN,
            f32::MAX,
            f32::INFINITY,
            f32::NEG_INFINITY,
            f32::NAN,
            f32::from_bits(0x7FC0_0001),
        ] {
            let mut w = ByteOrdered::runtime(ByteWriter::new(), e);
            w.write_u32(v.to_bits()).unwrap();
            let sink = w.into_inner().into_vec();
            let mut r = ByteOrdered::runtime(ByteReader::new(sink), e);
            let back = f32::from_bits(r.read_u32().unwrap());
            assert_eq!(back.to_bits(), v.to_bits());
        }
        for v in [
            0.0f64,
            -0.0,
            1.5,
            f64::MIN,
            f64::MAX,
            f64::INFINITY,
            f64::NEG_INFINITY,
            f64::NAN,
            f64::from_bits(0x7FF8_0000_0000_0001),
        ] {
            let mut w = ByteOrdered::runtime(ByteWriter::new(), e);
            w.write_u64(v.to_bits()).unwrap();
            let sink = w.into_inner().into_vec();
            let mut r = ByteOrdered::runtime(ByteReader::new(sink), e);
            let back = f64::from_bits(r.read_u64().unwrap());
            assert_eq!(back.to_bits(), v.to_bits());
        }
    }
}
