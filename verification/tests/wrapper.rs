//! Tests for the `ByteOrdered` wrapper: ordered reads and writes through an
//! endpoint, and the operations on the held capability.

use byteordered::{ByteOrdered, ByteReader, ByteWriter, Endianness, IoError};

fn test_bytes() -> Vec<u8> {
    vec![0x12, 0x34, 0x56, 0x78, 0x21, 0x43, 0x65, 0x87]
}

#[test]
fn wrap_test_read_u64() {
    let mut reader = ByteOrdered::le(ByteReader::new(test_bytes()));
    let words = [reader.read_u64().unwrap()];
    assert_eq!(words, [0x87654321_78563412u64]);

    let mut reader = ByteOrdered::be(ByteReader::new(test_bytes()));
    let words = [reader.read_u64().unwrap()];
    assert_eq!(words, [0x12345678_21436587u64]);

    let mut reader = ByteOrdered::runtime(ByteReader::new(test_bytes()), Endianness::Little);
    let words = [reader.read_u64().unwrap()];
    assert_eq!(words, [0x87654321_78563412u64]);

    let mut reader = ByteOrdered::runtime(ByteReader::new(test_bytes()), Endianness::Big);
    let words = [reader.read_u64().unwrap()];
    assert_eq!(words, [0x12345678_21436587u64]);
}

#[test]
fn test_write_u64() {
    let mut writer = ByteOrdered::le(ByteWriter::new());
    for v in [0x87654321_78563412u64] {
        writer.write_u64(v).unwrap();
    }
    assert_eq!(writer.into_inner().into_vec(), test_bytes());

    let mut writer = ByteOrdered::be(ByteWriter::new());
    for v in [0x12345678_21436587u64] {
        writer.write_u64(v).unwrap();
    }
    assert_eq!(writer.into_inner().into_vec(), test_bytes());

    let mut writer = ByteOrdered::runtime(ByteWriter::new(), Endianness::Little);
    for v in [0x87654321_78563412u64] {
        writer.write_u64(v).unwrap();
    }
    assert_eq!(writer.into_inner().into_vec(), test_bytes());

    let mut writer = ByteOrdered::runtime(ByteWriter::new(), Endianness::Big);
    for v in [0x12345678_21436587u64] {
        writer.write_u64(v).unwrap();
    }
    assert_eq!(writer.into_inner().into_vec(), test_bytes());
}

#[test]
fn wrap_test_read_u32_into() {
    let mut reader = ByteOrdered::le(ByteReader::new(test_bytes()));
    let mut words = vec![0u32; 2];
    reader.read_u32_into(&mut words).unwrap();
    assert_eq!(words, vec![0x7856_3412u32, 0x8765_4321]);

    let mut reader = ByteOrdered::be(ByteReader::new(test_bytes()));
    let mut words = vec![0u32; 2];
    reader.read_u32_into(&mut words).unwrap();
    assert_eq!(words, vec![0x1234_5678u32, 0x2143_6587]);

    let mut reader = ByteOrdered::runtime(ByteReader::new(test_bytes()), Endianness::Little);
    let mut words = vec![0u32; 2];
    reader.read_u32_into(&mut words).unwrap();
    assert_eq!(words, vec![0x7856_3412u32, 0x8765_4321]);

    let mut reader = ByteOrdered::runtime(ByteReader::new(test_bytes()), Endianness::Big);
    let mut words = vec![0u32; 2];
    reader.read_u32_into(&mut words).unwrap();
    assert_eq!(words, vec![0x1234_5678u32, 0x2143_6587]);
}

#[test]
fn test_read_u32_and_set_endianness() {
    let mut reader = ByteOrdered::runtime(ByteReader::new(test_bytes()), Endianness::Little);
    let v1 = reader.read_u32().unwrap();
    assert_eq!(v1, 0x7856_3412);

    // change to big endian
    reader.set_endianness(Endianness::Big);
    let v2 = reader.read_u32().unwrap();
    assert_eq!(v2, 0x2143_6587);
}

#[test]
fn test_read_i16_big_endian() {
    // bytes 00 C1 FF 7C read as two signed 16 bit big-endian integers
    let mut rdr = ByteOrdered::be(ByteReader::new(vec![0x00, 0xC1, 0xFF, 0x7C]));
    assert_eq!(rdr.read_i16().unwrap(), 193);
    assert_eq!(rdr.read_i16().unwrap(), -132);
}

#[test]
fn test_write_i16_big_endian() {
    // writing 193 then -132 as signed 16 bit big-endian values
    let mut wtr = ByteOrdered::be(ByteWriter::new());
    wtr.write_i16(193).unwrap();
    wtr.write_i16(-132).unwrap();
    assert_eq!(wtr.into_inner().into_vec(), vec![0x00, 0xC1, 0xFF, 0x7C]);
}

#[test]
fn test_read_i16_into_big_endian() {
    let mut rdr = ByteOrdered::be(ByteReader::new(vec![0x00, 0xC1, 0xFF, 0x7C]));
    let mut out = vec![0i16; 2];
    rdr.read_i16_into(&mut out).unwrap();
    assert_eq!(out, vec![193, -132]);
}

#[test]
fn test_single_byte_invariance() {
    // 8 bit reads and writes are identical regardless of the held order.
    let mut le = ByteOrdered::le(ByteReader::new(vec![2, 0xF5]));
    let mut be = ByteOrdered::be(ByteReader::new(vec![2, 0xF5]));
    assert_eq!(le.read_u8().unwrap(), be.read_u8().unwrap());
    assert_eq!(le.read_i8().unwrap(), be.read_i8().unwrap());

    let mut le = ByteOrdered::le(ByteWriter::new());
    let mut be = ByteOrdered::be(ByteWriter::new());
    le.write_u8(0xAB).unwrap();
    be.write_u8(0xAB).unwrap();
    le.write_i8(-3).unwrap();
    be.write_i8(-3).unwrap();
    assert_eq!(
        le.into_inner().into_vec(),
        be.into_inner().into_vec(),
    );
}

#[test]
fn test_wrapper_opposite_involution() {
    let reader = ByteOrdered::runtime(ByteReader::new(test_bytes()), Endianness::Little);
    let mut twice = reader.into_opposite().into_opposite();
    assert_eq!(twice.endianness(), Endianness::Little);
    assert_eq!(twice.read_u64().unwrap(), 0x87654321_78563412);

    let le = ByteOrdered::le(ByteReader::new(test_bytes()));
    let mut le_again = le.into_opposite().into_opposite();
    assert_eq!(le_again.read_u64().unwrap(), 0x87654321_78563412);
}

#[test]
fn test_wrapper_structure() {
    let reader = ByteOrdered::new(ByteReader::new(vec![1, 2]), Endianness::Big);
    let (inner, e) = reader.into_parts();
    assert_eq!(e, Endianness::Big);
    assert_eq!(inner.remaining_len(), 2);

    let mut w = ByteOrdered::le(ByteWriter::new());
    assert_eq!(w.inner_mut().written_len(), 0);
    w.write_u16(513).unwrap();
    assert_eq!(w.inner_mut().written_len(), 2);
    let w = w.into_be();
    let mut w = w.into_endianness(Endianness::le_iff(true));
    w.write_u16(513).unwrap();
    // the first write was little endian, the second one again little endian
    assert_eq!(w.into_inner().into_vec(), vec![1, 2, 1, 2]);

    let r = ByteOrdered::network(ByteReader::new(vec![]));
    assert!(!r.is_native() || Endianness::native() == Endianness::Big);
    let mapped = ByteOrdered::le(ByteReader::new(vec![7])).map(|x| x.remaining_len());
    assert_eq!(mapped.into_inner(), 1);
}

#[test]
fn test_wrapper_short_reads() {
    let mut rdr = ByteOrdered::le(ByteReader::new(vec![1, 2, 3]));
    assert!(matches!(rdr.read_u32(), Err(IoError::ShortRead)));
    let mut rdr = ByteOrdered::be(ByteReader::new(vec![1]));
    let mut out = vec![0u16; 1];
    assert!(matches!(rdr.read_u16_into(&mut out), Err(IoError::ShortRead)));
    let mut rdr = ByteOrdered::le(ByteReader::new(vec![]));
    assert!(matches!(rdr.read_u8(), Err(IoError::ShortRead)));
    assert!(matches!(rdr.read_i128(), Err(IoError::ShortRead)));
}

#[test]
fn test_native_wrapper() {
    // The `native` constructor resolves to the little-endian marker.
    let mut rdr = ByteOrdered::native(ByteReader::new(vec![4, 1]));
    assert_eq!(rdr.read_u16().unwrap(), 260);
    let rdr = ByteOrdered::le(ByteReader::new(vec![])).into_native();
    assert_eq!(
        rdr.is_native(),
        Endianness::native() == Endianness::Little,
    );
}
