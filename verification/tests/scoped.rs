//! Tests for the scoped dispatch construct: a run-time order resolved once
//! for a whole block of operations.

use byteordered::{with_order, with_order2, ByteReader, ByteWriter, Endianness};

#[test]
fn test_macro_one_read() {
    let c = ByteReader::new(vec![1, 2, 1, 2]);
    let (c, v) = with_order(
        c,
        Endianness::le_iff(2 + 2 == 4),
        |mut data| {
            let v = data.read_u16().unwrap();
            assert_eq!(v, 513);
            (data.into_inner(), v)
        },
        |mut data| {
            let v = data.read_u16().unwrap();
            assert_eq!(v, 513);
            (data.into_inner(), v)
        },
    );
    assert_eq!(v, 513);

    let (_c, v) = with_order(
        c,
        Endianness::Big,
        |mut data| {
            let v = data.read_u16().unwrap();
            assert_eq!(v, 258);
            (data.into_inner(), v)
        },
        |mut data| {
            let v = data.read_u16().unwrap();
            assert_eq!(v, 258);
            (data.into_inner(), v)
        },
    );
    assert_eq!(v, 258);
}

#[test]
fn test_macro_one_read_2() {
    let v = with_order(
        ByteReader::new(vec![16, 1]),
        Endianness::Little,
        |mut data| data.read_u16().unwrap(),
        |mut data| data.read_u16().unwrap(),
    );
    assert_eq!(v, 272);

    let v = with_order(
        ByteReader::new(vec![16, 1]),
        Endianness::Little,
        |mut data| data.read_u16().unwrap(),
        |mut data| data.read_u16().unwrap(),
    );
    assert_eq!(v, 272);
}

#[test]
fn test_macro_multi_pipe() {
    let c = ByteReader::new(vec![1, 2, 3, 4]);
    let sink = ByteWriter::new();

    let (c, sink) = with_order2(
        c,
        sink,
        Endianness::le_iff(2 + 2 == 4),
        |mut input, mut output| {
            let v = input.read_u16().unwrap();
            output.write_u16(v + 10).unwrap();
            (input.into_inner(), output.into_inner())
        },
        |mut input, mut output| {
            let v = input.read_u16().unwrap();
            output.write_u16(v + 10).unwrap();
            (input.into_inner(), output.into_inner())
        },
    );

    let (_c, sink) = with_order2(
        c,
        sink,
        Endianness::Big,
        |mut input, mut output| {
            let v = input.read_u16().unwrap();
            output.write_u16(v + 100).unwrap();
            (input.into_inner(), output.into_inner())
        },
        |mut input, mut output| {
            let v = input.read_u16().unwrap();
            output.write_u16(v + 100).unwrap();
            (input.into_inner(), output.into_inner())
        },
    );

    assert_eq!(sink.into_vec(), vec![11, 2, 3, 104]);
}

#[test]
fn test_scoped_equals_runtime() {
    // Running a block through the scoped construct gives the same results as
    // running the same logical operations through the run-time dispatched
    // wrapper, for either order value.
    for e in [Endianness::Little, Endianness::Big] {
        let scoped = with_order(
            ByteReader::new(vec![0x12, 0x34, 0x56, 0x78]),
            e,
            |mut data| (data.read_u16().unwrap(), data.read_u16().unwrap()),
            |mut data| (data.read_u16().unwrap(), data.read_u16().unwrap()),
        );
        let mut rt = byteordered::ByteOrdered::runtime(
            ByteReader::new(vec![0x12, 0x34, 0x56, 0x78]),
            e,
        );
        let runtime = (rt.read_u16().unwrap(), rt.read_u16().unwrap());
        assert_eq!(scoped, runtime);

        let scoped = with_order(
            ByteWriter::new(),
            e,
            |mut out| {
                out.write_u32(0xF0FF_F0FF).unwrap();
                out.into_inner().into_vec()
            },
            |mut out| {
                out.write_u32(0xF0FF_F0FF).unwrap();
                out.into_inner().into_vec()
            },
        );
        let mut rt = byteordered::ByteOrdered::runtime(ByteWriter::new(), e);
        rt.write_u32(0xF0FF_F0FF).unwrap();
        assert_eq!(scoped, rt.into_inner().into_vec());
    }
}
