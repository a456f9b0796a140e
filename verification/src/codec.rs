//! The mathematical model of the fixed-width codecs, and the
//! `byteorder`-backed primitives that realize it.
//!
//! A sequence of bytes denotes a number in base 256; [`le_value`] reads the
//! least significant byte first, [`be_value`] reads it last. The spec
//! functions here pin down every encode and decode operation of the crate,
//! and the lemmas state the algebra the operations obey: encoding then
//! decoding is the identity, distinct byte strings denote distinct numbers,
//! and the two orders agree exactly on strings that read the same backwards.

use vstd::prelude::*;
use vstd::arithmetic::power2::*;
use vstd::arithmetic::div_mod::*;

verus! {

use crate::base::Endianness;

/// The number denoted by `b` in base 256, least significant byte first.
pub open spec fn le_value(b: Seq<u8>) -> nat
    decreases b.len(),
{
    if b.len() == 0 {
        0
    } else {
        b[0] as nat + 256 * le_value(b.skip(1))
    }
}

/// The number denoted by `b` in base 256, most significant byte first.
pub open spec fn be_value(b: Seq<u8>) -> nat {
    le_value(b.reverse())
}

/// The number denoted by `b` under the byte order `o`.
pub open spec fn ordered_value(o: Endianness, b: Seq<u8>) -> nat {
    match o {
        Endianness::Little => le_value(b),
        Endianness::Big => be_value(b),
    }
}

/// The `n`-byte representation of `v` in base 256, least significant byte
/// first.
pub open spec fn le_bytes_of(v: nat, n: nat) -> Seq<u8>
    decreases n,
{
    if n == 0 {
        Seq::empty()
    } else {
        seq![(v % 256) as u8] + le_bytes_of(v / 256, (n - 1) as nat)
    }
}

/// The `n`-byte representation of `v` in base 256, most significant byte
/// first.
pub open spec fn be_bytes_of(v: nat, n: nat) -> Seq<u8> {
    le_bytes_of(v, n).reverse()
}

/// The `n`-byte representation of `v` under the byte order `o`.
pub open spec fn ordered_bytes_of(o: Endianness, v: nat, n: nat) -> Seq<u8> {
    match o {
        Endianness::Little => le_bytes_of(v, n),
        Endianness::Big => be_bytes_of(v, n),
    }
}

/// The two's-complement reading of the `bits`-bit unsigned value `v`.
pub open spec fn as_signed(v: nat, bits: nat) -> int
    recommends
        1 <= bits,
        v < pow2(bits),
{
    if v < pow2((bits - 1) as nat) {
        v as int
    } else {
        v - pow2(bits)
    }
}

/// The `bits`-bit unsigned value whose two's-complement reading is `x`.
pub open spec fn as_unsigned(x: int, bits: nat) -> nat
    recommends
        1 <= bits,
        -pow2((bits - 1) as nat) <= x < pow2((bits - 1) as nat),
{
    if x >= 0 {
        x as nat
    } else {
        (x + pow2(bits)) as nat
    }
}

/// Relies on byteorder's `LittleEndian::read_u16`: it reads the two bytes of
/// `b` as an unsigned little-endian integer.
#[verifier::external_body]
pub(crate) fn le_read_u16(b: &[u8]) -> (r: u16)
    requires
        b@.len() == 2,
    ensures
        r as nat == le_value(b@),
{
    <byteorder::LittleEndian as byteorder::ByteOrder>::read_u16(b)
}

/// Relies on byteorder's `LittleEndian::read_u32`: it reads the four bytes of
/// `b` as an unsigned little-endian integer.
#[verifier::external_body]
pub(crate) fn le_read_u32(b: &[u8]) -> (r: u32)
    requires
        b@.len() == 4,
    ensures
        r as nat == le_value(b@),
{
    <byteorder::LittleEndian as byteorder::ByteOrder>::read_u32(b)
}

/// Relies on byteorder's `LittleEndian::read_u64`: it reads the eight bytes
/// of `b` as an unsigned little-endian integer.
#[verifier::external_body]
pub(crate) fn le_read_u64(b: &[u8]) -> (r: u64)
    requires
        b@.len() == 8,
    ensures
        r as nat == le_value(b@),
{
    <byteorder::LittleEndian as byteorder::ByteOrder>::read_u64(b)
}

/// Relies on byteorder's `LittleEndian::read_u128`: it reads the sixteen
/// bytes of `b` as an unsigned little-endian integer.
#[verifier::external_body]
pub(crate) fn le_read_u128(b: &[u8]) -> (r: u128)
    requires
        b@.len() == 16,
    ensures
        r as nat == le_value(b@),
{
    <byteorder::LittleEndian as byteorder::ByteOrder>::read_u128(b)
}

/// Relies on byteorder's `BigEndian::read_u16`: it reads the two bytes of
/// `b` as an unsigned big-endian integer.
#[verifier::external_body]
pub(crate) fn be_read_u16(b: &[u8]) -> (r: u16)
    requires
        b@.len() == 2,
    ensures
        r as nat == be_value(b@),
{
    <byteorder::BigEndian as byteorder::ByteOrder>::read_u16(b)
}

/// Relies on byteorder's `BigEndian::read_u32`: it reads the four bytes of
/// `b` as an unsigned big-endian integer.
#[verifier::external_body]
pub(crate) fn be_read_u32(b: &[u8]) -> (r: u32)
    requires
        b@.len() == 4,
    ensures
        r as nat == be_value(b@),
{
    <byteorder::BigEndian as byteorder::ByteOrder>::read_u32(b)
}

/// Relies on byteorder's `BigEndian::read_u64`: it reads the eight bytes of
/// `b` as an unsigned big-endian integer.
#[verifier::external_body]
pub(crate) fn be_read_u64(b: &[u8]) -> (r: u64)
    requires
        b@.len() == 8,
    ensures
        r as nat == be_value(b@),
{
    <byteorder::BigEndian as byteorder::ByteOrder>::read_u64(b)
}

/// Relies on byteorder's `BigEndian::read_u128`: it reads the sixteen bytes
/// of `b` as an unsigned big-endian integer.
#[verifier::external_body]
pub(crate) fn be_read_u128(b: &[u8]) -> (r: u128)
    requires
        b@.len() == 16,
    ensures
        r as nat == be_value(b@),
{
    <byteorder::BigEndian as byteorder::ByteOrder>::read_u128(b)
}

/// Relies on byteorder's `LittleEndian::write_u16`: it writes `v` as two
/// little-endian bytes.
#[verifier::external_body]
pub(crate) fn le_write_u16(v: u16) -> (r: Vec<u8>)
    ensures
        r@ == le_bytes_of(v as nat, 2),
{
    let mut buf = vec![0u8; 2];
    <byteorder::LittleEndian as byteorder::ByteOrder>::write_u16(&mut buf, v);
    buf
}

/// Relies on byteorder's `LittleEndian::write_u32`: it writes `v` as four
/// little-endian bytes.
#[verifier::external_body]
pub(crate) fn le_write_u32(v: u32) -> (r: Vec<u8>)
    ensures
        r@ == le_bytes_of(v as nat, 4),
{
    let mut buf = vec![0u8; 4];
    <byteorder::LittleEndian as byteorder::ByteOrder>::write_u32(&mut buf, v);
    buf
}

/// Relies on byteorder's `LittleEndian::write_u64`: it writes `v` as eight
/// little-endian bytes.
#[verifier::external_body]
pub(crate) fn le_write_u64(v: u64) -> (r: Vec<u8>)
    ensures
        r@ == le_bytes_of(v as nat, 8),
{
    let mut buf = vec![0u8; 8];
    <byteorder::LittleEndian as byteorder::ByteOrder>::write_u64(&mut buf, v);
    buf
}

/// Relies on byteorder's `LittleEndian::write_u128`: it writes `v` as
/// sixteen little-endian bytes.
#[verifier::external_body]
pub(crate) fn le_write_u128(v: u128) -> (r: Vec<u8>)
    ensures
        r@ == le_bytes_of(v as nat, 16),
{
    let mut buf = vec![0u8; 16];
    <byteorder::LittleEndian as byteorder::ByteOrder>::write_u128(&mut buf, v);
    buf
}

/// Relies on byteorder's `BigEndian::write_u16`: it writes `v` as two
/// big-endian bytes.
#[verifier::external_body]
pub(crate) fn be_write_u16(v: u16) -> (r: Vec<u8>)
    ensures
        r@ == be_bytes_of(v as nat, 2),
{
    let mut buf = vec![0u8; 2];
    <byteorder::BigEndian as byteorder::ByteOrder>::write_u16(&mut buf, v);
    buf
}

/// Relies on byteorder's `BigEndian::write_u32`: it writes `v` as four
/// big-endian bytes.
#[verifier::external_body]
pub(crate) fn be_write_u32(v: u32) -> (r: Vec<u8>)
    ensures
        r@ == be_bytes_of(v as nat, 4),
{
    let mut buf = vec![0u8; 4];
    <byteorder::BigEndian as byteorder::ByteOrder>::write_u32(&mut buf, v);
    buf
}

/// Relies on byteorder's `BigEndian::write_u64`: it writes `v` as eight
/// big-endian bytes.
#[verifier::external_body]
pub(crate) fn be_write_u64(v: u64) -> (r: Vec<u8>)
    ensures
        r@ == be_bytes_of(v as nat, 8),
{
    let mut buf = vec![0u8; 8];
    <byteorder::BigEndian as byteorder::ByteOrder>::write_u64(&mut buf, v);
    buf
}

/// Relies on byteorder's `BigEndian::write_u128`: it writes `v` as sixteen
/// big-endian bytes.
#[verifier::external_body]
pub(crate) fn be_write_u128(v: u128) -> (r: Vec<u8>)
    ensures
        r@ == be_bytes_of(v as nat, 16),
{
    let mut buf = vec![0u8; 16];
    <byteorder::BigEndian as byteorder::ByteOrder>::write_u128(&mut buf, v);
    buf
}

/// Decodes the two bytes of `b` as an unsigned integer under the order `o`.
pub fn decode_u16(o: Endianness, b: &[u8]) -> (r: u16)
    requires
        b@.len() == 2,
    ensures
        r as nat == ordered_value(o, b@),
{
    match o {
        Endianness::Little => le_read_u16(b),
        Endianness::Big => be_read_u16(b),
    }
}

/// Decodes the four bytes of `b` as an unsigned integer under the order `o`.
pub fn decode_u32(o: Endianness, b: &[u8]) -> (r: u32)
    requires
        b@.len() == 4,
    ensures
        r as nat == ordered_value(o, b@),
{
    match o {
        Endianness::Little => le_read_u32(b),
        Endianness::Big => be_read_u32(b),
    }
}

/// Decodes the eight bytes of `b` as an unsigned integer under the order `o`.
pub fn decode_u64(o: Endianness, b: &[u8]) -> (r: u64)
    requires
        b@.len() == 8,
    ensures
        r as nat == ordered_value(o, b@),
{
    match o {
        Endianness::Little => le_read_u64(b),
        Endianness::Big => be_read_u64(b),
    }
}

/// Decodes the sixteen bytes of `b` as an unsigned integer under the order
/// `o`.
pub fn decode_u128(o: Endianness, b: &[u8]) -> (r: u128)
    requires
        b@.len() == 16,
    ensures
        r as nat == ordered_value(o, b@),
{
    match o {
        Endianness::Little => le_read_u128(b),
        Endianness::Big => be_read_u128(b),
    }
}

/// Encodes `v` as two bytes under the order `o`.
pub fn encode_u16(o: Endianness, v: u16) -> (r: Vec<u8>)
    ensures
        r@ == ordered_bytes_of(o, v as nat, 2),
        r@.len() == 2,
{
    proof {
        lemma_le_bytes_of_len(v as nat, 2);
    }
    match o {
        Endianness::Little => le_write_u16(v),
        Endianness::Big => be_write_u16(v),
    }
}

/// Encodes `v` as four bytes under the order `o`.
pub fn encode_u32(o: Endianness, v: u32) -> (r: Vec<u8>)
    ensures
        r@ == ordered_bytes_of(o, v as nat, 4),
        r@.len() == 4,
{
    proof {
        lemma_le_bytes_of_len(v as nat, 4);
    }
    match o {
        Endianness::Little => le_write_u32(v),
        Endianness::Big => be_write_u32(v),
    }
}

/// Encodes `v` as eight bytes under the order `o`.
pub fn encode_u64(o: Endianness, v: u64) -> (r: Vec<u8>)
    ensures
        r@ == ordered_bytes_of(o, v as nat, 8),
        r@.len() == 8,
{
    proof {
        lemma_le_bytes_of_len(v as nat, 8);
    }
    match o {
        Endianness::Little => le_write_u64(v),
        Endianness::Big => be_write_u64(v),
    }
}

/// Encodes `v` as sixteen bytes under the order `o`.
pub fn encode_u128(o: Endianness, v: u128) -> (r: Vec<u8>)
    ensures
        r@ == ordered_bytes_of(o, v as nat, 16),
        r@.len() == 16,
{
    proof {
        lemma_le_bytes_of_len(v as nat, 16);
    }
    match o {
        Endianness::Little => le_write_u128(v),
        Endianness::Big => be_write_u128(v),
    }
}

/// A representation has exactly as many bytes as asked for.
pub proof fn lemma_le_bytes_of_len(v: nat, n: nat)
    ensures
        le_bytes_of(v, n).len() == n,
    decreases n,
{
    if n > 0 {
        lemma_le_bytes_of_len(v / 256, (n - 1) as nat);
    }
}

/// The values of the powers of two that the fixed widths of this crate use.
proof fn lemma_pow2_consts()
    ensures
        pow2(0) == 1,
        pow2(7) == 0x80,
        pow2(8) == 0x100,
        pow2(15) == 0x8000,
        pow2(16) == 0x10000,
        pow2(31) == 0x8000_0000,
        pow2(32) == 0x1_0000_0000,
        pow2(63) == 0x8000_0000_0000_0000,
        pow2(64) == 0x1_0000_0000_0000_0000,
        pow2(127) == 0x8000_0000_0000_0000_0000_0000_0000_0000,
        pow2(128) == 0x1_0000_0000_0000_0000_0000_0000_0000_0000,
{
    lemma2_to64();
    lemma2_to64_rest();
    lemma_pow2_adds(64, 63);
    lemma_pow2_adds(64, 64);
}

/// An `n`-byte string denotes a number below 2^(8 n).
pub proof fn lemma_le_value_bound(b: Seq<u8>)
    ensures
        le_value(b) < pow2(8 * b.len()),
    decreases b.len(),
{
    lemma2_to64();
    if b.len() > 0 {
        let rest = b.skip(1);
        lemma_le_value_bound(rest);
        lemma_pow2_adds(8, 8 * ((b.len() - 1) as nat));
        assert(b[0] as nat + 256 * le_value(rest) < 256 * pow2(8 * ((b.len() - 1) as nat)))
            by (nonlinear_arith)
            requires
                le_value(rest) < pow2(8 * ((b.len() - 1) as nat)),
                b[0] < 256,
        ;
    }
}

/// Encoding a number and decoding the result gives the number back:
/// the little-endian half of the round trip.
pub proof fn lemma_le_round_trip(v: nat, n: nat)
    requires
        v < pow2(8 * n),
    ensures
        le_bytes_of(v, n).len() == n,
        le_value(le_bytes_of(v, n)) == v,
    decreases n,
{
    lemma_le_bytes_of_len(v, n);
    lemma2_to64();
    if n == 0 {
    } else {
        let rest = v / 256;
        lemma_pow2_adds(8, 8 * ((n - 1) as nat));
        assert(rest < pow2(8 * ((n - 1) as nat))) by (nonlinear_arith)
            requires
                v < 256 * pow2(8 * ((n - 1) as nat)),
                rest == v / 256,
        ;
        lemma_le_round_trip(rest, (n - 1) as nat);
        let s = le_bytes_of(v, n);
        assert(s.skip(1) =~= le_bytes_of(rest, (n - 1) as nat));
        lemma_fundamental_div_mod(v as int, 256);
    }
}

/// Decoding a byte string and re-encoding the value over the same number of
/// bytes gives the string back: the other half of the round trip.
pub proof fn lemma_le_bytes_of_value(b: Seq<u8>)
    ensures
        le_bytes_of(le_value(b), b.len()) == b,
    decreases b.len(),
{
    if b.len() == 0 {
        assert(le_bytes_of(le_value(b), b.len()) =~= b);
    } else {
        let v = le_value(b);
        let rest = le_value(b.skip(1));
        lemma_fundamental_div_mod_converse_div(v as int, 256, rest as int, b[0] as int);
        lemma_fundamental_div_mod_converse_mod(v as int, 256, rest as int, b[0] as int);
        lemma_le_bytes_of_value(b.skip(1));
        assert(le_bytes_of(v, b.len()) =~= b);
    }
}

/// Two byte strings of one length with one value are one string: decoding is
/// injective.
pub proof fn lemma_le_value_injective(a: Seq<u8>, b: Seq<u8>)
    requires
        a.len() == b.len(),
        le_value(a) == le_value(b),
    ensures
        a == b,
{
    lemma_le_bytes_of_value(a);
    lemma_le_bytes_of_value(b);
}

/// Reversing a byte string twice gives the string back.
pub proof fn lemma_reverse_involution(b: Seq<u8>)
    ensures
        b.reverse().reverse() == b,
{
    assert(b.reverse().reverse() =~= b);
}

/// Writing a value over `n` bytes and reading those bytes back under the
/// same byte order returns the value, for every value that fits in `n`
/// bytes and for both orders.
pub proof fn lemma_round_trip(o: Endianness, v: nat, n: nat)
    requires
        v < pow2(8 * n),
    ensures
        ordered_bytes_of(o, v, n).len() == n,
        ordered_value(o, ordered_bytes_of(o, v, n)) == v,
{
    lemma_le_round_trip(v, n);
    if o == Endianness::Big {
        lemma_reverse_involution(le_bytes_of(v, n));
    }
}

/// A byte string that is not a palindrome decodes to different numbers under
/// the two orders, and the two readings are related by reversing the bytes.
pub proof fn lemma_order_sensitivity(b: Seq<u8>)
    requires
        b != b.reverse(),
    ensures
        be_value(b) == le_value(b.reverse()),
        le_value(b) != be_value(b),
{
    if le_value(b) == le_value(b.reverse()) {
        lemma_le_value_injective(b, b.reverse());
    }
}

/// A single byte reads the same under either order: one byte has no order.
pub proof fn lemma_single_byte_read(o: Endianness, b: Seq<u8>)
    requires
        b.len() == 1,
    ensures
        ordered_value(o, b) == b[0] as nat,
{
    assert(b.reverse() =~= b);
    assert(le_value(b.skip(1)) == 0);
}

/// A value below 256 is written as the same single byte under either order.
pub proof fn lemma_single_byte_write(o: Endianness, v: nat)
    requires
        v < 256,
    ensures
        ordered_bytes_of(o, v, 1) == seq![v as u8],
{
    assert(le_bytes_of(v / 256, 0) == Seq::<u8>::empty());
    assert(le_bytes_of(v, 1) =~= seq![v as u8]);
    assert(seq![v as u8].reverse() =~= seq![v as u8]);
}

/// Carrying a signed value to its two's-complement representation and back
/// returns the value, for every value of the width.
pub proof fn lemma_signed_round_trip(x: int, bits: nat)
    requires
        1 <= bits,
        -pow2((bits - 1) as nat) <= x < pow2((bits - 1) as nat),
    ensures
        as_unsigned(x, bits) < pow2(bits),
        as_signed(as_unsigned(x, bits), bits) == x,
{
    lemma_pow2_unfold(bits);
}

/// Reading a two's-complement representation and carrying the value back to
/// its representation returns the representation.
pub proof fn lemma_unsigned_round_trip(v: nat, bits: nat)
    requires
        1 <= bits,
        v < pow2(bits),
    ensures
        -pow2((bits - 1) as nat) <= as_signed(v, bits) < pow2((bits - 1) as nat),
        as_unsigned(as_signed(v, bits), bits) == v,
{
    lemma_pow2_unfold(bits);
}

/// Carries `v` to the signed value with the same 8-bit two's-complement
/// representation.
pub fn u8_to_i8(v: u8) -> (r: i8)
    ensures
        r as int == as_signed(v as nat, 8),
{
    proof {
        lemma_pow2_consts();
    }
    if v < 0x80 {
        v as i8
    } else {
        -((0xFFu8 - v) as i8) - 1
    }
}

/// Carries `v` to the unsigned 8-bit two's-complement representation.
pub fn i8_to_u8(v: i8) -> (r: u8)
    ensures
        r as nat == as_unsigned(v as int, 8),
{
    proof {
        lemma_pow2_consts();
    }
    if v >= 0 {
        v as u8
    } else {
        0xFFu8 - ((-(v + 1)) as u8)
    }
}

/// Carries `v` to the signed value with the same 16-bit two's-complement
/// representation.
pub fn u16_to_i16(v: u16) -> (r: i16)
    ensures
        r as int == as_signed(v as nat, 16),
{
    proof {
        lemma_pow2_consts();
    }
    if v < 0x8000 {
        v as i16
    } else {
        -((0xFFFFu16 - v) as i16) - 1
    }
}

/// Carries `v` to the unsigned 16-bit two's-complement representation.
pub fn i16_to_u16(v: i16) -> (r: u16)
    ensures
        r as nat == as_unsigned(v as int, 16),
{
    proof {
        lemma_pow2_consts();
    }
    if v >= 0 {
        v as u16
    } else {
        0xFFFFu16 - ((-(v + 1)) as u16)
    }
}

/// Carries `v` to the signed value with the same 32-bit two's-complement
/// representation.
pub fn u32_to_i32(v: u32) -> (r: i32)
    ensures
        r as int == as_signed(v as nat, 32),
{
    proof {
        lemma_pow2_consts();
    }
    if v < 0x8000_0000 {
        v as i32
    } else {
        -((0xFFFF_FFFFu32 - v) as i32) - 1
    }
}

/// Carries `v` to the unsigned 32-bit two's-complement representation.
pub fn i32_to_u32(v: i32) -> (r: u32)
    ensures
        r as nat == as_unsigned(v as int, 32),
{
    proof {
        lemma_pow2_consts();
    }
    if v >= 0 {
        v as u32
    } else {
        0xFFFF_FFFFu32 - ((-(v + 1)) as u32)
    }
}

/// Carries `v` to the signed value with the same 64-bit two's-complement
/// representation.
pub fn u64_to_i64(v: u64) -> (r: i64)
    ensures
        r as int == as_signed(v as nat, 64),
{
    proof {
        lemma_pow2_consts();
    }
    if v < 0x8000_0000_0000_0000 {
        v as i64
    } else {
        -((0xFFFF_FFFF_FFFF_FFFFu64 - v) as i64) - 1
    }
}

/// Carries `v` to the unsigned 64-bit two's-complement representation.
pub fn i64_to_u64(v: i64) -> (r: u64)
    ensures
        r as nat == as_unsigned(v as int, 64),
{
    proof {
        lemma_pow2_consts();
    }
    if v >= 0 {
        v as u64
    } else {
        0xFFFF_FFFF_FFFF_FFFFu64 - ((-(v + 1)) as u64)
    }
}

/// Carries `v` to the signed value with the same 128-bit two's-complement
/// representation.
pub fn u128_to_i128(v: u128) -> (r: i128)
    ensures
        r as int == as_signed(v as nat, 128),
{
    proof {
        lemma_pow2_consts();
    }
    if v < 0x8000_0000_0000_0000_0000_0000_0000_0000 {
        v as i128
    } else {
        -((0xFFFF_FFFF_FFFF_FFFF_FFFF_FFFF_FFFF_FFFFu128 - v) as i128) - 1
    }
}

/// Carries `v` to the unsigned 128-bit two's-complement representation.
pub fn i128_to_u128(v: i128) -> (r: u128)
    ensures
        r as nat == as_unsigned(v as int, 128),
{
    proof {
        lemma_pow2_consts();
    }
    if v >= 0 {
        v as u128
    } else {
        0xFFFF_FFFF_FFFF_FFFF_FFFF_FFFF_FFFF_FFFFu128 - ((-(v + 1)) as u128)
    }
}

} // verus!
