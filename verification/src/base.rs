//! Byte order descriptors: the run-time [`Endianness`] enum and the
//! compile-time order tags.

use vstd::prelude::*;

verus! {

use crate::codec::as_signed;
use crate::codec::as_unsigned;
use crate::codec::decode_u128;
use crate::codec::decode_u16;
use crate::codec::decode_u32;
use crate::codec::decode_u64;
use crate::codec::encode_u128;
use crate::codec::encode_u16;
use crate::codec::encode_u32;
use crate::codec::encode_u64;
use crate::codec::i128_to_u128;
use crate::codec::i16_to_u16;
use crate::codec::i32_to_u32;
use crate::codec::i64_to_u64;
use crate::codec::ordered_bytes_of;
use crate::codec::ordered_value;
use crate::codec::u128_to_i128;
use crate::codec::u16_to_i16;
use crate::codec::u32_to_i32;
use crate::codec::u64_to_i64;
use crate::stream::ByteSink;
use crate::stream::ByteSource;
use crate::stream::IoError;

/// A byte order for multi-byte words, materialized as a run-time value.
///
/// The information of whether to read or write data in little endian or in
/// big endian is resolved at run time by observing this value. Use it as the
/// endianness type of a `ByteOrdered` when the byte order is only discovered
/// during execution (for example, from a leading tag byte of a format).
#[derive(Debug, PartialEq, Eq, Hash, Clone, Copy, PartialOrd, Ord, Structural)]
pub enum Endianness {
    /// Little Endian
    Little,
    /// Big Endian
    Big,
}

/// The byte order of the platform this program executes on, as an abstract
/// constant. It is [`vstd::endian::endianness()`] carried over to
/// [`Endianness`]; nothing in this crate assumes which of the two orders it
/// is.
pub open spec fn native_order() -> Endianness {
    match vstd::endian::endianness() {
        vstd::endian::Endian::Little => Endianness::Little,
        vstd::endian::Endian::Big => Endianness::Big,
    }
}

/// Relies on `u16::from_ne_bytes`: it interprets the two bytes in the
/// platform's native byte order, so the bytes `[1, 0]` give `1` exactly on a
/// little-endian platform (and `256` on a big-endian one).
#[verifier::external_body]
fn native_probe() -> (r: u16)
    ensures
        r == (if native_order() == Endianness::Little { 1u16 } else { 256u16 }),
{
    u16::from_ne_bytes([1u8, 0u8])
}

impl Endianness {
    /// The opposite byte order.
    pub open spec fn spec_opposite(self) -> Endianness {
        match self {
            Endianness::Little => Endianness::Big,
            Endianness::Big => Endianness::Little,
        }
    }

    /// Obtains this system's native endianness.
    pub fn native() -> (r: Self)
        ensures
            r == native_order(),
    {
        if native_probe() == 1 {
            Endianness::Little
        } else {
            Endianness::Big
        }
    }

    /// Obtains _Little Endian_ if and only if the given value is `true`.
    pub fn le_iff(e: bool) -> (r: Self)
        ensures
            r == (if e {
                Endianness::Little
            } else {
                Endianness::Big
            }),
    {
        if e {
            Endianness::Little
        } else {
            Endianness::Big
        }
    }

    /// Obtains _Big Endian_ if and only if the given value is `true`.
    pub fn be_iff(e: bool) -> (r: Self)
        ensures
            r == (if e {
                Endianness::Big
            } else {
                Endianness::Little
            }),
    {
        if e {
            Endianness::Big
        } else {
            Endianness::Little
        }
    }

    /// Obtains the opposite endianness: Little Endian returns Big Endian and
    /// vice versa.
    #[verifier::when_used_as_spec(spec_opposite)]
    pub fn to_opposite(self) -> (r: Self)
        ensures
            r == self.spec_opposite(),
    {
        if self == Endianness::Little {
            Endianness::Big
        } else {
            Endianness::Little
        }
    }
}

/// Taking the opposite byte order twice leads back to the original order,
/// for either order. Every operation of a capability depends on it only
/// through the order it denotes, so a capability flipped twice behaves
/// identically to the original on every read and write.
pub proof fn lemma_opposite_involution(o: Endianness)
    ensures
        o.spec_opposite().spec_opposite() == o,
{
}

/// Compile-time marker for little-endian byte order.
#[derive(Debug, Clone, Copy, PartialEq, Eq, Hash, PartialOrd, Ord)]
pub struct LittleEndian;

/// Compile-time marker for big-endian byte order.
#[derive(Debug, Clone, Copy, PartialEq, Eq, Hash, PartialOrd, Ord)]
pub struct BigEndian;

/// The compile-time marker this crate takes for the platform's native byte
/// order. The crate carries a single source for every target and fixes this
/// alias to little endian, the order of the platforms it is built for;
/// [`Endianness::native()`] and the `is_native` queries consult the platform
/// itself.
pub type NativeEndian = LittleEndian;

/// Compile-time marker for network byte order, which is big endian.
pub type NetworkEndian = BigEndian;

/// Marker trait that closes the set of byte-order types: no third order can
/// be introduced from outside the crate.
pub trait Sealed {

}

impl Sealed for LittleEndian {

}

impl Sealed for BigEndian {

}

impl<E> Sealed for StaticEndianness<E> {

}

impl Sealed for Endianness {

}

/// Trait for any type which has an opposite type. This is used to convert
/// immaterial types representing "little endian" into "big endian" and vice
/// versa.
pub trait HasOpposite: Sealed {
    /// A type which can represent the opposite byte order.
    type Opposite;
}

impl HasOpposite for LittleEndian {
    type Opposite = BigEndian;
}

impl HasOpposite for BigEndian {
    type Opposite = LittleEndian;
}

impl HasOpposite for Endianness {
    type Opposite = Self;
}

impl<E> HasOpposite for StaticEndianness<E> where E: HasOpposite {
    type Opposite = StaticEndianness<E::Opposite>;
}

/// Trait for the compile-time byte-order markers: says which member of
/// [`Endianness`] a marker stands for, and whether that is the system's
/// native byte order.
pub trait StaticNative: Sealed {
    /// The order this marker stands for.
    spec fn order() -> Endianness;

    /// Checks whether this type represents the system's native endianness.
    fn is_native() -> (r: bool)
        ensures
            r == (Self::order() == native_order()),
    ;
}

impl StaticNative for LittleEndian {
    open spec fn order() -> Endianness {
        Endianness::Little
    }

    fn is_native() -> (r: bool) {
        Endianness::native() == Endianness::Little
    }
}

impl StaticNative for BigEndian {
    open spec fn order() -> Endianness {
        Endianness::Big
    }

    fn is_native() -> (r: bool) {
        Endianness::native() == Endianness::Big
    }
}

/// A byte order known at compile time: a zero-sized value whose type
/// parameter `E` is one of the byte-order markers ([`LittleEndian`] or
/// [`BigEndian`]). Unlike the bare markers, this type can be constructed and
/// passed around as a value.
#[derive(Debug, Copy, PartialEq, Eq, Hash, PartialOrd, Ord)]
pub struct StaticEndianness<E>(core::marker::PhantomData<E>);

impl<E> Clone for StaticEndianness<E> {
    fn clone(&self) -> (r: Self)
        ensures
            r == *self,
    {
        StaticEndianness(core::marker::PhantomData)
    }
}

impl<E> StaticEndianness<E> {
    /// The one value of this type.
    pub closed spec fn spec_new() -> Self {
        StaticEndianness(core::marker::PhantomData)
    }

    /// Constructor for a static endianness.
    pub fn new() -> (r: Self)
        ensures
            r == Self::spec_new(),
    {
        StaticEndianness(core::marker::PhantomData)
    }
}

impl StaticEndianness<NativeEndian> {
    /// Constructor for native endianness.
    pub fn native() -> (r: Self)
        ensures
            r == Self::spec_new(),
    {
        StaticEndianness::new()
    }
}

impl<E> Default for StaticEndianness<E> {
    fn default() -> (r: Self)
        ensures
            r == Self::spec_new(),
    {
        StaticEndianness::new()
    }
}

/// Trait for values that denote a byte order: always exactly one of the two
/// members of [`Endianness`], with no "unknown" state.
pub trait KnownOrder: Sealed {
    /// The byte order this value denotes.
    spec fn spec_order(self) -> Endianness;
}

impl KnownOrder for Endianness {
    open spec fn spec_order(self) -> Endianness {
        self
    }
}

impl KnownOrder for StaticEndianness<LittleEndian> {
    open spec fn spec_order(self) -> Endianness {
        Endianness::Little
    }
}

impl KnownOrder for StaticEndianness<BigEndian> {
    open spec fn spec_order(self) -> Endianness {
        Endianness::Big
    }
}

/// Scoped dispatch is equivalent to run-time dispatch: the static capability
/// selected for a run-time order denotes exactly that order, and the
/// run-time capability denotes itself. Since every read and write contract
/// of [`Endian`] depends on the capability only through the order it
/// denotes, the two dispatch paths admit exactly the same results on every
/// input.
pub proof fn lemma_scoped_dispatch_order()
    ensures
        forall|s: StaticEndianness<LittleEndian>| (#[trigger] s.spec_order())
            == Endianness::Little,
        forall|s: StaticEndianness<BigEndian>| (#[trigger] s.spec_order()) == Endianness::Big,
        forall|e: Endianness| (#[trigger] e.spec_order()) == e,
{
}

/// General trait for values that can deserialize and serialize fixed-width
/// integers against a byte source or sink, in the byte order the value
/// denotes.
///
/// A capability always denotes exactly one of the two orders,
/// [`Endianness::Little`] or [`Endianness::Big`]: `spec_order` names it, and
/// every operation's contract is stated over it. The trait is implemented by
/// the run-time [`Endianness`] enum and by the compile-time
/// [`StaticEndianness`] tags, so the same call sites work whether the order
/// is a static fact or a value discovered while parsing.
pub trait Endian: Sized + Copy + KnownOrder {
    /// A type which can represent a byte order that is opposite to this one.
    type Opposite: KnownOrder;

    /// The denoted byte order, as a run-time value.
    fn order_value(self) -> (r: Endianness)
        ensures
            r == self.spec_order(),
    ;

    /// Checks whether this value represents the system's native endianness.
    fn is_native(self) -> (r: bool)
        ensures
            r == (self.spec_order() == native_order()),
    {
        self.order_value() == Endianness::native()
    }

    /// Converts the receiver into a capability for the opposite order.
    fn into_opposite(self) -> (r: Self::Opposite)
        ensures
            r.spec_order() == self.spec_order().spec_opposite(),
    ;

    /// Reads a signed 16 bit integer from the given source.
    ///
    /// Exactly two bytes are consumed, decoded in the denoted order and read
    /// as a two's-complement value. The read fails only where the source
    /// itself can fail.
    fn read_i16<S: ByteSource>(self, src: &mut S) -> (r: Result<i16, IoError>)
        ensures
            final(src).is_reliable() == old(src).is_reliable(),
            match r {
                Ok(v) => {
                    &&& 2 <= old(src).remaining().len()
                    &&& v as int == as_signed(
                        ordered_value(self.spec_order(), old(src).remaining().take(2)),
                        16,
                    )
                    &&& final(src).remaining() == old(src).remaining().skip(2)
                },
                Err(_) => !(old(src).is_reliable() && 2 <= old(src).remaining().len()),
            },
    {
        match self.read_u16(src) {
            Ok(v) => Ok(u16_to_i16(v)),
            Err(e) => Err(e),
        }
    }

    /// Reads as many signed 16 bit integers as `dst` holds from the
    /// given source, replacing `dst`'s contents.
    ///
    /// The buffer is either filled completely or an error is returned; on an
    /// error nothing is said of the buffer's contents.
    fn read_i16_into<S: ByteSource>(self, src: &mut S, dst: &mut Vec<i16>) -> (r: Result<
        (),
        IoError,
    >)
        ensures
            final(src).is_reliable() == old(src).is_reliable(),
            match r {
                Ok(_) => {
                    &&& 2 * old(dst)@.len() <= old(src).remaining().len()
                    &&& final(dst)@.len() == old(dst)@.len()
                    &&& forall|k: int|
                        0 <= k < old(dst)@.len() ==> #[trigger] final(dst)@[k] as int
                            == as_signed(
                            ordered_value(
                                self.spec_order(),
                                old(src).remaining().subrange(2 * k, 2 * k + 2),
                            ),
                            16,
                        )
                    &&& final(src).remaining() == old(src).remaining().skip(
                        2 * old(dst)@.len() as int,
                    )
                },
                Err(_) => !(old(src).is_reliable() && 2 * old(dst)@.len() <= old(
                    src,
                ).remaining().len()),
            },
    {
        let count = dst.len();
        let o = self.order_value();
        let ghost rem0 = src.remaining();
        let mut vals: Vec<i16> = Vec::new();
        let mut j: usize = 0;
        while j < count
            invariant
                j <= count,
                count == old(dst)@.len(),
                vals@.len() == j,
                o == self.spec_order(),
                rem0 == old(src).remaining(),
                src.is_reliable() == old(src).is_reliable(),
                2 * j <= old(src).remaining().len(),
                src.remaining() == old(src).remaining().skip(2 * j as int),
                forall|k: int|
                    0 <= k < j ==> #[trigger] vals@[k] as int == as_signed(
                        ordered_value(o, rem0.subrange(2 * k, 2 * k + 2)),
                        16,
                    ),
            decreases count - j,
        {
            let v = match self.read_i16(src) {
                Ok(v) => v,
                Err(e) => {
                    return Err(e);
                },
            };
            proof {
                assert(rem0.skip(2 * j as int).take(2) =~= rem0.subrange(
                    2 * j as int,
                    2 * j as int + 2,
                ));
                assert(rem0.skip(2 * j as int).skip(2) =~= rem0.skip(2 * (j + 1) as int));
            }
            vals.push(v);
            j += 1;
        }
        *dst = vals;
        Ok(())
    }

    /// Reads an unsigned 16 bit integer from the given source.
    ///
    /// Exactly two bytes are consumed and decoded in the denoted order. The
    /// read fails only where the source itself can fail: a reliable source
    /// with two bytes left always yields the value.
    fn read_u16<S: ByteSource>(self, src: &mut S) -> (r: Result<u16, IoError>)
        ensures
            final(src).is_reliable() == old(src).is_reliable(),
            match r {
                Ok(v) => {
                    &&& 2 <= old(src).remaining().len()
                    &&& v as nat == ordered_value(
                        self.spec_order(),
                        old(src).remaining().take(2),
                    )
                    &&& final(src).remaining() == old(src).remaining().skip(2)
                },
                Err(_) => !(old(src).is_reliable() && 2 <= old(src).remaining().len()),
            },
    {
        let bytes = match src.read_exact_bytes(2) {
            Ok(b) => b,
            Err(e) => {
                return Err(e);
            },
        };
        Ok(decode_u16(self.order_value(), bytes.as_slice()))
    }

    /// Reads as many unsigned 16 bit integers as `dst` holds from the
    /// given source, replacing `dst`'s contents.
    ///
    /// The buffer is either filled completely or an error is returned; on an
    /// error nothing is said of the buffer's contents.
    fn read_u16_into<S: ByteSource>(self, src: &mut S, dst: &mut Vec<u16>) -> (r: Result<
        (),
        IoError,
    >)
        ensures
            final(src).is_reliable() == old(src).is_reliable(),
            match r {
                Ok(_) => {
                    &&& 2 * old(dst)@.len() <= old(src).remaining().len()
                    &&& final(dst)@.len() == old(dst)@.len()
                    &&& forall|k: int|
                        0 <= k < old(dst)@.len() ==> #[trigger] final(dst)@[k] as nat
                            == ordered_value(
                            self.spec_order(),
                            old(src).remaining().subrange(2 * k, 2 * k + 2),
                        )
                    &&& final(src).remaining() == old(src).remaining().skip(
                        2 * old(dst)@.len() as int,
                    )
                },
                Err(_) => !(old(src).is_reliable() && 2 * old(dst)@.len() <= old(
                    src,
                ).remaining().len()),
            },
    {
        let count = dst.len();
        let o = self.order_value();
        let ghost rem0 = src.remaining();
        let mut vals: Vec<u16> = Vec::new();
        let mut j: usize = 0;
        while j < count
            invariant
                j <= count,
                count == old(dst)@.len(),
                vals@.len() == j,
                o == self.spec_order(),
                rem0 == old(src).remaining(),
                src.is_reliable() == old(src).is_reliable(),
                2 * j <= old(src).remaining().len(),
                src.remaining() == old(src).remaining().skip(2 * j as int),
                forall|k: int|
                    0 <= k < j ==> #[trigger] vals@[k] as nat == ordered_value(
                        o,
                        rem0.subrange(2 * k, 2 * k + 2),
                    ),
            decreases count - j,
        {
            let v = match self.read_u16(src) {
                Ok(v) => v,
                Err(e) => {
                    return Err(e);
                },
            };
            proof {
                assert(rem0.skip(2 * j as int).take(2) =~= rem0.subrange(
                    2 * j as int,
                    2 * j as int + 2,
                ));
                assert(rem0.skip(2 * j as int).skip(2) =~= rem0.skip(2 * (j + 1) as int));
            }
            vals.push(v);
            j += 1;
        }
        *dst = vals;
        Ok(())
    }

    /// Reads a signed 32 bit integer from the given source.
    ///
    /// Exactly four bytes are consumed, decoded in the denoted order and read
    /// as a two's-complement value. The read fails only where the source
    /// itself can fail.
    fn read_i32<S: ByteSource>(self, src: &mut S) -> (r: Result<i32, IoError>)
        ensures
            final(src).is_reliable() == old(src).is_reliable(),
            match r {
                Ok(v) => {
                    &&& 4 <= old(src).remaining().len()
                    &&& v as int == as_signed(
                        ordered_value(self.spec_order(), old(src).remaining().take(4)),
                        32,
                    )
                    &&& final(src).remaining() == old(src).remaining().skip(4)
                },
                Err(_) => !(old(src).is_reliable() && 4 <= old(src).remaining().len()),
            },
    {
        match self.read_u32(src) {
            Ok(v) => Ok(u32_to_i32(v)),
            Err(e) => Err(e),
        }
    }

    /// Reads as many signed 32 bit integers as `dst` holds from the
    /// given source, replacing `dst`'s contents.
    ///
    /// The buffer is either filled completely or an error is returned; on an
    /// error nothing is said of the buffer's contents.
    fn read_i32_into<S: ByteSource>(self, src: &mut S, dst: &mut Vec<i32>) -> (r: Result<
        (),
        IoError,
    >)
        ensures
            final(src).is_reliable() == old(src).is_reliable(),
            match r {
                Ok(_) => {
                    &&& 4 * old(dst)@.len() <= old(src).remaining().len()
                    &&& final(dst)@.len() == old(dst)@.len()
                    &&& forall|k: int|
                        0 <= k < old(dst)@.len() ==> #[trigger] final(dst)@[k] as int
                            == as_signed(
                            ordered_value(
                                self.spec_order(),
                                old(src).remaining().subrange(4 * k, 4 * k + 4),
                            ),
                            32,
                        )
                    &&& final(src).remaining() == old(src).remaining().skip(
                        4 * old(dst)@.len() as int,
                    )
                },
                Err(_) => !(old(src).is_reliable() && 4 * old(dst)@.len() <= old(
                    src,
                ).remaining().len()),
            },
    {
        let count = dst.len();
        let o = self.order_value();
        let ghost rem0 = src.remaining();
        let mut vals: Vec<i32> = Vec::new();
        let mut j: usize = 0;
        while j < count
            invariant
                j <= count,
                count == old(dst)@.len(),
                vals@.len() == j,
                o == self.spec_order(),
                rem0 == old(src).remaining(),
                src.is_reliable() == old(src).is_reliable(),
                4 * j <= old(src).remaining().len(),
                src.remaining() == old(src).remaining().skip(4 * j as int),
                forall|k: int|
                    0 <= k < j ==> #[trigger] vals@[k] as int == as_signed(
                        ordered_value(o, rem0.subrange(4 * k, 4 * k + 4)),
                        32,
                    ),
            decreases count - j,
        {
            let v = match self.read_i32(src) {
                Ok(v) => v,
                Err(e) => {
                    return Err(e);
                },
            };
            proof {
                assert(rem0.skip(4 * j as int).take(4) =~= rem0.subrange(
                    4 * j as int,
                    4 * j as int + 4,
                ));
                assert(rem0.skip(4 * j as int).skip(4) =~= rem0.skip(4 * (j + 1) as int));
            }
            vals.push(v);
            j += 1;
        }
        *dst = vals;
        Ok(())
    }

    /// Reads an unsigned 32 bit integer from the given source.
    ///
    /// Exactly four bytes are consumed and decoded in the denoted order. The
    /// read fails only where the source itself can fail: a reliable source
    /// with four bytes left always yields the value.
    fn read_u32<S: ByteSource>(self, src: &mut S) -> (r: Result<u32, IoError>)
        ensures
            final(src).is_reliable() == old(src).is_reliable(),
            match r {
                Ok(v) => {
                    &&& 4 <= old(src).remaining().len()
                    &&& v as nat == ordered_value(
                        self.spec_order(),
                        old(src).remaining().take(4),
                    )
                    &&& final(src).remaining() == old(src).remaining().skip(4)
                },
                Err(_) => !(old(src).is_reliable() && 4 <= old(src).remaining().len()),
            },
    {
        let bytes = match src.read_exact_bytes(4) {
            Ok(b) => b,
            Err(e) => {
                return Err(e);
            },
        };
        Ok(decode_u32(self.order_value(), bytes.as_slice()))
    }

    /// Reads as many unsigned 32 bit integers as `dst` holds from the
    /// given source, replacing `dst`'s contents.
    ///
    /// The buffer is either filled completely or an error is returned; on an
    /// error nothing is said of the buffer's contents.
    fn read_u32_into<S: ByteSource>(self, src: &mut S, dst: &mut Vec<u32>) -> (r: Result<
        (),
        IoError,
    >)
        ensures
            final(src).is_reliable() == old(src).is_reliable(),
            match r {
                Ok(_) => {
                    &&& 4 * old(dst)@.len() <= old(src).remaining().len()
                    &&& final(dst)@.len() == old(dst)@.len()
                    &&& forall|k: int|
                        0 <= k < old(dst)@.len() ==> #[trigger] final(dst)@[k] as nat
                            == ordered_value(
                            self.spec_order(),
                            old(src).remaining().subrange(4 * k, 4 * k + 4),
                        )
                    &&& final(src).remaining() == old(src).remaining().skip(
                        4 * old(dst)@.len() as int,
                    )
                },
                Err(_) => !(old(src).is_reliable() && 4 * old(dst)@.len() <= old(
                    src,
                ).remaining().len()),
            },
    {
        let count = dst.len();
        let o = self.order_value();
        let ghost rem0 = src.remaining();
        let mut vals: Vec<u32> = Vec::new();
        let mut j: usize = 0;
        while j < count
            invariant
                j <= count,
                count == old(dst)@.len(),
                vals@.len() == j,
                o == self.spec_order(),
                rem0 == old(src).remaining(),
                src.is_reliable() == old(src).is_reliable(),
                4 * j <= old(src).remaining().len(),
                src.remaining() == old(src).remaining().skip(4 * j as int),
                forall|k: int|
                    0 <= k < j ==> #[trigger] vals@[k] as nat == ordered_value(
                        o,
                        rem0.subrange(4 * k, 4 * k + 4),
                    ),
            decreases count - j,
        {
            let v = match self.read_u32(src) {
                Ok(v) => v,
                Err(e) => {
                    return Err(e);
                },
            };
            proof {
                assert(rem0.skip(4 * j as int).take(4) =~= rem0.subrange(
                    4 * j as int,
                    4 * j as int + 4,
                ));
                assert(rem0.skip(4 * j as int).skip(4) =~= rem0.skip(4 * (j + 1) as int));
            }
            vals.push(v);
            j += 1;
        }
        *dst = vals;
        Ok(())
    }

    /// Reads a signed 64 bit integer from the given source.
    ///
    /// Exactly eight bytes are consumed, decoded in the denoted order and read
    /// as a two's-complement value. The read fails only where the source
    /// itself can fail.
    fn read_i64<S: ByteSource>(self, src: &mut S) -> (r: Result<i64, IoError>)
        ensures
            final(src).is_reliable() == old(src).is_reliable(),
            match r {
                Ok(v) => {
                    &&& 8 <= old(src).remaining().len()
                    &&& v as int == as_signed(
                        ordered_value(self.spec_order(), old(src).remaining().take(8)),
                        64,
                    )
                    &&& final(src).remaining() == old(src).remaining().skip(8)
                },
                Err(_) => !(old(src).is_reliable() && 8 <= old(src).remaining().len()),
            },
    {
        match self.read_u64(src) {
            Ok(v) => Ok(u64_to_i64(v)),
            Err(e) => Err(e),
        }
    }

    /// Reads as many signed 64 bit integers as `dst` holds from the
    /// given source, replacing `dst`'s contents.
    ///
    /// The buffer is either filled completely or an error is returned; on an
    /// error nothing is said of the buffer's contents.
    fn read_i64_into<S: ByteSource>(self, src: &mut S, dst: &mut Vec<i64>) -> (r: Result<
        (),
        IoError,
    >)
        ensures
            final(src).is_reliable() == old(src).is_reliable(),
            match r {
                Ok(_) => {
                    &&& 8 * old(dst)@.len() <= old(src).remaining().len()
                    &&& final(dst)@.len() == old(dst)@.len()
                    &&& forall|k: int|
                        0 <= k < old(dst)@.len() ==> #[trigger] final(dst)@[k] as int
                            == as_signed(
                            ordered_value(
                                self.spec_order(),
                                old(src).remaining().subrange(8 * k, 8 * k + 8),
                            ),
                            64,
                        )
                    &&& final(src).remaining() == old(src).remaining().skip(
                        8 * old(dst)@.len() as int,
                    )
                },
                Err(_) => !(old(src).is_reliable() && 8 * old(dst)@.len() <= old(
                    src,
                ).remaining().len()),
            },
    {
        let count = dst.len();
        let o = self.order_value();
        let ghost rem0 = src.remaining();
        let mut vals: Vec<i64> = Vec::new();
        let mut j: usize = 0;
        while j < count
            invariant
                j <= count,
                count == old(dst)@.len(),
                vals@.len() == j,
                o == self.spec_order(),
                rem0 == old(src).remaining(),
                src.is_reliable() == old(src).is_reliable(),
                8 * j <= old(src).remaining().len(),
                src.remaining() == old(src).remaining().skip(8 * j as int),
                forall|k: int|
                    0 <= k < j ==> #[trigger] vals@[k] as int == as_signed(
                        ordered_value(o, rem0.subrange(8 * k, 8 * k + 8)),
                        64,
                    ),
            decreases count - j,
        {
            let v = match self.read_i64(src) {
                Ok(v) => v,
                Err(e) => {
                    return Err(e);
                },
            };
            proof {
                assert(rem0.skip(8 * j as int).take(8) =~= rem0.subrange(
                    8 * j as int,
                    8 * j as int + 8,
                ));
                assert(rem0.skip(8 * j as int).skip(8) =~= rem0.skip(8 * (j + 1) as int));
            }
            vals.push(v);
            j += 1;
        }
        *dst = vals;
        Ok(())
    }

    /// Reads an unsigned 64 bit integer from the given source.
    ///
    /// Exactly eight bytes are consumed and decoded in the denoted order. The
    /// read fails only where the source itself can fail: a reliable source
    /// with eight bytes left always yields the value.
    fn read_u64<S: ByteSource>(self, src: &mut S) -> (r: Result<u64, IoError>)
        ensures
            final(src).is_reliable() == old(src).is_reliable(),
            match r {
                Ok(v) => {
                    &&& 8 <= old(src).remaining().len()
                    &&& v as nat == ordered_value(
                        self.spec_order(),
                        old(src).remaining().take(8),
                    )
                    &&& final(src).remaining() == old(src).remaining().skip(8)
                },
                Err(_) => !(old(src).is_reliable() && 8 <= old(src).remaining().len()),
            },
    {
        let bytes = match src.read_exact_bytes(8) {
            Ok(b) => b,
            Err(e) => {
                return Err(e);
            },
        };
        Ok(decode_u64(self.order_value(), bytes.as_slice()))
    }

    /// Reads as many unsigned 64 bit integers as `dst` holds from the
    /// given source, replacing `dst`'s contents.
    ///
    /// The buffer is either filled completely or an error is returned; on an
    /// error nothing is said of the buffer's contents.
    fn read_u64_into<S: ByteSource>(self, src: &mut S, dst: &mut Vec<u64>) -> (r: Result<
        (),
        IoError,
    >)
        ensures
            final(src).is_reliable() == old(src).is_reliable(),
            match r {
                Ok(_) => {
                    &&& 8 * old(dst)@.len() <= old(src).remaining().len()
                    &&& final(dst)@.len() == old(dst)@.len()
                    &&& forall|k: int|
                        0 <= k < old(dst)@.len() ==> #[trigger] final(dst)@[k] as nat
                            == ordered_value(
                            self.spec_order(),
                            old(src).remaining().subrange(8 * k, 8 * k + 8),
                        )
                    &&& final(src).remaining() == old(src).remaining().skip(
                        8 * old(dst)@.len() as int,
                    )
                },
                Err(_) => !(old(src).is_reliable() && 8 * old(dst)@.len() <= old(
                    src,
                ).remaining().len()),
            },
    {
        let count = dst.len();
        let o = self.order_value();
        let ghost rem0 = src.remaining();
        let mut vals: Vec<u64> = Vec::new();
        let mut j: usize = 0;
        while j < count
            invariant
                j <= count,
                count == old(dst)@.len(),
                vals@.len() == j,
                o == self.spec_order(),
                rem0 == old(src).remaining(),
                src.is_reliable() == old(src).is_reliable(),
                8 * j <= old(src).remaining().len(),
                src.remaining() == old(src).remaining().skip(8 * j as int),
                forall|k: int|
                    0 <= k < j ==> #[trigger] vals@[k] as nat == ordered_value(
                        o,
                        rem0.subrange(8 * k, 8 * k + 8),
                    ),
            decreases count - j,
        {
            let v = match self.read_u64(src) {
                Ok(v) => v,
                Err(e) => {
                    return Err(e);
                },
            };
            proof {
                assert(rem0.skip(8 * j as int).take(8) =~= rem0.subrange(
                    8 * j as int,
                    8 * j as int + 8,
                ));
                assert(rem0.skip(8 * j as int).skip(8) =~= rem0.skip(8 * (j + 1) as int));
            }
            vals.push(v);
            j += 1;
        }
        *dst = vals;
        Ok(())
    }

    /// Reads a signed 128 bit integer from the given source.
    ///
    /// Exactly sixteen bytes are consumed, decoded in the denoted order and read
    /// as a two's-complement value. The read fails only where the source
    /// itself can fail.
    fn read_i128<S: ByteSource>(self, src: &mut S) -> (r: Result<i128, IoError>)
        ensures
            final(src).is_reliable() == old(src).is_reliable(),
            match r {
                Ok(v) => {
                    &&& 16 <= old(src).remaining().len()
                    &&& v as int == as_signed(
                        ordered_value(self.spec_order(), old(src).remaining().take(16)),
                        128,
                    )
                    &&& final(src).remaining() == old(src).remaining().skip(16)
                },
                Err(_) => !(old(src).is_reliable() && 16 <= old(src).remaining().len()),
            },
    {
        match self.read_u128(src) {
            Ok(v) => Ok(u128_to_i128(v)),
            Err(e) => Err(e),
        }
    }

    /// Reads as many signed 128 bit integers as `dst` holds from the
    /// given source, replacing `dst`'s contents.
    ///
    /// The buffer is either filled completely or an error is returned; on an
    /// error nothing is said of the buffer's contents.
    fn read_i128_into<S: ByteSource>(self, src: &mut S, dst: &mut Vec<i128>) -> (r: Result<
        (),
        IoError,
    >)
        ensures
            final(src).is_reliable() == old(src).is_reliable(),
            match r {
                Ok(_) => {
                    &&& 16 * old(dst)@.len() <= old(src).remaining().len()
                    &&& final(dst)@.len() == old(dst)@.len()
                    &&& forall|k: int|
                        0 <= k < old(dst)@.len() ==> #[trigger] final(dst)@[k] as int
                            == as_signed(
                            ordered_value(
                                self.spec_order(),
                                old(src).remaining().subrange(16 * k, 16 * k + 16),
                            ),
                            128,
                        )
                    &&& final(src).remaining() == old(src).remaining().skip(
                        16 * old(dst)@.len() as int,
                    )
                },
                Err(_) => !(old(src).is_reliable() && 16 * old(dst)@.len() <= old(
                    src,
                ).remaining().len()),
            },
    {
        let count = dst.len();
        let o = self.order_value();
        let ghost rem0 = src.remaining();
        let mut vals: Vec<i128> = Vec::new();
        let mut j: usize = 0;
        while j < count
            invariant
                j <= count,
                count == old(dst)@.len(),
                vals@.len() == j,
                o == self.spec_order(),
                rem0 == old(src).remaining(),
                src.is_reliable() == old(src).is_reliable(),
                16 * j <= old(src).remaining().len(),
                src.remaining() == old(src).remaining().skip(16 * j as int),
                forall|k: int|
                    0 <= k < j ==> #[trigger] vals@[k] as int == as_signed(
                        ordered_value(o, rem0.subrange(16 * k, 16 * k + 16)),
                        128,
                    ),
            decreases count - j,
        {
            let v = match self.read_i128(src) {
                Ok(v) => v,
                Err(e) => {
                    return Err(e);
                },
            };
            proof {
                assert(rem0.skip(16 * j as int).take(16) =~= rem0.subrange(
                    16 * j as int,
                    16 * j as int + 16,
                ));
                assert(rem0.skip(16 * j as int).skip(16) =~= rem0.skip(16 * (j + 1) as int));
            }
            vals.push(v);
            j += 1;
        }
        *dst = vals;
        Ok(())
    }

    /// Reads an unsigned 128 bit integer from the given source.
    ///
    /// Exactly sixteen bytes are consumed and decoded in the denoted order. The
    /// read fails only where the source itself can fail: a reliable source
    /// with sixteen bytes left always yields the value.
    fn read_u128<S: ByteSource>(self, src: &mut S) -> (r: Result<u128, IoError>)
        ensures
            final(src).is_reliable() == old(src).is_reliable(),
            match r {
                Ok(v) => {
                    &&& 16 <= old(src).remaining().len()
                    &&& v as nat == ordered_value(
                        self.spec_order(),
                        old(src).remaining().take(16),
                    )
                    &&& final(src).remaining() == old(src).remaining().skip(16)
                },
                Err(_) => !(old(src).is_reliable() && 16 <= old(src).remaining().len()),
            },
    {
        let bytes = match src.read_exact_bytes(16) {
            Ok(b) => b,
            Err(e) => {
                return Err(e);
            },
        };
        Ok(decode_u128(self.order_value(), bytes.as_slice()))
    }

    /// Reads as many unsigned 128 bit integers as `dst` holds from the
    /// given source, replacing `dst`'s contents.
    ///
    /// The buffer is either filled completely or an error is returned; on an
    /// error nothing is said of the buffer's contents.
    fn read_u128_into<S: ByteSource>(self, src: &mut S, dst: &mut Vec<u128>) -> (r: Result<
        (),
        IoError,
    >)
        ensures
            final(src).is_reliable() == old(src).is_reliable(),
            match r {
                Ok(_) => {
                    &&& 16 * old(dst)@.len() <= old(src).remaining().len()
                    &&& final(dst)@.len() == old(dst)@.len()
                    &&& forall|k: int|
                        0 <= k < old(dst)@.len() ==> #[trigger] final(dst)@[k] as nat
                            == ordered_value(
                            self.spec_order(),
                            old(src).remaining().subrange(16 * k, 16 * k + 16),
                        )
                    &&& final(src).remaining() == old(src).remaining().skip(
                        16 * old(dst)@.len() as int,
                    )
                },
                Err(_) => !(old(src).is_reliable() && 16 * old(dst)@.len() <= old(
                    src,
                ).remaining().len()),
            },
    {
        let count = dst.len();
        let o = self.order_value();
        let ghost rem0 = src.remaining();
        let mut vals: Vec<u128> = Vec::new();
        let mut j: usize = 0;
        while j < count
            invariant
                j <= count,
                count == old(dst)@.len(),
                vals@.len() == j,
                o == self.spec_order(),
                rem0 == old(src).remaining(),
                src.is_reliable() == old(src).is_reliable(),
                16 * j <= old(src).remaining().len(),
                src.remaining() == old(src).remaining().skip(16 * j as int),
                forall|k: int|
                    0 <= k < j ==> #[trigger] vals@[k] as nat == ordered_value(
                        o,
                        rem0.subrange(16 * k, 16 * k + 16),
                    ),
            decreases count - j,
        {
            let v = match self.read_u128(src) {
                Ok(v) => v,
                Err(e) => {
                    return Err(e);
                },
            };
            proof {
                assert(rem0.skip(16 * j as int).take(16) =~= rem0.subrange(
                    16 * j as int,
                    16 * j as int + 16,
                ));
                assert(rem0.skip(16 * j as int).skip(16) =~= rem0.skip(16 * (j + 1) as int));
            }
            vals.push(v);
            j += 1;
        }
        *dst = vals;
        Ok(())
    }

    /// Writes a signed 16 bit integer to the given sink.
    ///
    /// The value's two's-complement representation is appended to the sink
    /// as two bytes in the denoted order; the write fails only where the
    /// sink itself can fail.
    fn write_i16<W: ByteSink>(self, sink: &mut W, v: i16) -> (r: Result<(), IoError>)
        ensures
            final(sink).is_reliable() == old(sink).is_reliable(),
            match r {
                Ok(_) => final(sink).written() == old(sink).written() + ordered_bytes_of(
                    self.spec_order(),
                    as_unsigned(v as int, 16),
                    2,
                ),
                Err(_) => !old(sink).is_reliable(),
            },
    {
        self.write_u16(sink, i16_to_u16(v))
    }

    /// Writes an unsigned 16 bit integer to the given sink.
    ///
    /// The value's two bytes in the denoted order are appended to the sink;
    /// the write fails only where the sink itself can fail.
    fn write_u16<W: ByteSink>(self, sink: &mut W, v: u16) -> (r: Result<(), IoError>)
        ensures
            final(sink).is_reliable() == old(sink).is_reliable(),
            match r {
                Ok(_) => final(sink).written() == old(sink).written() + ordered_bytes_of(
                    self.spec_order(),
                    v as nat,
                    2,
                ),
                Err(_) => !old(sink).is_reliable(),
            },
    {
        let bytes = encode_u16(self.order_value(), v);
        sink.write_all_bytes(bytes.as_slice())
    }

    /// Writes a signed 32 bit integer to the given sink.
    ///
    /// The value's two's-complement representation is appended to the sink
    /// as four bytes in the denoted order; the write fails only where the
    /// sink itself can fail.
    fn write_i32<W: ByteSink>(self, sink: &mut W, v: i32) -> (r: Result<(), IoError>)
        ensures
            final(sink).is_reliable() == old(sink).is_reliable(),
            match r {
                Ok(_) => final(sink).written() == old(sink).written() + ordered_bytes_of(
                    self.spec_order(),
                    as_unsigned(v as int, 32),
                    4,
                ),
                Err(_) => !old(sink).is_reliable(),
            },
    {
        self.write_u32(sink, i32_to_u32(v))
    }

    /// Writes an unsigned 32 bit integer to the given sink.
    ///
    /// The value's four bytes in the denoted order are appended to the sink;
    /// the write fails only where the sink itself can fail.
    fn write_u32<W: ByteSink>(self, sink: &mut W, v: u32) -> (r: Result<(), IoError>)
        ensures
            final(sink).is_reliable() == old(sink).is_reliable(),
            match r {
                Ok(_) => final(sink).written() == old(sink).written() + ordered_bytes_of(
                    self.spec_order(),
                    v as nat,
                    4,
                ),
                Err(_) => !old(sink).is_reliable(),
            },
    {
        let bytes = encode_u32(self.order_value(), v);
        sink.write_all_bytes(bytes.as_slice())
    }

    /// Writes a signed 64 bit integer to the given sink.
    ///
    /// The value's two's-complement representation is appended to the sink
    /// as eight bytes in the denoted order; the write fails only where the
    /// sink itself can fail.
    fn write_i64<W: ByteSink>(self, sink: &mut W, v: i64) -> (r: Result<(), IoError>)
        ensures
            final(sink).is_reliable() == old(sink).is_reliable(),
            match r {
                Ok(_) => final(sink).written() == old(sink).written() + ordered_bytes_of(
                    self.spec_order(),
                    as_unsigned(v as int, 64),
                    8,
                ),
                Err(_) => !old(sink).is_reliable(),
            },
    {
        self.write_u64(sink, i64_to_u64(v))
    }

    /// Writes an unsigned 64 bit integer to the given sink.
    ///
    /// The value's eight bytes in the denoted order are appended to the sink;
    /// the write fails only where the sink itself can fail.
    fn write_u64<W: ByteSink>(self, sink: &mut W, v: u64) -> (r: Result<(), IoError>)
        ensures
            final(sink).is_reliable() == old(sink).is_reliable(),
            match r {
                Ok(_) => final(sink).written() == old(sink).written() + ordered_bytes_of(
                    self.spec_order(),
                    v as nat,
                    8,
                ),
                Err(_) => !old(sink).is_reliable(),
            },
    {
        let bytes = encode_u64(self.order_value(), v);
        sink.write_all_bytes(bytes.as_slice())
    }

    /// Writes a signed 128 bit integer to the given sink.
    ///
    /// The value's two's-complement representation is appended to the sink
    /// as sixteen bytes in the denoted order; the write fails only where the
    /// sink itself can fail.
    fn write_i128<W: ByteSink>(self, sink: &mut W, v: i128) -> (r: Result<(), IoError>)
        ensures
            final(sink).is_reliable() == old(sink).is_reliable(),
            match r {
                Ok(_) => final(sink).written() == old(sink).written() + ordered_bytes_of(
                    self.spec_order(),
                    as_unsigned(v as int, 128),
                    16,
                ),
                Err(_) => !old(sink).is_reliable(),
            },
    {
        self.write_u128(sink, i128_to_u128(v))
    }

    /// Writes an unsigned 128 bit integer to the given sink.
    ///
    /// The value's sixteen bytes in the denoted order are appended to the sink;
    /// the write fails only where the sink itself can fail.
    fn write_u128<W: ByteSink>(self, sink: &mut W, v: u128) -> (r: Result<(), IoError>)
        ensures
            final(sink).is_reliable() == old(sink).is_reliable(),
            match r {
                Ok(_) => final(sink).written() == old(sink).written() + ordered_bytes_of(
                    self.spec_order(),
                    v as nat,
                    16,
                ),
                Err(_) => !old(sink).is_reliable(),
            },
    {
        let bytes = encode_u128(self.order_value(), v);
        sink.write_all_bytes(bytes.as_slice())
    }

}

impl Endian for Endianness {
    type Opposite = Endianness;

    fn order_value(self) -> (r: Endianness) {
        self
    }

    fn into_opposite(self) -> (r: Endianness) {
        self.to_opposite()
    }
}

impl Endian for StaticEndianness<LittleEndian> {
    type Opposite = StaticEndianness<BigEndian>;

    fn order_value(self) -> (r: Endianness) {
        Endianness::Little
    }

    fn is_native(self) -> (r: bool) {
        <LittleEndian as StaticNative>::is_native()
    }

    fn into_opposite(self) -> (r: StaticEndianness<BigEndian>) {
        StaticEndianness::new()
    }
}

impl Endian for StaticEndianness<BigEndian> {
    type Opposite = StaticEndianness<LittleEndian>;

    fn order_value(self) -> (r: Endianness) {
        Endianness::Big
    }

    fn is_native(self) -> (r: bool) {
        <BigEndian as StaticNative>::is_native()
    }

    fn into_opposite(self) -> (r: StaticEndianness<LittleEndian>) {
        StaticEndianness::new()
    }
}

} // verus!
