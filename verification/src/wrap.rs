//! The ordered wrapper: a byte source or sink paired with an endianness
//! capability, exposing order-aware numeric reads and writes.

use vstd::prelude::*;

verus! {

use crate::base::BigEndian;
use crate::base::Endian;
use crate::base::Endianness;
use crate::base::KnownOrder;
use crate::base::LittleEndian;
use crate::base::NativeEndian;
use crate::base::NetworkEndian;
use crate::base::StaticEndianness;
use crate::base::native_order;
use crate::codec::as_signed;
use crate::codec::as_unsigned;
use crate::codec::i8_to_u8;
use crate::codec::ordered_bytes_of;
use crate::codec::ordered_value;
use crate::codec::u8_to_i8;
use crate::stream::ByteSink;
use crate::stream::ByteSource;
use crate::stream::IoError;

/// Wrapper type for a byte source or sink with an assumed byte order.
///
/// The wrapper owns one endpoint and one endianness capability; numeric
/// reads and writes go through the capability against the endpoint, while
/// the capability can be inspected, replaced or flipped without touching the
/// bytes already consumed or produced.
#[derive(Debug)]
pub struct ByteOrdered<T, E> {
    inner: T,
    endianness: E,
}

impl<T, E> ByteOrdered<T, E> {
    /// The wrapped endpoint.
    pub closed spec fn spec_inner(self) -> T {
        self.inner
    }

    /// The held endianness capability.
    pub closed spec fn spec_endianness(self) -> E {
        self.endianness
    }
}

impl<T, E: Default> ByteOrdered<T, E> {
    fn new_default(inner: T) -> (r: Self)
        ensures
            r.spec_inner() == inner,
    {
        ByteOrdered { inner, endianness: Default::default() }
    }
}

impl<T> ByteOrdered<T, StaticEndianness<LittleEndian>> {
    /// Obtains a new reader or writer that assumes data in _little endian_.
    pub fn le(inner: T) -> (r: Self)
        ensures
            r.spec_inner() == inner,
            r.spec_order() == Endianness::Little,
    {
        ByteOrdered::new_default(inner)
    }
}

impl<T> ByteOrdered<T, StaticEndianness<BigEndian>> {
    /// Obtains a new reader or writer that assumes data in _big endian_.
    pub fn be(inner: T) -> (r: Self)
        ensures
            r.spec_inner() == inner,
            r.spec_order() == Endianness::Big,
    {
        ByteOrdered::new_default(inner)
    }
}

impl<T> ByteOrdered<T, StaticEndianness<NativeEndian>> {
    /// Obtains a new reader or writer that assumes data in the order the
    /// [`NativeEndian`] marker is fixed to. While this method might sound a
    /// bit pointless, it enables easier byte order changes through method
    /// chaining.
    pub fn native(inner: T) -> (r: Self)
        ensures
            r.spec_inner() == inner,
            r.spec_order() == Endianness::Little,
    {
        ByteOrdered::new_default(inner)
    }
}

impl<T> ByteOrdered<T, StaticEndianness<NetworkEndian>> {
    /// Obtains a new reader or writer that assumes _network order_, which is
    /// big endian.
    pub fn network(inner: T) -> (r: Self)
        ensures
            r.spec_inner() == inner,
            r.spec_order() == Endianness::Big,
    {
        ByteOrdered::new_default(inner)
    }
}

impl<T> ByteOrdered<T, Endianness> {
    /// Creates a new reader or writer that assumes data in the given byte
    /// order known at _run time_.
    ///
    /// Although it is equivalent to [`ByteOrdered::new`], this function
    /// leaves a code signal that subsequent calls depend on conditions
    /// resolved during execution.
    pub fn runtime(inner: T, endianness: Endianness) -> (r: Self)
        ensures
            r.spec_inner() == inner,
            r.spec_endianness() == endianness,
    {
        ByteOrdered::new(inner, endianness)
    }
}

impl<T, E: Endian> ByteOrdered<T, E> {
    /// The byte order the held capability denotes.
    pub open spec fn spec_order(self) -> Endianness {
        self.spec_endianness().spec_order()
    }

    /// Creates a new reader or writer that assumes data in the given byte
    /// order. This flexible constructor admits any kind of byte order
    /// (static and dynamic).
    pub fn new(inner: T, endianness: E) -> (r: Self)
        ensures
            r.spec_inner() == inner,
            r.spec_endianness() == endianness,
    {
        ByteOrdered { inner, endianness }
    }

    /// Recovers the inner reader or writer from this wrapper. Information
    /// about the assumed byte order is discarded.
    pub fn into_inner(self) -> (r: T)
        ensures
            r == self.spec_inner(),
    {
        self.inner
    }

    /// Obtains an exclusive mutable reference to the inner reader or writer
    /// in this wrapper. Information about the assumed byte order is ignored
    /// until the reference is dropped.
    pub fn inner_mut(&mut self) -> (r: &mut T)
        ensures
            *r == old(self).spec_inner(),
            final(self).spec_inner() == *final(r),
            final(self).spec_endianness() == old(self).spec_endianness(),
    {
        &mut self.inner
    }

    /// Disbands a `ByteOrdered` into its parts.
    pub fn into_parts(self) -> (r: (T, E))
        ensures
            r.0 == self.spec_inner(),
            r.1 == self.spec_endianness(),
    {
        (self.inner, self.endianness)
    }

    /// Maps a `ByteOrdered<T, E>` into a `ByteOrdered<U, E>` by applying the
    /// given function to the inner reader or writer.
    pub fn map<U, F: FnOnce(T) -> U>(self, f: F) -> (r: ByteOrdered<U, E>)
        requires
            call_requires(f, (self.spec_inner(),)),
        ensures
            call_ensures(f, (self.spec_inner(),), r.spec_inner()),
            r.spec_endianness() == self.spec_endianness(),
    {
        let (src, e) = self.into_parts();
        ByteOrdered::new(f(src), e)
    }

    /// Changes the assumed byte order of the reader or writer to the given
    /// capability, of any kind.
    pub fn into_endianness<E2: Endian>(self, endianness: E2) -> (r: ByteOrdered<T, E2>)
        ensures
            r.spec_inner() == self.spec_inner(),
            r.spec_endianness() == endianness,
    {
        ByteOrdered::new(self.inner, endianness)
    }

    /// Modifies the assumed byte order of the reader or writer in place.
    /// Since the endianness type needs to be the same, this function is only
    /// relevant when `E` is a run-time byte order (see [`Endianness`]).
    pub fn set_endianness(&mut self, endianness: E)
        ensures
            final(self).spec_inner() == old(self).spec_inner(),
            final(self).spec_endianness() == endianness,
    {
        self.endianness = endianness;
    }

    /// Changes the assumed byte order of the reader or writer to little
    /// endian.
    pub fn into_le(self) -> (r: ByteOrdered<T, StaticEndianness<LittleEndian>>)
        ensures
            r.spec_inner() == self.spec_inner(),
            r.spec_order() == Endianness::Little,
    {
        ByteOrdered::le(self.inner)
    }

    /// Changes the assumed byte order of the reader or writer to big endian.
    pub fn into_be(self) -> (r: ByteOrdered<T, StaticEndianness<BigEndian>>)
        ensures
            r.spec_inner() == self.spec_inner(),
            r.spec_order() == Endianness::Big,
    {
        ByteOrdered::be(self.inner)
    }

    /// Changes the assumed byte order of the reader or writer to the order
    /// the [`NativeEndian`] marker is fixed to.
    pub fn into_native(self) -> (r: ByteOrdered<T, StaticEndianness<NativeEndian>>)
        ensures
            r.spec_inner() == self.spec_inner(),
            r.spec_order() == Endianness::Little,
    {
        ByteOrdered::native(self.inner)
    }

    /// Converts the assumed endianness to the opposite of the current order,
    /// over the same endpoint.
    pub fn into_opposite(self) -> (r: ByteOrdered<T, E::Opposite>)
        ensures
            r.spec_inner() == self.spec_inner(),
            r.spec_endianness().spec_order() == self.spec_order().spec_opposite(),
    {
        let (inner, e) = self.into_parts();
        ByteOrdered { inner, endianness: e.into_opposite() }
    }

    /// Retrieves the byte order assumed by this wrapper.
    pub fn endianness(&self) -> (r: E)
        ensures
            r == self.spec_endianness(),
    {
        self.endianness
    }

    /// Checks whether the assumed endianness is the system's native byte
    /// order.
    pub fn is_native(&self) -> (r: bool)
        ensures
            r == (self.spec_order() == native_order()),
    {
        self.endianness.is_native()
    }
}

impl<T: ByteSource, E: Endian> ByteOrdered<T, E> {
    /// The bytes the wrapped source still holds.
    pub open spec fn remaining(self) -> Seq<u8> {
        self.spec_inner().remaining()
    }

    /// Whether a read within `remaining()` cannot fail.
    pub open spec fn source_reliable(self) -> bool {
        self.spec_inner().is_reliable()
    }

    /// Reads a signed 8 bit integer from the underlying source.
    ///
    /// One byte is consumed and read as a two's-complement value; no byte
    /// order is involved, since one byte has no order.
    pub fn read_i8(&mut self) -> (r: Result<i8, IoError>)
        ensures
            final(self).spec_endianness() == old(self).spec_endianness(),
            final(self).source_reliable() == old(self).source_reliable(),
            match r {
                Ok(v) => {
                    &&& 1 <= old(self).remaining().len()
                    &&& v as int == as_signed(old(self).remaining()[0] as nat, 8)
                    &&& final(self).remaining() == old(self).remaining().skip(1)
                },
                Err(_) => !(old(self).source_reliable() && 1 <= old(self).remaining().len()),
            },
    {
        match self.read_u8() {
            Ok(v) => Ok(u8_to_i8(v)),
            Err(e) => Err(e),
        }
    }

    /// Reads an unsigned 8 bit integer from the underlying source.
    ///
    /// One byte is consumed; no byte order is involved, since one byte has
    /// no order.
    pub fn read_u8(&mut self) -> (r: Result<u8, IoError>)
        ensures
            final(self).spec_endianness() == old(self).spec_endianness(),
            final(self).source_reliable() == old(self).source_reliable(),
            match r {
                Ok(v) => {
                    &&& 1 <= old(self).remaining().len()
                    &&& v == old(self).remaining()[0]
                    &&& final(self).remaining() == old(self).remaining().skip(1)
                },
                Err(_) => !(old(self).source_reliable() && 1 <= old(self).remaining().len()),
            },
    {
        let bytes = match self.inner.read_exact_bytes(1) {
            Ok(b) => b,
            Err(e) => {
                return Err(e);
            },
        };
        Ok(bytes[0])
    }

    /// Reads a signed 16 bit integer from the underlying source.
    ///
    /// Exactly two bytes are consumed, decoded in the assumed order and read
    /// as a two's-complement value.
    pub fn read_i16(&mut self) -> (r: Result<i16, IoError>)
        ensures
            final(self).spec_endianness() == old(self).spec_endianness(),
            final(self).source_reliable() == old(self).source_reliable(),
            match r {
                Ok(v) => {
                    &&& 2 <= old(self).remaining().len()
                    &&& v as int == as_signed(
                        ordered_value(old(self).spec_order(), old(self).remaining().take(2)),
                        16,
                    )
                    &&& final(self).remaining() == old(self).remaining().skip(2)
                },
                Err(_) => !(old(self).source_reliable() && 2 <= old(self).remaining().len()),
            },
    {
        let e = self.endianness;
        e.read_i16(&mut self.inner)
    }

    /// Reads as many signed 16 bit integers as `dst` holds from the
    /// underlying source, replacing `dst`'s contents.
    ///
    /// The buffer is either filled completely or an error is returned; on an
    /// error nothing is said of the buffer's contents.
    pub fn read_i16_into(&mut self, dst: &mut Vec<i16>) -> (r: Result<(), IoError>)
        ensures
            final(self).spec_endianness() == old(self).spec_endianness(),
            final(self).source_reliable() == old(self).source_reliable(),
            match r {
                Ok(_) => {
                    &&& 2 * old(dst)@.len() <= old(self).remaining().len()
                    &&& final(dst)@.len() == old(dst)@.len()
                    &&& forall|k: int|
                        0 <= k < old(dst)@.len() ==> #[trigger] final(dst)@[k] as int
                            == as_signed(
                            ordered_value(
                                old(self).spec_order(),
                                old(self).remaining().subrange(2 * k, 2 * k + 2),
                            ),
                            16,
                        )
                    &&& final(self).remaining() == old(self).remaining().skip(
                        2 * old(dst)@.len() as int,
                    )
                },
                Err(_) => !(old(self).source_reliable() && 2 * old(dst)@.len() <= old(
                    self,
                ).remaining().len()),
            },
    {
        let e = self.endianness;
        e.read_i16_into(&mut self.inner, dst)
    }

    /// Reads an unsigned 16 bit integer from the underlying source.
    ///
    /// Exactly two bytes are consumed and decoded in the assumed order.
    pub fn read_u16(&mut self) -> (r: Result<u16, IoError>)
        ensures
            final(self).spec_endianness() == old(self).spec_endianness(),
            final(self).source_reliable() == old(self).source_reliable(),
            match r {
                Ok(v) => {
                    &&& 2 <= old(self).remaining().len()
                    &&& v as nat == ordered_value(
                        old(self).spec_order(),
                        old(self).remaining().take(2),
                    )
                    &&& final(self).remaining() == old(self).remaining().skip(2)
                },
                Err(_) => !(old(self).source_reliable() && 2 <= old(self).remaining().len()),
            },
    {
        let e = self.endianness;
        e.read_u16(&mut self.inner)
    }

    /// Reads as many unsigned 16 bit integers as `dst` holds from the
    /// underlying source, replacing `dst`'s contents.
    ///
    /// The buffer is either filled completely or an error is returned; on an
    /// error nothing is said of the buffer's contents.
    pub fn read_u16_into(&mut self, dst: &mut Vec<u16>) -> (r: Result<(), IoError>)
        ensures
            final(self).spec_endianness() == old(self).spec_endianness(),
            final(self).source_reliable() == old(self).source_reliable(),
            match r {
                Ok(_) => {
                    &&& 2 * old(dst)@.len() <= old(self).remaining().len()
                    &&& final(dst)@.len() == old(dst)@.len()
                    &&& forall|k: int|
                        0 <= k < old(dst)@.len() ==> #[trigger] final(dst)@[k] as nat
                            == ordered_value(
                            old(self).spec_order(),
                            old(self).remaining().subrange(2 * k, 2 * k + 2),
                        )
                    &&& final(self).remaining() == old(self).remaining().skip(
                        2 * old(dst)@.len() as int,
                    )
                },
                Err(_) => !(old(self).source_reliable() && 2 * old(dst)@.len() <= old(
                    self,
                ).remaining().len()),
            },
    {
        let e = self.endianness;
        e.read_u16_into(&mut self.inner, dst)
    }

    /// Reads a signed 32 bit integer from the underlying source.
    ///
    /// Exactly four bytes are consumed, decoded in the assumed order and read
    /// as a two's-complement value.
    pub fn read_i32(&mut self) -> (r: Result<i32, IoError>)
        ensures
            final(self).spec_endianness() == old(self).spec_endianness(),
            final(self).source_reliable() == old(self).source_reliable(),
            match r {
                Ok(v) => {
                    &&& 4 <= old(self).remaining().len()
                    &&& v as int == as_signed(
                        ordered_value(old(self).spec_order(), old(self).remaining().take(4)),
                        32,
                    )
                    &&& final(self).remaining() == old(self).remaining().skip(4)
                },
                Err(_) => !(old(self).source_reliable() && 4 <= old(self).remaining().len()),
            },
    {
        let e = self.endianness;
        e.read_i32(&mut self.inner)
    }

    /// Reads as many signed 32 bit integers as `dst` holds from the
    /// underlying source, replacing `dst`'s contents.
    ///
    /// The buffer is either filled completely or an error is returned; on an
    /// error nothing is said of the buffer's contents.
    pub fn read_i32_into(&mut self, dst: &mut Vec<i32>) -> (r: Result<(), IoError>)
        ensures
            final(self).spec_endianness() == old(self).spec_endianness(),
            final(self).source_reliable() == old(self).source_reliable(),
            match r {
                Ok(_) => {
                    &&& 4 * old(dst)@.len() <= old(self).remaining().len()
                    &&& final(dst)@.len() == old(dst)@.len()
                    &&& forall|k: int|
                        0 <= k < old(dst)@.len() ==> #[trigger] final(dst)@[k] as int
                            == as_signed(
                            ordered_value(
                                old(self).spec_order(),
                                old(self).remaining().subrange(4 * k, 4 * k + 4),
                            ),
                            32,
                        )
                    &&& final(self).remaining() == old(self).remaining().skip(
                        4 * old(dst)@.len() as int,
                    )
                },
                Err(_) => !(old(self).source_reliable() && 4 * old(dst)@.len() <= old(
                    self,
                ).remaining().len()),
            },
    {
        let e = self.endianness;
        e.read_i32_into(&mut self.inner, dst)
    }

    /// Reads an unsigned 32 bit integer from the underlying source.
    ///
    /// Exactly four bytes are consumed and decoded in the assumed order.
    pub fn read_u32(&mut self) -> (r: Result<u32, IoError>)
        ensures
            final(self).spec_endianness() == old(self).spec_endianness(),
            final(self).source_reliable() == old(self).source_reliable(),
            match r {
                Ok(v) => {
                    &&& 4 <= old(self).remaining().len()
                    &&& v as nat == ordered_value(
                        old(self).spec_order(),
                        old(self).remaining().take(4),
                    )
                    &&& final(self).remaining() == old(self).remaining().skip(4)
                },
                Err(_) => !(old(self).source_reliable() && 4 <= old(self).remaining().len()),
            },
    {
        let e = self.endianness;
        e.read_u32(&mut self.inner)
    }

    /// Reads as many unsigned 32 bit integers as `dst` holds from the
    /// underlying source, replacing `dst`'s contents.
    ///
    /// The buffer is either filled completely or an error is returned; on an
    /// error nothing is said of the buffer's contents.
    pub fn read_u32_into(&mut self, dst: &mut Vec<u32>) -> (r: Result<(), IoError>)
        ensures
            final(self).spec_endianness() == old(self).spec_endianness(),
            final(self).source_reliable() == old(self).source_reliable(),
            match r {
                Ok(_) => {
                    &&& 4 * old(dst)@.len() <= old(self).remaining().len()
                    &&& final(dst)@.len() == old(dst)@.len()
                    &&& forall|k: int|
                        0 <= k < old(dst)@.len() ==> #[trigger] final(dst)@[k] as nat
                            == ordered_value(
                            old(self).spec_order(),
                            old(self).remaining().subrange(4 * k, 4 * k + 4),
                        )
                    &&& final(self).remaining() == old(self).remaining().skip(
                        4 * old(dst)@.len() as int,
                    )
                },
                Err(_) => !(old(self).source_reliable() && 4 * old(dst)@.len() <= old(
                    self,
                ).remaining().len()),
            },
    {
        let e = self.endianness;
        e.read_u32_into(&mut self.inner, dst)
    }

    /// Reads a signed 64 bit integer from the underlying source.
    ///
    /// Exactly eight bytes are consumed, decoded in the assumed order and read
    /// as a two's-complement value.
    pub fn read_i64(&mut self) -> (r: Result<i64, IoError>)
        ensures
            final(self).spec_endianness() == old(self).spec_endianness(),
            final(self).source_reliable() == old(self).source_reliable(),
            match r {
                Ok(v) => {
                    &&& 8 <= old(self).remaining().len()
                    &&& v as int == as_signed(
                        ordered_value(old(self).spec_order(), old(self).remaining().take(8)),
                        64,
                    )
                    &&& final(self).remaining() == old(self).remaining().skip(8)
                },
                Err(_) => !(old(self).source_reliable() && 8 <= old(self).remaining().len()),
            },
    {
        let e = self.endianness;
        e.read_i64(&mut self.inner)
    }

    /// Reads as many signed 64 bit integers as `dst` holds from the
    /// underlying source, replacing `dst`'s contents.
    ///
    /// The buffer is either filled completely or an error is returned; on an
    /// error nothing is said of the buffer's contents.
    pub fn read_i64_into(&mut self, dst: &mut Vec<i64>) -> (r: Result<(), IoError>)
        ensures
            final(self).spec_endianness() == old(self).spec_endianness(),
            final(self).source_reliable() == old(self).source_reliable(),
            match r {
                Ok(_) => {
                    &&& 8 * old(dst)@.len() <= old(self).remaining().len()
                    &&& final(dst)@.len() == old(dst)@.len()
                    &&& forall|k: int|
                        0 <= k < old(dst)@.len() ==> #[trigger] final(dst)@[k] as int
                            == as_signed(
                            ordered_value(
                                old(self).spec_order(),
                                old(self).remaining().subrange(8 * k, 8 * k + 8),
                            ),
                            64,
                        )
                    &&& final(self).remaining() == old(self).remaining().skip(
                        8 * old(dst)@.len() as int,
                    )
                },
                Err(_) => !(old(self).source_reliable() && 8 * old(dst)@.len() <= old(
                    self,
                ).remaining().len()),
            },
    {
        let e = self.endianness;
        e.read_i64_into(&mut self.inner, dst)
    }

    /// Reads an unsigned 64 bit integer from the underlying source.
    ///
    /// Exactly eight bytes are consumed and decoded in the assumed order.
    pub fn read_u64(&mut self) -> (r: Result<u64, IoError>)
        ensures
            final(self).spec_endianness() == old(self).spec_endianness(),
            final(self).source_reliable() == old(self).source_reliable(),
            match r {
                Ok(v) => {
                    &&& 8 <= old(self).remaining().len()
                    &&& v as nat == ordered_value(
                        old(self).spec_order(),
                        old(self).remaining().take(8),
                    )
                    &&& final(self).remaining() == old(self).remaining().skip(8)
                },
                Err(_) => !(old(self).source_reliable() && 8 <= old(self).remaining().len()),
            },
    {
        let e = self.endianness;
        e.read_u64(&mut self.inner)
    }

    /// Reads as many unsigned 64 bit integers as `dst` holds from the
    /// underlying source, replacing `dst`'s contents.
    ///
    /// The buffer is either filled completely or an error is returned; on an
    /// error nothing is said of the buffer's contents.
    pub fn read_u64_into(&mut self, dst: &mut Vec<u64>) -> (r: Result<(), IoError>)
        ensures
            final(self).spec_endianness() == old(self).spec_endianness(),
            final(self).source_reliable() == old(self).source_reliable(),
            match r {
                Ok(_) => {
                    &&& 8 * old(dst)@.len() <= old(self).remaining().len()
                    &&& final(dst)@.len() == old(dst)@.len()
                    &&& forall|k: int|
                        0 <= k < old(dst)@.len() ==> #[trigger] final(dst)@[k] as nat
                            == ordered_value(
                            old(self).spec_order(),
                            old(self).remaining().subrange(8 * k, 8 * k + 8),
                        )
                    &&& final(self).remaining() == old(self).remaining().skip(
                        8 * old(dst)@.len() as int,
                    )
                },
                Err(_) => !(old(self).source_reliable() && 8 * old(dst)@.len() <= old(
                    self,
                ).remaining().len()),
            },
    {
        let e = self.endianness;
        e.read_u64_into(&mut self.inner, dst)
    }

    /// Reads a signed 128 bit integer from the underlying source.
    ///
    /// Exactly sixteen bytes are consumed, decoded in the assumed order and read
    /// as a two's-complement value.
    pub fn read_i128(&mut self) -> (r: Result<i128, IoError>)
        ensures
            final(self).spec_endianness() == old(self).spec_endianness(),
            final(self).source_reliable() == old(self).source_reliable(),
            match r {
                Ok(v) => {
                    &&& 16 <= old(self).remaining().len()
                    &&& v as int == as_signed(
                        ordered_value(old(self).spec_order(), old(self).remaining().take(16)),
                        128,
                    )
                    &&& final(self).remaining() == old(self).remaining().skip(16)
                },
                Err(_) => !(old(self).source_reliable() && 16 <= old(self).remaining().len()),
            },
    {
        let e = self.endianness;
        e.read_i128(&mut self.inner)
    }

    /// Reads as many signed 128 bit integers as `dst` holds from the
    /// underlying source, replacing `dst`'s contents.
    ///
    /// The buffer is either filled completely or an error is returned; on an
    /// error nothing is said of the buffer's contents.
    pub fn read_i128_into(&mut self, dst: &mut Vec<i128>) -> (r: Result<(), IoError>)
        ensures
            final(self).spec_endianness() == old(self).spec_endianness(),
            final(self).source_reliable() == old(self).source_reliable(),
            match r {
                Ok(_) => {
                    &&& 16 * old(dst)@.len() <= old(self).remaining().len()
                    &&& final(dst)@.len() == old(dst)@.len()
                    &&& forall|k: int|
                        0 <= k < old(dst)@.len() ==> #[trigger] final(dst)@[k] as int
                            == as_signed(
                            ordered_value(
                                old(self).spec_order(),
                                old(self).remaining().subrange(16 * k, 16 * k + 16),
                            ),
                            128,
                        )
                    &&& final(self).remaining() == old(self).remaining().skip(
                        16 * old(dst)@.len() as int,
                    )
                },
                Err(_) => !(old(self).source_reliable() && 16 * old(dst)@.len() <= old(
                    self,
                ).remaining().len()),
            },
    {
        let e = self.endianness;
        e.read_i128_into(&mut self.inner, dst)
    }

    /// Reads an unsigned 128 bit integer from the underlying source.
    ///
    /// Exactly sixteen bytes are consumed and decoded in the assumed order.
    pub fn read_u128(&mut self) -> (r: Result<u128, IoError>)
        ensures
            final(self).spec_endianness() == old(self).spec_endianness(),
            final(self).source_reliable() == old(self).source_reliable(),
            match r {
                Ok(v) => {
                    &&& 16 <= old(self).remaining().len()
                    &&& v as nat == ordered_value(
                        old(self).spec_order(),
                        old(self).remaining().take(16),
                    )
                    &&& final(self).remaining() == old(self).remaining().skip(16)
                },
                Err(_) => !(old(self).source_reliable() && 16 <= old(self).remaining().len()),
            },
    {
        let e = self.endianness;
        e.read_u128(&mut self.inner)
    }

    /// Reads as many unsigned 128 bit integers as `dst` holds from the
    /// underlying source, replacing `dst`'s contents.
    ///
    /// The buffer is either filled completely or an error is returned; on an
    /// error nothing is said of the buffer's contents.
    pub fn read_u128_into(&mut self, dst: &mut Vec<u128>) -> (r: Result<(), IoError>)
        ensures
            final(self).spec_endianness() == old(self).spec_endianness(),
            final(self).source_reliable() == old(self).source_reliable(),
            match r {
                Ok(_) => {
                    &&& 16 * old(dst)@.len() <= old(self).remaining().len()
                    &&& final(dst)@.len() == old(dst)@.len()
                    &&& forall|k: int|
                        0 <= k < old(dst)@.len() ==> #[trigger] final(dst)@[k] as nat
                            == ordered_value(
                            old(self).spec_order(),
                            old(self).remaining().subrange(16 * k, 16 * k + 16),
                        )
                    &&& final(self).remaining() == old(self).remaining().skip(
                        16 * old(dst)@.len() as int,
                    )
                },
                Err(_) => !(old(self).source_reliable() && 16 * old(dst)@.len() <= old(
                    self,
                ).remaining().len()),
            },
    {
        let e = self.endianness;
        e.read_u128_into(&mut self.inner, dst)
    }
}

impl<T: ByteSink, E: Endian> ByteOrdered<T, E> {
    /// The bytes the wrapped sink has accepted so far.
    pub open spec fn written(self) -> Seq<u8> {
        self.spec_inner().written()
    }

    /// Whether a write cannot fail.
    pub open spec fn sink_reliable(self) -> bool {
        self.spec_inner().is_reliable()
    }

    /// Writes a signed 8 bit integer to the underlying sink.
    ///
    /// The value's two's-complement representation is appended as one byte;
    /// no byte order is involved, since one byte has no order.
    pub fn write_i8(&mut self, v: i8) -> (r: Result<(), IoError>)
        ensures
            final(self).spec_endianness() == old(self).spec_endianness(),
            final(self).sink_reliable() == old(self).sink_reliable(),
            match r {
                Ok(_) => final(self).written() == old(self).written() + seq![
                    as_unsigned(v as int, 8) as u8,
                ],
                Err(_) => !old(self).sink_reliable(),
            },
    {
        self.write_u8(i8_to_u8(v))
    }

    /// Writes an unsigned 8 bit integer to the underlying sink.
    ///
    /// The byte is appended as it stands; no byte order is involved, since
    /// one byte has no order.
    pub fn write_u8(&mut self, v: u8) -> (r: Result<(), IoError>)
        ensures
            final(self).spec_endianness() == old(self).spec_endianness(),
            final(self).sink_reliable() == old(self).sink_reliable(),
            match r {
                Ok(_) => final(self).written() == old(self).written() + seq![v],
                Err(_) => !old(self).sink_reliable(),
            },
    {
        let buf = vec![v];
        let r = self.inner.write_all_bytes(buf.as_slice());
        proof {
            assert(buf@ =~= seq![v]);
        }
        r
    }

    /// Writes a signed 16 bit integer to the underlying sink.
    ///
    /// The value's two's-complement representation is appended as two
    /// bytes in the assumed order.
    pub fn write_i16(&mut self, v: i16) -> (r: Result<(), IoError>)
        ensures
            final(self).spec_endianness() == old(self).spec_endianness(),
            final(self).sink_reliable() == old(self).sink_reliable(),
            match r {
                Ok(_) => final(self).written() == old(self).written() + ordered_bytes_of(
                    old(self).spec_order(),
                    as_unsigned(v as int, 16),
                    2,
                ),
                Err(_) => !old(self).sink_reliable(),
            },
    {
        let e = self.endianness;
        e.write_i16(&mut self.inner, v)
    }

    /// Writes an unsigned 16 bit integer to the underlying sink.
    ///
    /// The value's two bytes in the assumed order are appended.
    pub fn write_u16(&mut self, v: u16) -> (r: Result<(), IoError>)
        ensures
            final(self).spec_endianness() == old(self).spec_endianness(),
            final(self).sink_reliable() == old(self).sink_reliable(),
            match r {
                Ok(_) => final(self).written() == old(self).written() + ordered_bytes_of(
                    old(self).spec_order(),
                    v as nat,
                    2,
                ),
                Err(_) => !old(self).sink_reliable(),
            },
    {
        let e = self.endianness;
        e.write_u16(&mut self.inner, v)
    }

    /// Writes a signed 32 bit integer to the underlying sink.
    ///
    /// The value's two's-complement representation is appended as four
    /// bytes in the assumed order.
    pub fn write_i32(&mut self, v: i32) -> (r: Result<(), IoError>)
        ensures
            final(self).spec_endianness() == old(self).spec_endianness(),
            final(self).sink_reliable() == old(self).sink_reliable(),
            match r {
                Ok(_) => final(self).written() == old(self).written() + ordered_bytes_of(
                    old(self).spec_order(),
                    as_unsigned(v as int, 32),
                    4,
                ),
                Err(_) => !old(self).sink_reliable(),
            },
    {
        let e = self.endianness;
        e.write_i32(&mut self.inner, v)
    }

    /// Writes an unsigned 32 bit integer to the underlying sink.
    ///
    /// The value's four bytes in the assumed order are appended.
    pub fn write_u32(&mut self, v: u32) -> (r: Result<(), IoError>)
        ensures
            final(self).spec_endianness() == old(self).spec_endianness(),
            final(self).sink_reliable() == old(self).sink_reliable(),
            match r {
                Ok(_) => final(self).written() == old(self).written() + ordered_bytes_of(
                    old(self).spec_order(),
                    v as nat,
                    4,
                ),
                Err(_) => !old(self).sink_reliable(),
            },
    {
        let e = self.endianness;
        e.write_u32(&mut self.inner, v)
    }

    /// Writes a signed 64 bit integer to the underlying sink.
    ///
    /// The value's two's-complement representation is appended as eight
    /// bytes in the assumed order.
    pub fn write_i64(&mut self, v: i64) -> (r: Result<(), IoError>)
        ensures
            final(self).spec_endianness() == old(self).spec_endianness(),
            final(self).sink_reliable() == old(self).sink_reliable(),
            match r {
                Ok(_) => final(self).written() == old(self).written() + ordered_bytes_of(
                    old(self).spec_order(),
                    as_unsigned(v as int, 64),
                    8,
                ),
                Err(_) => !old(self).sink_reliable(),
            },
    {
        let e = self.endianness;
        e.write_i64(&mut self.inner, v)
    }

    /// Writes an unsigned 64 bit integer to the underlying sink.
    ///
    /// The value's eight bytes in the assumed order are appended.
    pub fn write_u64(&mut self, v: u64) -> (r: Result<(), IoError>)
        ensures
            final(self).spec_endianness() == old(self).spec_endianness(),
            final(self).sink_reliable() == old(self).sink_reliable(),
            match r {
                Ok(_) => final(self).written() == old(self).written() + ordered_bytes_of(
                    old(self).spec_order(),
                    v as nat,
                    8,
                ),
                Err(_) => !old(self).sink_reliable(),
            },
    {
        let e = self.endianness;
        e.write_u64(&mut self.inner, v)
    }

    /// Writes a signed 128 bit integer to the underlying sink.
    ///
    /// The value's two's-complement representation is appended as sixteen
    /// bytes in the assumed order.
    pub fn write_i128(&mut self, v: i128) -> (r: Result<(), IoError>)
        ensures
            final(self).spec_endianness() == old(self).spec_endianness(),
            final(self).sink_reliable() == old(self).sink_reliable(),
            match r {
                Ok(_) => final(self).written() == old(self).written() + ordered_bytes_of(
                    old(self).spec_order(),
                    as_unsigned(v as int, 128),
                    16,
                ),
                Err(_) => !old(self).sink_reliable(),
            },
    {
        let e = self.endianness;
        e.write_i128(&mut self.inner, v)
    }

    /// Writes an unsigned 128 bit integer to the underlying sink.
    ///
    /// The value's sixteen bytes in the assumed order are appended.
    pub fn write_u128(&mut self, v: u128) -> (r: Result<(), IoError>)
        ensures
            final(self).spec_endianness() == old(self).spec_endianness(),
            final(self).sink_reliable() == old(self).sink_reliable(),
            match r {
                Ok(_) => final(self).written() == old(self).written() + ordered_bytes_of(
                    old(self).spec_order(),
                    v as nat,
                    16,
                ),
                Err(_) => !old(self).sink_reliable(),
            },
    {
        let e = self.endianness;
        e.write_u128(&mut self.inner, v)
    }
}

} // verus!
