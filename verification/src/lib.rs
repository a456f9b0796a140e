//! Byte-order-aware reading and writing of fixed-width integers.
//!
//! The endianness of the data may be fixed at compile time (through the
//! zero-sized [`StaticEndianness`] tags) or discovered only at run time
//! (through the [`Endianness`] enum). Both forms offer the same operations,
//! stated over one mathematical model of the two byte orders, and can be
//! converted into one another. The [`ByteOrdered`] wrapper attaches either
//! form to a byte source or sink, and [`with_order`] resolves a run-time
//! order once for a whole block of operations.

use vstd::prelude::*;

mod base;
mod codec;
mod stream;
mod wrap;

pub use base::BigEndian;
pub use base::Endian;
pub use base::Endianness;
pub use base::HasOpposite;
pub use base::KnownOrder;
pub use base::LittleEndian;
pub use base::NativeEndian;
pub use base::NetworkEndian;
pub use base::Sealed;
pub use base::StaticEndianness;
pub use base::StaticNative;
pub use base::lemma_opposite_involution;
pub use base::lemma_scoped_dispatch_order;
pub use base::native_order;
pub use codec::as_signed;
pub use codec::as_unsigned;
pub use codec::be_bytes_of;
pub use codec::be_value;
pub use codec::decode_u128;
pub use codec::decode_u16;
pub use codec::decode_u32;
pub use codec::decode_u64;
pub use codec::encode_u128;
pub use codec::encode_u16;
pub use codec::encode_u32;
pub use codec::encode_u64;
pub use codec::i128_to_u128;
pub use codec::i16_to_u16;
pub use codec::i32_to_u32;
pub use codec::i64_to_u64;
pub use codec::i8_to_u8;
pub use codec::le_bytes_of;
pub use codec::le_value;
pub use codec::lemma_le_bytes_of_len;
pub use codec::lemma_le_bytes_of_value;
pub use codec::lemma_le_round_trip;
pub use codec::lemma_le_value_bound;
pub use codec::lemma_le_value_injective;
pub use codec::lemma_order_sensitivity;
pub use codec::lemma_reverse_involution;
pub use codec::lemma_round_trip;
pub use codec::lemma_signed_round_trip;
pub use codec::lemma_single_byte_read;
pub use codec::lemma_single_byte_write;
pub use codec::lemma_unsigned_round_trip;
pub use codec::ordered_bytes_of;
pub use codec::ordered_value;
pub use codec::u128_to_i128;
pub use codec::u16_to_i16;
pub use codec::u32_to_i32;
pub use codec::u64_to_i64;
pub use codec::u8_to_i8;
pub use stream::ByteReader;
pub use stream::ByteSink;
pub use stream::ByteSource;
pub use stream::ByteWriter;
pub use stream::IoError;
pub use wrap::ByteOrdered;

verus! {

/// A process-wide name for [`Endianness::Little`], for ergonomic literals.
pub const LE: Endianness = Endianness::Little;

/// A process-wide name for [`Endianness::Big`], for ergonomic literals.
pub const BE: Endianness = Endianness::Big;

/// Creates a scope for reading or writing with run-time byte order
/// awareness.
///
/// The given run-time order is resolved once, before either block runs: the
/// matching block receives a wrapper over `inner` whose byte order is a
/// compile-time fact, so the operations inside the block dispatch without
/// observing the order again. `f_le` runs exactly when `endianness` is
/// little endian, and `f_be` exactly when it is big endian; the two blocks
/// are meant to be the same text, specialized only by the wrapper's order
/// type.
///
/// The construct is an optimization, not a correctness device: running a
/// block through it is observably equal to running the same operations
/// through the run-time dispatched wrapper of [`ByteOrdered::runtime`] over
/// the same endpoint. Both wrappers hold the same endpoint, and every
/// operation's contract depends on the capability only through the order it
/// denotes, which is `endianness` on both paths (see
/// [`lemma_scoped_dispatch_order`]).
pub fn with_order<T, R, FL, FB>(inner: T, endianness: Endianness, f_le: FL, f_be: FB) -> (r: R) where
    FL: FnOnce(ByteOrdered<T, StaticEndianness<LittleEndian>>) -> R,
    FB: FnOnce(ByteOrdered<T, StaticEndianness<BigEndian>>) -> R,

    requires
        forall|w: ByteOrdered<T, StaticEndianness<LittleEndian>>|
            endianness == Endianness::Little && w.spec_inner() == inner
                ==> #[trigger] call_requires(f_le, (w,)),
        forall|w: ByteOrdered<T, StaticEndianness<BigEndian>>|
            endianness == Endianness::Big && w.spec_inner() == inner ==> #[trigger] call_requires(
                f_be,
                (w,),
            ),
    ensures
        endianness == Endianness::Little ==> exists|
            w: ByteOrdered<T, StaticEndianness<LittleEndian>>,
        |
            w.spec_inner() == inner && #[trigger] call_ensures(f_le, (w,), r),
        endianness == Endianness::Big ==> exists|w: ByteOrdered<T, StaticEndianness<BigEndian>>|
            w.spec_inner() == inner && #[trigger] call_ensures(f_be, (w,), r),
{
    match endianness {
        Endianness::Little => {
            let w = ByteOrdered::new(inner, StaticEndianness::new());
            let ghost gw = w;
            let r = f_le(w);
            proof {
                assert(gw.spec_inner() == inner && call_ensures(f_le, (gw,), r));
            }
            r
        },
        Endianness::Big => {
            let w = ByteOrdered::new(inner, StaticEndianness::new());
            let ghost gw = w;
            let r = f_be(w);
            proof {
                assert(gw.spec_inner() == inner && call_ensures(f_be, (gw,), r));
            }
            r
        },
    }
}

/// [`with_order`] over two endpoints at once: both wrappers share the one
/// resolved order.
pub fn with_order2<T1, T2, R, FL, FB>(
    inner1: T1,
    inner2: T2,
    endianness: Endianness,
    f_le: FL,
    f_be: FB,
) -> (r: R) where
    FL: FnOnce(
        ByteOrdered<T1, StaticEndianness<LittleEndian>>,
        ByteOrdered<T2, StaticEndianness<LittleEndian>>,
    ) -> R,
    FB: FnOnce(
        ByteOrdered<T1, StaticEndianness<BigEndian>>,
        ByteOrdered<T2, StaticEndianness<BigEndian>>,
    ) -> R,

    requires
        forall|
            w1: ByteOrdered<T1, StaticEndianness<LittleEndian>>,
            w2: ByteOrdered<T2, StaticEndianness<LittleEndian>>,
        |
            endianness == Endianness::Little && w1.spec_inner() == inner1 && w2.spec_inner()
                == inner2 ==> #[trigger] call_requires(f_le, (w1, w2)),
        forall|
            w1: ByteOrdered<T1, StaticEndianness<BigEndian>>,
            w2: ByteOrdered<T2, StaticEndianness<BigEndian>>,
        |
            endianness == Endianness::Big && w1.spec_inner() == inner1 && w2.spec_inner() == inner2
                ==> #[trigger] call_requires(f_be, (w1, w2)),
    ensures
        endianness == Endianness::Little ==> exists|
            w1: ByteOrdered<T1, StaticEndianness<LittleEndian>>,
            w2: ByteOrdered<T2, StaticEndianness<LittleEndian>>,
        |
            w1.spec_inner() == inner1 && w2.spec_inner() == inner2 && #[trigger] call_ensures(
                f_le,
                (w1, w2),
                r,
            ),
        endianness == Endianness::Big ==> exists|
            w1: ByteOrdered<T1, StaticEndianness<BigEndian>>,
            w2: ByteOrdered<T2, StaticEndianness<BigEndian>>,
        |
            w1.spec_inner() == inner1 && w2.spec_inner() == inner2 && #[trigger] call_ensures(
                f_be,
                (w1, w2),
                r,
            ),
{
    match endianness {
        Endianness::Little => {
            let w1 = ByteOrdered::new(inner1, StaticEndianness::new());
            let w2 = ByteOrdered::new(inner2, StaticEndianness::new());
            let ghost gw1 = w1;
            let ghost gw2 = w2;
            let r = f_le(w1, w2);
            proof {
                assert(gw1.spec_inner() == inner1 && call_ensures(f_le, (gw1, gw2), r));
            }
            r
        },
        Endianness::Big => {
            let w1 = ByteOrdered::new(inner1, StaticEndianness::new());
            let w2 = ByteOrdered::new(inner2, StaticEndianness::new());
            let ghost gw1 = w1;
            let ghost gw2 = w2;
            let r = f_be(w1, w2);
            proof {
                assert(gw1.spec_inner() == inner1 && call_ensures(f_be, (gw1, gw2), r));
            }
            r
        },
    }
}

} // verus!
