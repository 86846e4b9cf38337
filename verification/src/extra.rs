//! Additional utilities: fixed byte-order wrappers and convenience traits.

use vstd::prelude::*;

use crate::byteorder::ByteOrder;
use crate::pack::Pack;
use crate::size::Size;
use crate::unpack::{Error, Roundtrip, Unpack};

verus! {

/// A wrapper that always encodes the wrapped value as little endian,
/// whatever byte order the enclosing context asks for.
///
/// The wrapper adds no bytes: its encoded size is the wrapped type's size.
#[derive(Debug, PartialEq, Eq, Hash, PartialOrd, Ord, Clone, Copy)]
pub struct LE<T>(pub T);

/// A wrapper that always encodes the wrapped value as big endian,
/// whatever byte order the enclosing context asks for.
///
/// The wrapper adds no bytes: its encoded size is the wrapped type's size.
#[derive(Debug, PartialEq, Eq, Hash, PartialOrd, Ord, Clone, Copy)]
pub struct BE<T>(pub T);

impl<T: Size> Size for LE<T> {
    open spec fn spec_size() -> nat {
        T::spec_size()
    }

    fn size() -> usize {
        T::size()
    }
}

impl<T: Size> Size for BE<T> {
    open spec fn spec_size() -> nat {
        T::spec_size()
    }

    fn size() -> usize {
        T::size()
    }
}

impl<T: Pack> Pack for LE<T> {
    open spec fn spec_pack(&self, order: ByteOrder) -> Seq<u8> {
        self.0.spec_pack(ByteOrder::Little)
    }

    proof fn lemma_spec_pack_len(&self, order: ByteOrder) {
        self.0.lemma_spec_pack_len(ByteOrder::Little);
    }

    fn pack(&self, order: ByteOrder, buffer: &mut [u8], offset: usize) {
        self.0.pack(ByteOrder::Little, buffer, offset);
    }
}

impl<T: Pack> Pack for BE<T> {
    open spec fn spec_pack(&self, order: ByteOrder) -> Seq<u8> {
        self.0.spec_pack(ByteOrder::Big)
    }

    proof fn lemma_spec_pack_len(&self, order: ByteOrder) {
        self.0.lemma_spec_pack_len(ByteOrder::Big);
    }

    fn pack(&self, order: ByteOrder, buffer: &mut [u8], offset: usize) {
        self.0.pack(ByteOrder::Big, buffer, offset);
    }
}

impl<T: Unpack> Unpack for LE<T> {
    open spec fn spec_unpack(order: ByteOrder, data: Seq<u8>) -> Result<Self, Error> {
        match T::spec_unpack(ByteOrder::Little, data) {
            Ok(x) => Ok(LE(x)),
            Err(e) => Err(e),
        }
    }

    fn unpack(order: ByteOrder, buffer: &[u8]) -> Result<Self, Error> {
        match T::unpack(ByteOrder::Little, buffer) {
            Ok(x) => Ok(LE(x)),
            Err(e) => Err(e),
        }
    }
}

impl<T: Unpack> Unpack for BE<T> {
    open spec fn spec_unpack(order: ByteOrder, data: Seq<u8>) -> Result<Self, Error> {
        match T::spec_unpack(ByteOrder::Big, data) {
            Ok(x) => Ok(BE(x)),
            Err(e) => Err(e),
        }
    }

    fn unpack(order: ByteOrder, buffer: &[u8]) -> Result<Self, Error> {
        match T::unpack(ByteOrder::Big, buffer) {
            Ok(x) => Ok(BE(x)),
            Err(e) => Err(e),
        }
    }
}

impl<T: Roundtrip> Roundtrip for LE<T> {
    proof fn lemma_roundtrip(&self, order: ByteOrder) {
        self.0.lemma_roundtrip(ByteOrder::Little);
    }
}

impl<T: Roundtrip> Roundtrip for BE<T> {
    proof fn lemma_roundtrip(&self, order: ByteOrder) {
        self.0.lemma_roundtrip(ByteOrder::Big);
    }
}

/// A little-endian wrapper encodes the same bytes whatever byte order the
/// enclosing context asks for.
pub proof fn lemma_le_pack_order_independent<T: Pack>(v: LE<T>, o1: ByteOrder, o2: ByteOrder)
    ensures
        v.spec_pack(o1) == v.spec_pack(o2),
{
}

/// A big-endian wrapper encodes the same bytes whatever byte order the
/// enclosing context asks for.
pub proof fn lemma_be_pack_order_independent<T: Pack>(v: BE<T>, o1: ByteOrder, o2: ByteOrder)
    ensures
        v.spec_pack(o1) == v.spec_pack(o2),
{
}

/// A little-endian wrapper decodes a buffer to the same outcome whatever
/// byte order the enclosing context asks for.
pub proof fn lemma_le_unpack_order_independent<T: Unpack>(
    data: Seq<u8>,
    o1: ByteOrder,
    o2: ByteOrder,
)
    ensures
        LE::<T>::spec_unpack(o1, data) == LE::<T>::spec_unpack(o2, data),
{
}

/// A big-endian wrapper decodes a buffer to the same outcome whatever byte
/// order the enclosing context asks for.
pub proof fn lemma_be_unpack_order_independent<T: Unpack>(
    data: Seq<u8>,
    o1: ByteOrder,
    o2: ByteOrder,
)
    ensures
        BE::<T>::spec_unpack(o1, data) == BE::<T>::spec_unpack(o2, data),
{
}

/// A small convenience trait similar to [`Into`] and [`TryInto`], decoding
/// `self` as a binary buffer.
pub trait UnpackInto<T: Unpack> {
    /// The bytes of `self` as a buffer.
    spec fn spec_data(&self) -> Seq<u8>;

    /// Decodes to a target type. The buffer must hold the target's encoded
    /// size; [`UnpackInto::unpack_safely_into`] checks this instead.
    fn unpack_into(self, order: ByteOrder) -> (r: Result<T, Error>) where Self: Sized
        requires
            T::spec_size() <= self.spec_data().len(),
        ensures
            r == T::spec_unpack(order, self.spec_data().subrange(0, T::spec_size() as int)),
    ;

    /// Decodes to a target type, erroring if the buffer is too small.
    fn unpack_safely_into(self, order: ByteOrder) -> (r: Result<T, Error>) where Self: Sized
        requires
            T::spec_size() <= usize::MAX,
        ensures
            self.spec_data().len() >= T::spec_size() ==> r == T::spec_unpack(
                order,
                self.spec_data().subrange(0, T::spec_size() as int),
            ),
            self.spec_data().len() < T::spec_size() ==> (r matches Err(
                Error::BufferTooSmall { actual, expected },
            ) && actual == self.spec_data().len() && expected == T::spec_size()),
    ;
}

impl<T: Unpack> UnpackInto<T> for &[u8] {
    open spec fn spec_data(&self) -> Seq<u8> {
        self@
    }

    fn unpack_into(self, order: ByteOrder) -> Result<T, Error> {
        T::unpack(order, self)
    }

    fn unpack_safely_into(self, order: ByteOrder) -> Result<T, Error> {
        T::unpack_safely(order, self)
    }
}

/// A small convenience trait that combines [`Pack`] and [`Size`]: encode
/// and learn the encoded size in one call.
pub trait PackSize: Pack {
    /// Encodes `self` into `buffer[offset..offset + Self::spec_size()]`
    /// under `order` and returns the encoded size.
    fn pack_size(&self, order: ByteOrder, buffer: &mut [u8], offset: usize) -> (n: usize)
        requires
            offset + Self::spec_size() <= old(buffer).len(),
        ensures
            n == Self::spec_size(),
            final(buffer)@.len() == old(buffer)@.len(),
            final(buffer)@.subrange(offset as int, offset + Self::spec_size()) == self.spec_pack(
                order,
            ),
            forall|i: int|
                0 <= i < old(buffer)@.len() && !(offset <= i < offset + Self::spec_size())
                    ==> final(buffer)@[i] == old(buffer)@[i],
    ;
}

impl<T: Pack> PackSize for T {
    fn pack_size(&self, order: ByteOrder, buffer: &mut [u8], offset: usize) -> usize {
        self.pack(order, buffer, offset);
        Self::size()
    }
}

} // verus!
