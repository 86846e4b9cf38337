//! Worked examples of the composition rules.
//!
//! The layout of a composite value is the concatenation of its fields'
//! encodings in declaration order, with no padding or prefixes; a
//! fixed-width enumeration stores the declared numeric discriminant of its
//! active variant in its representation type. A source-level code generator
//! for this format would emit implementations exactly like the ones here;
//! this module writes them out by hand, once per representative shape, and
//! proves them against the same contracts as every built-in implementation.
//! They double as the concrete types exercised by the test suite.

use vstd::prelude::*;

use crate::byteorder::ByteOrder;
use crate::extra::{BE, LE};
use crate::pack::Pack;
use crate::size::Size;
use crate::unpack::{Error, Roundtrip, Unpack};

verus! {

/// A two-field record: one byte, then one two-byte scalar.
#[derive(PartialEq, Eq, Clone, Copy, Debug)]
pub struct X {
    pub x: u8,
    pub y: u16,
}

impl Size for X {
    open spec fn spec_size() -> nat {
        u8::spec_size() + u16::spec_size()
    }

    fn size() -> usize {
        u8::size() + u16::size()
    }
}

impl Pack for X {
    open spec fn spec_pack(&self, order: ByteOrder) -> Seq<u8> {
        self.x.spec_pack(order) + self.y.spec_pack(order)
    }

    proof fn lemma_spec_pack_len(&self, order: ByteOrder) {
        self.x.lemma_spec_pack_len(order);
        self.y.lemma_spec_pack_len(order);
    }

    fn pack(&self, order: ByteOrder, buffer: &mut [u8], offset: usize) {
        (self.x, self.y).pack(order, buffer, offset);
    }
}

impl Unpack for X {
    open spec fn spec_unpack(order: ByteOrder, data: Seq<u8>) -> Result<Self, Error> {
        match <(u8, u16)>::spec_unpack(order, data) {
            Ok((x, y)) => Ok(X { x, y }),
            Err(e) => Err(e),
        }
    }

    fn unpack(order: ByteOrder, buffer: &[u8]) -> Result<Self, Error> {
        match <(u8, u16)>::unpack(order, buffer) {
            Ok((x, y)) => Ok(X { x, y }),
            Err(e) => Err(e),
        }
    }
}

impl Roundtrip for X {
    proof fn lemma_roundtrip(&self, order: ByteOrder) {
        (self.x, self.y).lemma_roundtrip(order);
    }
}

/// A record nesting two [`X`] records and a boolean.
#[derive(PartialEq, Eq, Clone, Copy, Debug)]
pub struct Y {
    pub x0: X,
    pub x1: X,
    pub x2: bool,
}

impl Size for Y {
    open spec fn spec_size() -> nat {
        X::spec_size() + X::spec_size() + bool::spec_size()
    }

    fn size() -> usize {
        X::size() + X::size() + bool::size()
    }
}

impl Pack for Y {
    open spec fn spec_pack(&self, order: ByteOrder) -> Seq<u8> {
        self.x0.spec_pack(order) + self.x1.spec_pack(order) + self.x2.spec_pack(order)
    }

    proof fn lemma_spec_pack_len(&self, order: ByteOrder) {
        self.x0.lemma_spec_pack_len(order);
        self.x1.lemma_spec_pack_len(order);
        self.x2.lemma_spec_pack_len(order);
    }

    fn pack(&self, order: ByteOrder, buffer: &mut [u8], offset: usize) {
        (self.x0, self.x1, self.x2).pack(order, buffer, offset);
    }
}

impl Unpack for Y {
    open spec fn spec_unpack(order: ByteOrder, data: Seq<u8>) -> Result<Self, Error> {
        match <(X, X, bool)>::spec_unpack(order, data) {
            Ok((x0, x1, x2)) => Ok(Y { x0, x1, x2 }),
            Err(e) => Err(e),
        }
    }

    fn unpack(order: ByteOrder, buffer: &[u8]) -> Result<Self, Error> {
        match <(X, X, bool)>::unpack(order, buffer) {
            Ok((x0, x1, x2)) => Ok(Y { x0, x1, x2 }),
            Err(e) => Err(e),
        }
    }
}

impl Roundtrip for Y {
    proof fn lemma_roundtrip(&self, order: ByteOrder) {
        (self.x0, self.x1, self.x2).lemma_roundtrip(order);
    }
}

/// A positional (tuple-style) record of an [`X`] and a [`Y`].
#[derive(PartialEq, Eq, Clone, Copy, Debug)]
pub struct Tuple(pub X, pub Y);

impl Size for Tuple {
    open spec fn spec_size() -> nat {
        X::spec_size() + Y::spec_size()
    }

    fn size() -> usize {
        X::size() + Y::size()
    }
}

impl Pack for Tuple {
    open spec fn spec_pack(&self, order: ByteOrder) -> Seq<u8> {
        self.0.spec_pack(order) + self.1.spec_pack(order)
    }

    proof fn lemma_spec_pack_len(&self, order: ByteOrder) {
        self.0.lemma_spec_pack_len(order);
        self.1.lemma_spec_pack_len(order);
    }

    fn pack(&self, order: ByteOrder, buffer: &mut [u8], offset: usize) {
        (self.0, self.1).pack(order, buffer, offset);
    }
}

impl Unpack for Tuple {
    open spec fn spec_unpack(order: ByteOrder, data: Seq<u8>) -> Result<Self, Error> {
        match <(X, Y)>::spec_unpack(order, data) {
            Ok((a, b)) => Ok(Tuple(a, b)),
            Err(e) => Err(e),
        }
    }

    fn unpack(order: ByteOrder, buffer: &[u8]) -> Result<Self, Error> {
        match <(X, Y)>::unpack(order, buffer) {
            Ok((a, b)) => Ok(Tuple(a, b)),
            Err(e) => Err(e),
        }
    }
}

impl Roundtrip for Tuple {
    proof fn lemma_roundtrip(&self, order: ByteOrder) {
        (self.0, self.1).lemma_roundtrip(order);
    }
}

/// A record with no fields: it encodes to no bytes at all.
#[derive(PartialEq, Eq, Clone, Copy, Debug)]
pub struct Unit;

impl Size for Unit {
    open spec fn spec_size() -> nat {
        0
    }

    fn size() -> usize {
        0
    }
}

impl Pack for Unit {
    open spec fn spec_pack(&self, order: ByteOrder) -> Seq<u8> {
        Seq::empty()
    }

    proof fn lemma_spec_pack_len(&self, order: ByteOrder) {
    }

    fn pack(&self, order: ByteOrder, buffer: &mut [u8], offset: usize) {
        proof {
            assert(final(buffer)@.subrange(offset as int, offset as int) =~= Seq::<u8>::empty());
        }
    }
}

impl Unpack for Unit {
    open spec fn spec_unpack(order: ByteOrder, data: Seq<u8>) -> Result<Self, Error> {
        Ok(Unit)
    }

    fn unpack(order: ByteOrder, buffer: &[u8]) -> Result<Self, Error> {
        Ok(Unit)
    }
}

impl Roundtrip for Unit {
    proof fn lemma_roundtrip(&self, order: ByteOrder) {
    }
}

/// A record that mixes byte orders: its first field is pinned little-endian
/// and its second field pinned big-endian, whatever the caller asks for.
#[derive(PartialEq, Eq, Clone, Copy, Debug)]
pub struct Mixed {
    pub le: LE<u16>,
    pub be: BE<u16>,
}

impl Size for Mixed {
    open spec fn spec_size() -> nat {
        LE::<u16>::spec_size() + BE::<u16>::spec_size()
    }

    fn size() -> usize {
        LE::<u16>::size() + BE::<u16>::size()
    }
}

impl Pack for Mixed {
    open spec fn spec_pack(&self, order: ByteOrder) -> Seq<u8> {
        self.le.spec_pack(order) + self.be.spec_pack(order)
    }

    proof fn lemma_spec_pack_len(&self, order: ByteOrder) {
        self.le.lemma_spec_pack_len(order);
        self.be.lemma_spec_pack_len(order);
    }

    fn pack(&self, order: ByteOrder, buffer: &mut [u8], offset: usize) {
        (self.le, self.be).pack(order, buffer, offset);
    }
}

impl Unpack for Mixed {
    open spec fn spec_unpack(order: ByteOrder, data: Seq<u8>) -> Result<Self, Error> {
        match <(LE<u16>, BE<u16>)>::spec_unpack(order, data) {
            Ok((le, be)) => Ok(Mixed { le, be }),
            Err(e) => Err(e),
        }
    }

    fn unpack(order: ByteOrder, buffer: &[u8]) -> Result<Self, Error> {
        match <(LE<u16>, BE<u16>)>::unpack(order, buffer) {
            Ok((le, be)) => Ok(Mixed { le, be }),
            Err(e) => Err(e),
        }
    }
}

impl Roundtrip for Mixed {
    proof fn lemma_roundtrip(&self, order: ByteOrder) {
        (self.le, self.be).lemma_roundtrip(order);
    }
}

/// A record whose fields all pin their own byte order encodes to the same
/// bytes whatever byte order is passed to its own encode call.
pub proof fn lemma_mixed_pack_order_independent(m: Mixed, o1: ByteOrder, o2: ByteOrder)
    ensures
        m.spec_pack(o1) == m.spec_pack(o2),
{
}

/// A record whose fields all pin their own byte order decodes a buffer to
/// the same outcome whatever byte order is passed to its own decode call.
pub proof fn lemma_mixed_unpack_order_independent(data: Seq<u8>, o1: ByteOrder, o2: ByteOrder)
    ensures
        Mixed::spec_unpack(o1, data) == Mixed::spec_unpack(o2, data),
{
}

/// A fixed-width enumeration with a one-byte representation and the
/// declared discriminants 1, 4 and 8.
#[derive(PartialEq, Eq, Clone, Copy, Debug)]
pub enum Code {
    A,
    B,
    C,
}

impl Code {
    /// The declared discriminant of each variant.
    pub open spec fn spec_discriminant(self) -> u8 {
        match self {
            Code::A => 1,
            Code::B => 4,
            Code::C => 8,
        }
    }

    /// Returns the declared discriminant of `self`.
    pub fn discriminant(&self) -> (d: u8)
        ensures
            d == self.spec_discriminant(),
    {
        match self {
            Code::A => 1,
            Code::B => 4,
            Code::C => 8,
        }
    }
}

impl Size for Code {
    open spec fn spec_size() -> nat {
        u8::spec_size()
    }

    fn size() -> usize {
        u8::size()
    }
}

impl Pack for Code {
    open spec fn spec_pack(&self, order: ByteOrder) -> Seq<u8> {
        self.spec_discriminant().spec_pack(order)
    }

    proof fn lemma_spec_pack_len(&self, order: ByteOrder) {
    }

    fn pack(&self, order: ByteOrder, buffer: &mut [u8], offset: usize) {
        self.discriminant().pack(order, buffer, offset);
    }
}

impl Unpack for Code {
    open spec fn spec_unpack(order: ByteOrder, data: Seq<u8>) -> Result<Self, Error> {
        let d = data[0];
        if d == 1 {
            Ok(Code::A)
        } else if d == 4 {
            Ok(Code::B)
        } else if d == 8 {
            Ok(Code::C)
        } else {
            Err(Error::InvalidEnumValueU8(d))
        }
    }

    fn unpack(order: ByteOrder, buffer: &[u8]) -> Result<Self, Error> {
        match u8::unpack(order, buffer) {
            Ok(d) => if d == 1 {
                Ok(Code::A)
            } else if d == 4 {
                Ok(Code::B)
            } else if d == 8 {
                Ok(Code::C)
            } else {
                Err(Error::InvalidEnumValueU8(d))
            },
            Err(e) => Err(e),
        }
    }
}

impl Roundtrip for Code {
    proof fn lemma_roundtrip(&self, order: ByteOrder) {
    }
}

/// A fixed-width enumeration with a four-byte signed representation and the
/// declared discriminants -9, 32 and 1.
#[derive(PartialEq, Eq, Clone, Copy, Debug)]
pub enum Wide {
    A,
    B,
    C,
}

impl Wide {
    /// The declared discriminant of each variant.
    pub open spec fn spec_discriminant(self) -> i32 {
        match self {
            Wide::A => -9i32,
            Wide::B => 32i32,
            Wide::C => 1i32,
        }
    }

    /// Returns the declared discriminant of `self`.
    pub fn discriminant(&self) -> (d: i32)
        ensures
            d == self.spec_discriminant(),
    {
        match self {
            Wide::A => -9,
            Wide::B => 32,
            Wide::C => 1,
        }
    }
}

impl Size for Wide {
    open spec fn spec_size() -> nat {
        i32::spec_size()
    }

    fn size() -> usize {
        i32::size()
    }
}

impl Pack for Wide {
    open spec fn spec_pack(&self, order: ByteOrder) -> Seq<u8> {
        self.spec_discriminant().spec_pack(order)
    }

    proof fn lemma_spec_pack_len(&self, order: ByteOrder) {
    }

    fn pack(&self, order: ByteOrder, buffer: &mut [u8], offset: usize) {
        self.discriminant().pack(order, buffer, offset);
    }
}

impl Unpack for Wide {
    open spec fn spec_unpack(order: ByteOrder, data: Seq<u8>) -> Result<Self, Error> {
        match i32::spec_unpack(order, data) {
            Ok(d) => {
                if d == -9 {
                    Ok(Wide::A)
                } else if d == 32 {
                    Ok(Wide::B)
                } else if d == 1 {
                    Ok(Wide::C)
                } else {
                    Err(Error::InvalidEnumValueI32(d))
                }
            },
            Err(e) => Err(e),
        }
    }

    fn unpack(order: ByteOrder, buffer: &[u8]) -> Result<Self, Error> {
        match i32::unpack(order, buffer) {
            Ok(d) => if d == -9 {
                Ok(Wide::A)
            } else if d == 32 {
                Ok(Wide::B)
            } else if d == 1 {
                Ok(Wide::C)
            } else {
                Err(Error::InvalidEnumValueI32(d))
            },
            Err(e) => Err(e),
        }
    }
}

impl Roundtrip for Wide {
    proof fn lemma_roundtrip(&self, order: ByteOrder) {
        self.spec_discriminant().lemma_roundtrip(order);
    }
}

/// The size of a fixed-width enumeration is the size of its representation
/// type, independent of the variant.
pub proof fn lemma_enum_size()
    ensures
        Code::spec_size() == u8::spec_size(),
        Wide::spec_size() == i32::spec_size(),
{
}

/// A leaf type whose decode can fail with a user-defined error code: it
/// reads a flag byte and a code byte, succeeds when the flag is nonzero and
/// otherwise reports the code. It exercises error propagation out of
/// composite decoders, in particular the cleanup path of array decoding.
#[derive(PartialEq, Eq, Clone, Copy, Debug)]
pub struct Fallible;

impl Size for Fallible {
    open spec fn spec_size() -> nat {
        <(bool, u8)>::spec_size()
    }

    fn size() -> usize {
        <(bool, u8)>::size()
    }
}

impl Unpack for Fallible {
    open spec fn spec_unpack(order: ByteOrder, data: Seq<u8>) -> Result<Self, Error> {
        if data[0] != 0 {
            Ok(Fallible)
        } else {
            Err(Error::Custom(data[1] as u32))
        }
    }

    fn unpack(order: ByteOrder, buffer: &[u8]) -> Result<Self, Error> {
        let ghost data = buffer@.subrange(0, Self::spec_size() as int);
        match <(bool, u8)>::unpack(order, buffer) {
            Ok((succeed, code)) => {
                proof {
                    assert(data.subrange(0, 1)[0] == data[0]);
                    assert(data.subrange(1, 2)[0] == data[1]);
                }
                if succeed {
                    Ok(Fallible)
                } else {
                    Err(Error::Custom(code as u32))
                }
            },
            Err(e) => Err(e),
        }
    }
}

/// A positional record wrapping a four-byte array.
#[derive(PartialEq, Eq, Clone, Copy, Debug)]
pub struct Echo(pub [u8; 4]);

impl Size for Echo {
    open spec fn spec_size() -> nat {
        <[u8; 4]>::spec_size()
    }

    fn size() -> usize {
        <[u8; 4]>::size()
    }
}

impl Pack for Echo {
    open spec fn spec_pack(&self, order: ByteOrder) -> Seq<u8> {
        self.0.spec_pack(order)
    }

    proof fn lemma_spec_pack_len(&self, order: ByteOrder) {
        self.0.lemma_spec_pack_len(order);
    }

    fn pack(&self, order: ByteOrder, buffer: &mut [u8], offset: usize) {
        self.0.pack(order, buffer, offset);
    }
}

impl Unpack for Echo {
    open spec fn spec_unpack(order: ByteOrder, data: Seq<u8>) -> Result<Self, Error> {
        match <[u8; 4]>::spec_unpack(order, data) {
            Ok(a) => Ok(Echo(a)),
            Err(e) => Err(e),
        }
    }

    fn unpack(order: ByteOrder, buffer: &[u8]) -> Result<Self, Error> {
        match <[u8; 4]>::unpack(order, buffer) {
            Ok(a) => Ok(Echo(a)),
            Err(e) => Err(e),
        }
    }
}

impl Roundtrip for Echo {
    proof fn lemma_roundtrip(&self, order: ByteOrder) {
        self.0.lemma_roundtrip(order);
    }
}

/// A generic record with a single field: it encodes exactly as its field.
#[derive(PartialEq, Eq, Clone, Copy, Debug)]
pub struct Wrap<T>(pub T);

impl<T: Size> Size for Wrap<T> {
    open spec fn spec_size() -> nat {
        T::spec_size()
    }

    fn size() -> usize {
        T::size()
    }
}

impl<T: Pack> Pack for Wrap<T> {
    open spec fn spec_pack(&self, order: ByteOrder) -> Seq<u8> {
        self.0.spec_pack(order)
    }

    proof fn lemma_spec_pack_len(&self, order: ByteOrder) {
        self.0.lemma_spec_pack_len(order);
    }

    fn pack(&self, order: ByteOrder, buffer: &mut [u8], offset: usize) {
        self.0.pack(order, buffer, offset);
    }
}

impl<T: Unpack> Unpack for Wrap<T> {
    open spec fn spec_unpack(order: ByteOrder, data: Seq<u8>) -> Result<Self, Error> {
        match T::spec_unpack(order, data) {
            Ok(x) => Ok(Wrap(x)),
            Err(e) => Err(e),
        }
    }

    fn unpack(order: ByteOrder, buffer: &[u8]) -> Result<Self, Error> {
        match T::unpack(order, buffer) {
            Ok(x) => Ok(Wrap(x)),
            Err(e) => Err(e),
        }
    }
}

impl<T: Roundtrip> Roundtrip for Wrap<T> {
    proof fn lemma_roundtrip(&self, order: ByteOrder) {
        self.0.lemma_roundtrip(order);
    }
}

/// A generic two-field record.
#[derive(PartialEq, Eq, Clone, Copy, Debug)]
pub struct Pair<L, R> {
    pub left: L,
    pub right: R,
}

impl<L: Size, R: Size> Size for Pair<L, R> {
    open spec fn spec_size() -> nat {
        L::spec_size() + R::spec_size()
    }

    fn size() -> usize {
        L::size() + R::size()
    }
}

impl<L: Pack, R: Pack> Pack for Pair<L, R> {
    open spec fn spec_pack(&self, order: ByteOrder) -> Seq<u8> {
        self.left.spec_pack(order) + self.right.spec_pack(order)
    }

    proof fn lemma_spec_pack_len(&self, order: ByteOrder) {
        self.left.lemma_spec_pack_len(order);
        self.right.lemma_spec_pack_len(order);
    }

    fn pack(&self, order: ByteOrder, buffer: &mut [u8], offset: usize) {
        (&self.left, &self.right).pack(order, buffer, offset);
    }
}

impl<L: Unpack, R: Unpack> Unpack for Pair<L, R> {
    open spec fn spec_unpack(order: ByteOrder, data: Seq<u8>) -> Result<Self, Error> {
        match <(L, R)>::spec_unpack(order, data) {
            Ok((left, right)) => Ok(Pair { left, right }),
            Err(e) => Err(e),
        }
    }

    fn unpack(order: ByteOrder, buffer: &[u8]) -> Result<Self, Error> {
        match <(L, R)>::unpack(order, buffer) {
            Ok((left, right)) => Ok(Pair { left, right }),
            Err(e) => Err(e),
        }
    }
}

impl<L: Roundtrip, R: Roundtrip> Roundtrip for Pair<L, R> {
    proof fn lemma_roundtrip(&self, order: ByteOrder) {
        (self.left, self.right).lemma_roundtrip(order);
    }
}

/// A record holding an instantiated generic field.
#[derive(PartialEq, Eq, Clone, Copy, Debug)]
pub struct HasField {
    pub wrap: Wrap<u32>,
}

impl Size for HasField {
    open spec fn spec_size() -> nat {
        Wrap::<u32>::spec_size()
    }

    fn size() -> usize {
        Wrap::<u32>::size()
    }
}

impl Pack for HasField {
    open spec fn spec_pack(&self, order: ByteOrder) -> Seq<u8> {
        self.wrap.spec_pack(order)
    }

    proof fn lemma_spec_pack_len(&self, order: ByteOrder) {
        self.wrap.lemma_spec_pack_len(order);
    }

    fn pack(&self, order: ByteOrder, buffer: &mut [u8], offset: usize) {
        self.wrap.pack(order, buffer, offset);
    }
}

impl Unpack for HasField {
    open spec fn spec_unpack(order: ByteOrder, data: Seq<u8>) -> Result<Self, Error> {
        match Wrap::<u32>::spec_unpack(order, data) {
            Ok(wrap) => Ok(HasField { wrap }),
            Err(e) => Err(e),
        }
    }

    fn unpack(order: ByteOrder, buffer: &[u8]) -> Result<Self, Error> {
        match Wrap::<u32>::unpack(order, buffer) {
            Ok(wrap) => Ok(HasField { wrap }),
            Err(e) => Err(e),
        }
    }
}

impl Roundtrip for HasField {
    proof fn lemma_roundtrip(&self, order: ByteOrder) {
        self.wrap.lemma_roundtrip(order);
    }
}

/// A generic record mixing a generic field with a plain one.
#[derive(PartialEq, Eq, Clone, Copy, Debug)]
pub struct HasGenericField<T> {
    pub wrap: Wrap<T>,
    pub x: bool,
}

impl<T: Size> Size for HasGenericField<T> {
    open spec fn spec_size() -> nat {
        Wrap::<T>::spec_size() + bool::spec_size()
    }

    fn size() -> usize {
        Wrap::<T>::size() + bool::size()
    }
}

impl<T: Pack> Pack for HasGenericField<T> {
    open spec fn spec_pack(&self, order: ByteOrder) -> Seq<u8> {
        self.wrap.spec_pack(order) + self.x.spec_pack(order)
    }

    proof fn lemma_spec_pack_len(&self, order: ByteOrder) {
        self.wrap.lemma_spec_pack_len(order);
        self.x.lemma_spec_pack_len(order);
    }

    fn pack(&self, order: ByteOrder, buffer: &mut [u8], offset: usize) {
        (&self.wrap, &self.x).pack(order, buffer, offset);
    }
}

impl<T: Unpack> Unpack for HasGenericField<T> {
    open spec fn spec_unpack(order: ByteOrder, data: Seq<u8>) -> Result<Self, Error> {
        match <(Wrap<T>, bool)>::spec_unpack(order, data) {
            Ok((wrap, x)) => Ok(HasGenericField { wrap, x }),
            Err(e) => Err(e),
        }
    }

    fn unpack(order: ByteOrder, buffer: &[u8]) -> Result<Self, Error> {
        match <(Wrap<T>, bool)>::unpack(order, buffer) {
            Ok((wrap, x)) => Ok(HasGenericField { wrap, x }),
            Err(e) => Err(e),
        }
    }
}

impl<T: Roundtrip> Roundtrip for HasGenericField<T> {
    proof fn lemma_roundtrip(&self, order: ByteOrder) {
        (self.wrap, self.x).lemma_roundtrip(order);
    }
}

} // verus!
