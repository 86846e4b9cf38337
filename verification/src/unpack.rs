//! The [`Unpack`] trait, the decode error type and primitive implementations.

use vstd::prelude::*;

use crate::byteorder::{
    lemma_u16_roundtrip, lemma_u32_roundtrip, lemma_u64_roundtrip, read_u16, read_u32, read_u64,
    spec_read_u16, spec_read_u32, spec_read_u64, ByteOrder,
};
use crate::pack::Pack;
use crate::size::Size;
use vstd::slice::slice_subrange;

verus! {

/// An error during unpacking.
///
/// Decoding is total: every buffer of sufficient length either decodes to a
/// value or to one of these errors; there is no panic path.
#[derive(Debug, PartialEq, Eq, Clone, Copy, Hash)]
pub enum Error {
    /// The decoded 32-bit value is not a valid Unicode scalar value.
    InvalidChar(u32),
    /// The decoded value matches no declared discriminant of an enum with a
    /// `u8` representation.
    InvalidEnumValueU8(u8),
    /// As [`Error::InvalidEnumValueU8`], for a `u16` representation.
    InvalidEnumValueU16(u16),
    /// As [`Error::InvalidEnumValueU8`], for a `u32` representation.
    InvalidEnumValueU32(u32),
    /// As [`Error::InvalidEnumValueU8`], for a `u64` representation.
    InvalidEnumValueU64(u64),
    /// As [`Error::InvalidEnumValueU8`], for an `i8` representation.
    InvalidEnumValueI8(i8),
    /// As [`Error::InvalidEnumValueU8`], for an `i16` representation.
    InvalidEnumValueI16(i16),
    /// As [`Error::InvalidEnumValueU8`], for an `i32` representation.
    InvalidEnumValueI32(i32),
    /// As [`Error::InvalidEnumValueU8`], for an `i64` representation.
    InvalidEnumValueI64(i64),
    /// The buffer is shorter than the type's encoded size.
    BufferTooSmall { actual: usize, expected: usize },
    /// A user-defined error with some user-defined error code.
    Custom(u32),
}

/// Types that can be decoded from a binary representation.
///
/// [`Unpack::spec_unpack`] is the specification-level decoder: the exact
/// outcome (value or error) of decoding the first [`Size::spec_size`] bytes
/// of a byte sequence under a byte order. [`Unpack::unpack`] assumes the
/// buffer is long enough; [`Unpack::unpack_safely`] checks the length first
/// and reports [`Error::BufferTooSmall`]. Trailing bytes beyond the encoded
/// size are tolerated and never inspected.
pub trait Unpack: Size + Sized {
    /// The outcome of decoding the first [`Size::spec_size`] bytes of `data`
    /// under `order`.
    spec fn spec_unpack(order: ByteOrder, data: Seq<u8>) -> Result<Self, Error>;

    /// Decodes the type from a binary representation.
    ///
    /// The caller must supply a buffer of at least [`Size::spec_size`]
    /// bytes; [`Unpack::unpack_safely`] checks this instead.
    fn unpack(order: ByteOrder, buffer: &[u8]) -> (r: Result<Self, Error>)
        requires
            Self::spec_size() <= buffer.len(),
        ensures
            r == Self::spec_unpack(order, buffer@.subrange(0, Self::spec_size() as int)),
    ;

    /// Decodes the type and returns an error if the buffer is too small.
    fn unpack_safely(order: ByteOrder, buffer: &[u8]) -> (r: Result<Self, Error>)
        requires
            Self::spec_size() <= usize::MAX,
        ensures
            buffer.len() >= Self::spec_size() ==> r == Self::spec_unpack(
                order,
                buffer@.subrange(0, Self::spec_size() as int),
            ),
            buffer.len() < Self::spec_size() ==> (r matches Err(
                Error::BufferTooSmall { actual, expected },
            ) && actual == buffer@.len() && expected == Self::spec_size()),
    {
        let n = Self::size();
        if buffer.len() < n {
            Err(Error::BufferTooSmall { actual: buffer.len(), expected: n })
        } else {
            Self::unpack(order, buffer)
        }
    }
}

/// Types whose decode inverts their encode.
///
/// This is the round-trip law: for every value and either byte order,
/// decoding the encoding of the value succeeds and yields exactly that
/// value. Every codec type of this crate implements it, so the law is proved
/// anew for each composite shape.
pub trait Roundtrip: Pack + Unpack {
    /// Decoding the encoding of `self` yields `self`, under either byte
    /// order.
    proof fn lemma_roundtrip(&self, order: ByteOrder)
        ensures
            Self::spec_unpack(order, self.spec_pack(order)) == Result::<Self, Error>::Ok(*self),
    ;
}

impl Unpack for u8 {
    open spec fn spec_unpack(order: ByteOrder, data: Seq<u8>) -> Result<Self, Error> {
        Ok(data[0])
    }

    fn unpack(order: ByteOrder, buffer: &[u8]) -> Result<Self, Error> {
        Ok(buffer[0])
    }
}

impl Roundtrip for u8 {
    proof fn lemma_roundtrip(&self, order: ByteOrder) {
    }
}

impl Unpack for u16 {
    open spec fn spec_unpack(order: ByteOrder, data: Seq<u8>) -> Result<Self, Error> {
        Ok(spec_read_u16(order, data))
    }

    fn unpack(order: ByteOrder, buffer: &[u8]) -> Result<Self, Error> {
        Ok(read_u16(order, buffer))
    }
}

impl Roundtrip for u16 {
    proof fn lemma_roundtrip(&self, order: ByteOrder) {
        lemma_u16_roundtrip(order, *self);
    }
}

impl Unpack for u32 {
    open spec fn spec_unpack(order: ByteOrder, data: Seq<u8>) -> Result<Self, Error> {
        Ok(spec_read_u32(order, data))
    }

    fn unpack(order: ByteOrder, buffer: &[u8]) -> Result<Self, Error> {
        Ok(read_u32(order, buffer))
    }
}

impl Roundtrip for u32 {
    proof fn lemma_roundtrip(&self, order: ByteOrder) {
        lemma_u32_roundtrip(order, *self);
    }
}

impl Unpack for u64 {
    open spec fn spec_unpack(order: ByteOrder, data: Seq<u8>) -> Result<Self, Error> {
        Ok(spec_read_u64(order, data))
    }

    fn unpack(order: ByteOrder, buffer: &[u8]) -> Result<Self, Error> {
        Ok(read_u64(order, buffer))
    }
}

impl Roundtrip for u64 {
    proof fn lemma_roundtrip(&self, order: ByteOrder) {
        lemma_u64_roundtrip(order, *self);
    }
}

impl Unpack for i8 {
    open spec fn spec_unpack(order: ByteOrder, data: Seq<u8>) -> Result<Self, Error> {
        Ok(data[0] as i8)
    }

    fn unpack(order: ByteOrder, buffer: &[u8]) -> Result<Self, Error> {
        Ok(
            #[verifier::truncate]
            (buffer[0] as i8),
        )
    }
}

impl Roundtrip for i8 {
    proof fn lemma_roundtrip(&self, order: ByteOrder) {
        let v = *self;
        assert((v as u8) as i8 == v) by (bit_vector);
    }
}

impl Unpack for i16 {
    open spec fn spec_unpack(order: ByteOrder, data: Seq<u8>) -> Result<Self, Error> {
        Ok(spec_read_u16(order, data) as i16)
    }

    fn unpack(order: ByteOrder, buffer: &[u8]) -> Result<Self, Error> {
        Ok(
            #[verifier::truncate]
            (read_u16(order, buffer) as i16),
        )
    }
}

impl Roundtrip for i16 {
    proof fn lemma_roundtrip(&self, order: ByteOrder) {
        let v = *self;
        lemma_u16_roundtrip(order, v as u16);
        assert((v as u16) as i16 == v) by (bit_vector);
    }
}

impl Unpack for i32 {
    open spec fn spec_unpack(order: ByteOrder, data: Seq<u8>) -> Result<Self, Error> {
        Ok(spec_read_u32(order, data) as i32)
    }

    fn unpack(order: ByteOrder, buffer: &[u8]) -> Result<Self, Error> {
        Ok(
            #[verifier::truncate]
            (read_u32(order, buffer) as i32),
        )
    }
}

impl Roundtrip for i32 {
    proof fn lemma_roundtrip(&self, order: ByteOrder) {
        let v = *self;
        lemma_u32_roundtrip(order, v as u32);
        assert((v as u32) as i32 == v) by (bit_vector);
    }
}

impl Unpack for i64 {
    open spec fn spec_unpack(order: ByteOrder, data: Seq<u8>) -> Result<Self, Error> {
        Ok(spec_read_u64(order, data) as i64)
    }

    fn unpack(order: ByteOrder, buffer: &[u8]) -> Result<Self, Error> {
        Ok(
            #[verifier::truncate]
            (read_u64(order, buffer) as i64),
        )
    }
}

impl Roundtrip for i64 {
    proof fn lemma_roundtrip(&self, order: ByteOrder) {
        let v = *self;
        lemma_u64_roundtrip(order, v as u64);
        assert((v as u64) as i64 == v) by (bit_vector);
    }
}

impl Unpack for bool {
    open spec fn spec_unpack(order: ByteOrder, data: Seq<u8>) -> Result<Self, Error> {
        Ok(data[0] != 0)
    }

    fn unpack(order: ByteOrder, buffer: &[u8]) -> Result<Self, Error> {
        Ok(buffer[0] != 0)
    }
}

impl Roundtrip for bool {
    proof fn lemma_roundtrip(&self, order: ByteOrder) {
    }
}

/// True when `v` is a Unicode scalar value, i.e. a valid `char` code: any
/// code point up to 0x10FFFF other than the surrogates 0xD800..=0xDFFF.
pub open spec fn spec_valid_char(v: u32) -> bool {
    v <= 0xD7FF || (0xE000 <= v && v <= 0x10FFFF)
}

/// Relies on `char::from_u32`: returns `Some` exactly for Unicode scalar
/// values (all code points up to 0x10FFFF except the surrogate range), and
/// the returned `char` carries the same code point as the argument.
#[verifier::external_body]
fn char_from_u32(v: u32) -> (r: Option<char>)
    ensures
        r matches Some(c) ==> c as u32 == v,
        r is Some <==> spec_valid_char(v),
{
    char::from_u32(v)
}

impl Unpack for char {
    open spec fn spec_unpack(order: ByteOrder, data: Seq<u8>) -> Result<Self, Error> {
        let v = spec_read_u32(order, data);
        if spec_valid_char(v) {
            Ok(v as char)
        } else {
            Err(Error::InvalidChar(v))
        }
    }

    fn unpack(order: ByteOrder, buffer: &[u8]) -> Result<Self, Error> {
        let v = read_u32(order, buffer);
        match char_from_u32(v) {
            Some(c) => {
                proof {
                    vstd::utf8::char_u32_cast(c, v);
                }
                Ok(c)
            },
            None => Err(Error::InvalidChar(v)),
        }
    }
}

impl Roundtrip for char {
    proof fn lemma_roundtrip(&self, order: ByteOrder) {
        let v = *self as u32;
        lemma_u32_roundtrip(order, v);
        vstd::utf8::char_is_scalar(*self);
        vstd::utf8::char_u32_cast(*self, v);
    }
}

impl Unpack for () {
    open spec fn spec_unpack(order: ByteOrder, data: Seq<u8>) -> Result<Self, Error> {
        Ok(())
    }

    fn unpack(order: ByteOrder, buffer: &[u8]) -> Result<Self, Error> {
        Ok(())
    }
}

impl Roundtrip for () {
    proof fn lemma_roundtrip(&self, order: ByteOrder) {
    }
}

impl<T1: Unpack> Unpack for (T1,) {
    open spec fn spec_unpack(order: ByteOrder, data: Seq<u8>) -> Result<Self, Error> {
        match T1::spec_unpack(order, data) {
            Ok(x1) => Ok((x1,)),
            Err(e) => Err(e),
        }
    }

    fn unpack(order: ByteOrder, buffer: &[u8]) -> Result<Self, Error> {
        match T1::unpack(order, buffer) {
            Ok(x1) => Ok((x1,)),
            Err(e) => Err(e),
        }
    }
}

impl<T1: Roundtrip> Roundtrip for (T1,) {
    proof fn lemma_roundtrip(&self, order: ByteOrder) {
        self.0.lemma_roundtrip(order);
    }
}

impl<T1: Unpack, T2: Unpack> Unpack for (T1, T2) {
    open spec fn spec_unpack(order: ByteOrder, data: Seq<u8>) -> Result<Self, Error> {
        let s1 = T1::spec_size() as int;
        let s2 = T2::spec_size() as int;
        match T1::spec_unpack(order, data.subrange(0, s1)) {
            Ok(x1) => match T2::spec_unpack(order, data.subrange(s1, s1 + s2)) {
                Ok(x2) => Ok((x1, x2)),
                Err(e) => Err(e),
            },
            Err(e) => Err(e),
        }
    }

    fn unpack(order: ByteOrder, buffer: &[u8]) -> Result<Self, Error> {
        let ghost data = buffer@.subrange(0, Self::spec_size() as int);
        let s1 = T1::size();
        proof {
            assert(data.subrange(0, T1::spec_size() as int) =~= buffer@.subrange(
                0,
                T1::spec_size() as int,
            ));
        }
        let x1 = match T1::unpack(order, buffer) {
            Ok(x) => x,
            Err(e) => {
                return Err(e);
            },
        };
        let rest = slice_subrange(buffer, s1, buffer.len());
        proof {
            assert(data.subrange(s1 as int, s1 + T2::spec_size()) =~= rest@.subrange(
                0,
                T2::spec_size() as int,
            ));
        }
        let x2 = match T2::unpack(order, rest) {
            Ok(x) => x,
            Err(e) => {
                return Err(e);
            },
        };
        Ok((x1, x2))
    }
}

impl<T1: Roundtrip, T2: Roundtrip> Roundtrip for (T1, T2) {
    proof fn lemma_roundtrip(&self, order: ByteOrder) {
        self.0.lemma_spec_pack_len(order);
        self.1.lemma_spec_pack_len(order);
        self.0.lemma_roundtrip(order);
        self.1.lemma_roundtrip(order);
        let d = self.spec_pack(order);
        assert(d.subrange(0, T1::spec_size() as int) =~= self.0.spec_pack(order));
        assert(d.subrange(
            T1::spec_size() as int,
            T1::spec_size() + T2::spec_size() as int,
        ) =~= self.1.spec_pack(order));
    }
}

impl<T: Unpack> Unpack for Option<T> {
    open spec fn spec_unpack(order: ByteOrder, data: Seq<u8>) -> Result<Self, Error> {
        if data[0] != 0 {
            match T::spec_unpack(order, data.subrange(1, 1 + T::spec_size() as int)) {
                Ok(x) => Ok(Some(x)),
                Err(e) => Err(e),
            }
        } else {
            Ok(None)
        }
    }

    fn unpack(order: ByteOrder, buffer: &[u8]) -> Result<Self, Error> {
        let ghost data = buffer@.subrange(0, Self::spec_size() as int);
        let flag = buffer[0];
        if flag != 0 {
            let rest = slice_subrange(buffer, 1, buffer.len());
            proof {
                assert(data.subrange(1, 1 + T::spec_size() as int) =~= rest@.subrange(
                    0,
                    T::spec_size() as int,
                ));
            }
            match T::unpack(order, rest) {
                Ok(x) => Ok(Some(x)),
                Err(e) => Err(e),
            }
        } else {
            Ok(None)
        }
    }
}

impl<T: Roundtrip> Roundtrip for Option<T> {
    proof fn lemma_roundtrip(&self, order: ByteOrder) {
        match self {
            Some(x) => {
                x.lemma_spec_pack_len(order);
                x.lemma_roundtrip(order);
                let d = self.spec_pack(order);
                assert(d.subrange(1, 1 + T::spec_size() as int) =~= x.spec_pack(order));
            },
            None => (),
        }
    }
}

impl<T1: Unpack, T2: Unpack, T3: Unpack> Unpack for (T1, T2, T3) {
    open spec fn spec_unpack(order: ByteOrder, data: Seq<u8>) -> Result<Self, Error> {
        let s1 = T1::spec_size() as int;
        let s2 = T2::spec_size() as int;
        let s3 = T3::spec_size() as int;
        match T1::spec_unpack(order, data.subrange(0, s1)) {
            Ok(x1) => match T2::spec_unpack(order, data.subrange(s1, s1 + s2)) {
                Ok(x2) => match T3::spec_unpack(order, data.subrange(s1 + s2, s1 + s2 + s3)) {
                    Ok(x3) => Ok((x1, x2, x3)),
                    Err(e) => Err(e),
                },
                Err(e) => Err(e),
            },
            Err(e) => Err(e),
        }
    }

    fn unpack(order: ByteOrder, buffer: &[u8]) -> Result<Self, Error> {
        let ghost data = buffer@.subrange(0, Self::spec_size() as int);
        let s1 = T1::size();
        let s2 = T2::size();
        proof {
            assert(data.subrange(0, T1::spec_size() as int) =~= buffer@.subrange(
                0,
                T1::spec_size() as int,
            ));
        }
        let x1 = match T1::unpack(order, buffer) {
            Ok(x) => x,
            Err(e) => {
                return Err(e);
            },
        };
        let rest1 = slice_subrange(buffer, s1, buffer.len());
        proof {
            assert(data.subrange(s1 as int, s1 + T2::spec_size()) =~= rest1@.subrange(
                0,
                T2::spec_size() as int,
            ));
        }
        let x2 = match T2::unpack(order, rest1) {
            Ok(x) => x,
            Err(e) => {
                return Err(e);
            },
        };
        let rest2 = slice_subrange(buffer, s1 + s2, buffer.len());
        proof {
            assert(data.subrange(s1 + s2 as int, s1 + s2 + T3::spec_size()) =~= rest2@.subrange(
                0,
                T3::spec_size() as int,
            ));
        }
        let x3 = match T3::unpack(order, rest2) {
            Ok(x) => x,
            Err(e) => {
                return Err(e);
            },
        };
        Ok((x1, x2, x3))
    }
}

impl<T1: Roundtrip, T2: Roundtrip, T3: Roundtrip> Roundtrip for (T1, T2, T3) {
    proof fn lemma_roundtrip(&self, order: ByteOrder) {
        self.0.lemma_spec_pack_len(order);
        self.1.lemma_spec_pack_len(order);
        self.2.lemma_spec_pack_len(order);
        self.0.lemma_roundtrip(order);
        self.1.lemma_roundtrip(order);
        self.2.lemma_roundtrip(order);
        let d = self.spec_pack(order);
        let s1 = T1::spec_size() as int;
        let s2 = T2::spec_size() as int;
        let s3 = T3::spec_size() as int;
        assert(d.subrange(0, s1) =~= self.0.spec_pack(order));
        assert(d.subrange(s1, s1 + s2) =~= self.1.spec_pack(order));
        assert(d.subrange(s1 + s2, s1 + s2 + s3) =~= self.2.spec_pack(order));
    }
}

impl<T1: Unpack, T2: Unpack, T3: Unpack, T4: Unpack> Unpack for (T1, T2, T3, T4) {
    open spec fn spec_unpack(order: ByteOrder, data: Seq<u8>) -> Result<Self, Error> {
        let s1 = T1::spec_size() as int;
        let s2 = T2::spec_size() as int;
        let s3 = T3::spec_size() as int;
        let s4 = T4::spec_size() as int;
        match T1::spec_unpack(order, data.subrange(0, s1)) {
            Ok(x1) => match T2::spec_unpack(order, data.subrange(s1, s1 + s2)) {
                Ok(x2) => match T3::spec_unpack(order, data.subrange(s1 + s2, s1 + s2 + s3)) {
                    Ok(x3) => match T4::spec_unpack(
                        order,
                        data.subrange(s1 + s2 + s3, s1 + s2 + s3 + s4),
                    ) {
                        Ok(x4) => Ok((x1, x2, x3, x4)),
                        Err(e) => Err(e),
                    },
                    Err(e) => Err(e),
                },
                Err(e) => Err(e),
            },
            Err(e) => Err(e),
        }
    }

    fn unpack(order: ByteOrder, buffer: &[u8]) -> Result<Self, Error> {
        let ghost data = buffer@.subrange(0, Self::spec_size() as int);
        let s1 = T1::size();
        let s2 = T2::size();
        let s3 = T3::size();
        proof {
            assert(data.subrange(0, T1::spec_size() as int) =~= buffer@.subrange(
                0,
                T1::spec_size() as int,
            ));
        }
        let x1 = match T1::unpack(order, buffer) {
            Ok(x) => x,
            Err(e) => {
                return Err(e);
            },
        };
        let rest1 = slice_subrange(buffer, s1, buffer.len());
        proof {
            assert(data.subrange(s1 as int, s1 + T2::spec_size()) =~= rest1@.subrange(
                0,
                T2::spec_size() as int,
            ));
        }
        let x2 = match T2::unpack(order, rest1) {
            Ok(x) => x,
            Err(e) => {
                return Err(e);
            },
        };
        let rest2 = slice_subrange(buffer, s1 + s2, buffer.len());
        proof {
            assert(data.subrange(s1 + s2 as int, s1 + s2 + T3::spec_size()) =~= rest2@.subrange(
                0,
                T3::spec_size() as int,
            ));
        }
        let x3 = match T3::unpack(order, rest2) {
            Ok(x) => x,
            Err(e) => {
                return Err(e);
            },
        };
        let rest3 = slice_subrange(buffer, s1 + s2 + s3, buffer.len());
        proof {
            assert(data.subrange(
                s1 + s2 + s3 as int,
                s1 + s2 + s3 + T4::spec_size(),
            ) =~= rest3@.subrange(0, T4::spec_size() as int));
        }
        let x4 = match T4::unpack(order, rest3) {
            Ok(x) => x,
            Err(e) => {
                return Err(e);
            },
        };
        Ok((x1, x2, x3, x4))
    }
}

impl<T1: Roundtrip, T2: Roundtrip, T3: Roundtrip, T4: Roundtrip> Roundtrip for (T1, T2, T3, T4) {
    proof fn lemma_roundtrip(&self, order: ByteOrder) {
        self.0.lemma_spec_pack_len(order);
        self.1.lemma_spec_pack_len(order);
        self.2.lemma_spec_pack_len(order);
        self.3.lemma_spec_pack_len(order);
        self.0.lemma_roundtrip(order);
        self.1.lemma_roundtrip(order);
        self.2.lemma_roundtrip(order);
        self.3.lemma_roundtrip(order);
        let d = self.spec_pack(order);
        let s1 = T1::spec_size() as int;
        let s2 = T2::spec_size() as int;
        let s3 = T3::spec_size() as int;
        let s4 = T4::spec_size() as int;
        assert(d.subrange(0, s1) =~= self.0.spec_pack(order));
        assert(d.subrange(s1, s1 + s2) =~= self.1.spec_pack(order));
        assert(d.subrange(s1 + s2, s1 + s2 + s3) =~= self.2.spec_pack(order));
        assert(d.subrange(s1 + s2 + s3, s1 + s2 + s3 + s4) =~= self.3.spec_pack(order));
    }
}

/// The outcome of decoding `n` consecutive elements from the front of
/// `data`, left to right: the sequence of all `n` elements, or the error of
/// the leftmost element that fails. Elements after the first failure are
/// never looked at.
pub open spec fn spec_unpack_elems<T: Unpack>(order: ByteOrder, data: Seq<u8>, n: nat) -> Result<
    Seq<T>,
    Error,
>
    decreases n,
{
    if n == 0 {
        Ok(Seq::empty())
    } else {
        match T::spec_unpack(order, data.subrange(0, T::spec_size() as int)) {
            Ok(x) => match spec_unpack_elems::<T>(
                order,
                data.skip(T::spec_size() as int),
                (n - 1) as nat,
            ) {
                Ok(rest) => Ok(seq![x] + rest),
                Err(e) => Err(e),
            },
            Err(e) => Err(e),
        }
    }
}

/// Decoding a run of elements returns the error of the leftmost failing
/// element: if every element window before `k` decodes and window `k` fails
/// with `e`, the run of `n > k` elements decodes to exactly `Err(e)`,
/// whatever stands in the windows after `k`.
pub proof fn lemma_unpack_elems_first_error<T: Unpack>(
    order: ByteOrder,
    data: Seq<u8>,
    n: nat,
    k: nat,
    e: Error,
)
    requires
        k < n,
        data.len() >= n * T::spec_size(),
        T::spec_unpack(
            order,
            data.subrange(
                k * T::spec_size() as int,
                k * T::spec_size() as int + T::spec_size(),
            ),
        ) == Err::<T, Error>(e),
        forall|j: nat|
            j < k ==> #[trigger] T::spec_unpack(
                order,
                data.subrange(
                    j * T::spec_size() as int,
                    j * T::spec_size() as int + T::spec_size(),
                ),
            ) is Ok,
    ensures
        spec_unpack_elems::<T>(order, data, n) == Err::<Seq<T>, Error>(e),
    decreases k,
{
    let sz = T::spec_size() as int;
    assert(sz <= n * sz && 0 <= (n - 1) * sz && n * sz - sz == (n - 1) * sz) by (nonlinear_arith)
        requires
            n >= 1,
            sz >= 0,
    ;
    if k == 0 {
        assert(data.subrange(0 * sz, 0 * sz + sz) =~= data.subrange(0, sz));
    } else {
        assert(data.subrange(0 * sz, 0 * sz + sz) =~= data.subrange(0, sz));
        let tail = data.skip(sz);
        assert forall|j: nat| j < k - 1 implies #[trigger] T::spec_unpack(
            order,
            tail.subrange(j * sz, j * sz + sz),
        ) is Ok by {
            let j1: nat = j + 1;
            assert(j1 * sz == j * sz + sz && j1 * sz + sz <= n * sz) by (nonlinear_arith)
                requires
                    j1 == j + 1,
                    j1 + 1 <= n,
                    sz >= 0,
            ;
            assert(tail.subrange(j * sz, j * sz + sz) =~= data.subrange(
                j1 * sz,
                j1 * sz + sz,
            ));
            assert(T::spec_unpack(order, data.subrange(j1 * sz, j1 * sz + sz)) is Ok);
        }
        let k1: nat = (k - 1) as nat;
        assert(k * sz == k1 * sz + sz && k * sz + sz <= n * sz) by (nonlinear_arith)
            requires
                k == k1 + 1,
                k + 1 <= n,
                sz >= 0,
        ;
        assert(tail.subrange(k1 * sz, k1 * sz + sz) =~= data.subrange(k * sz, k * sz + sz));
        lemma_unpack_elems_first_error::<T>(order, tail, (n - 1) as nat, k1, e);
    }
}

/// The array holding the elements of `s`, for a sequence of matching length.
pub open spec fn spec_seq_to_array<T, const N: usize>(s: Seq<T>) -> [T; N]
    recommends
        s.len() == N,
{
    choose|a: [T; N]| a@ == s
}

/// Relies on the standard `TryFrom<Vec<T>>` conversion for arrays: a vector
/// of length `N` converts to the array holding exactly the vector's elements.
#[verifier::external_body]
fn vec_to_array<T, const N: usize>(v: Vec<T>) -> (r: [T; N])
    requires
        v@.len() == N,
    ensures
        r@ == v@,
{
    let a: [T; N] = v.try_into().ok().unwrap();
    a
}

impl<T: Unpack, const N: usize> Unpack for [T; N] {
    open spec fn spec_unpack(order: ByteOrder, data: Seq<u8>) -> Result<Self, Error> {
        match spec_unpack_elems::<T>(order, data, N as nat) {
            Ok(s) => Ok(spec_seq_to_array(s)),
            Err(e) => Err(e),
        }
    }

    fn unpack(order: ByteOrder, buffer: &[u8]) -> Result<Self, Error> {
        let ghost data = buffer@.subrange(0, Self::spec_size() as int);
        let blen = buffer.len();
        let mut out: Vec<T> = Vec::new();
        if N > 0 {
            proof {
                assert(T::spec_size() <= (N as nat) * T::spec_size()) by (nonlinear_arith)
                    requires
                        N >= 1,
                ;
            }
            let sz = T::size();
            let mut i: usize = 0;
            proof {
                assert(data.skip(0) =~= data);
            }
            while i < N
                invariant
                    sz == T::spec_size(),
                    (N as nat) * T::spec_size() <= blen,
                    blen == buffer@.len(),
                    data == buffer@.subrange(0, ((N as nat) * T::spec_size()) as int),
                    i <= N,
                    out@.len() == i,
                    match spec_unpack_elems::<T>(order, data.skip(i * sz as int), (N - i) as nat) {
                        Ok(rest) => spec_unpack_elems::<T>(order, data, N as nat) == Ok::<
                            Seq<T>,
                            Error,
                        >(out@ + rest),
                        Err(e) => spec_unpack_elems::<T>(order, data, N as nat) == Err::<
                            Seq<T>,
                            Error,
                        >(e),
                    },
                decreases N - i,
            {
                proof {
                    assert((i + 1) * sz <= (N as int) * sz && i * sz + sz == (i + 1) * sz && i * sz
                        >= 0) by (nonlinear_arith)
                        requires
                            i < N,
                            sz >= 0,
                    ;
                }
                let rest_buf = slice_subrange(buffer, i * sz, blen);
                proof {
                    assert(rest_buf@.subrange(0, sz as int) =~= data.skip(i * sz as int).subrange(
                        0,
                        sz as int,
                    ));
                }
                let ghost out_old = out@;
                match T::unpack(order, rest_buf) {
                    Ok(x) => {
                        out.push(x);
                        proof {
                            assert(T::spec_unpack(
                                order,
                                data.skip(i * sz as int).subrange(0, sz as int),
                            ) == Ok::<T, Error>(x));
                            assert(data.skip(i * sz as int).skip(sz as int) =~= data.skip(
                                (i + 1) * sz as int,
                            ));
                            assert(out@ =~= out_old + seq![x]);
                            match spec_unpack_elems::<T>(
                                order,
                                data.skip((i + 1) * sz as int),
                                (N - (i + 1)) as nat,
                            ) {
                                Ok(rest) => {
                                    assert(spec_unpack_elems::<T>(
                                        order,
                                        data.skip(i * sz as int),
                                        (N - i) as nat,
                                    ) == Ok::<Seq<T>, Error>(seq![x] + rest));
                                    assert(out@ + rest =~= out_old + (seq![x] + rest));
                                },
                                Err(e) => {
                                    assert(spec_unpack_elems::<T>(
                                        order,
                                        data.skip(i * sz as int),
                                        (N - i) as nat,
                                    ) == Err::<Seq<T>, Error>(e));
                                },
                            }
                        }
                    },
                    Err(e) => {
                        proof {
                            assert(T::spec_unpack(
                                order,
                                data.skip(i * sz as int).subrange(0, sz as int),
                            ) == Err::<T, Error>(e));
                            assert(spec_unpack_elems::<T>(
                                order,
                                data.skip(i * sz as int),
                                (N - i) as nat,
                            ) == Err::<Seq<T>, Error>(e));
                        }
                        return Err(e);
                    },
                }
                i += 1;
            }
        }
        proof {
            assert(out@ + Seq::<T>::empty() =~= out@);
        }
        let a: [T; N] = vec_to_array(out);
        proof {
            assert(exists|a2: [T; N]| a2@ == a@) by {
                assert(a@ == a@);
            }
            let c = spec_seq_to_array::<T, N>(a@);
            assert(c@ =~= a@);
            vstd::array::axiom_array_ext_equal(c, a);
        }
        Ok(a)
    }
}

/// Decoding the concatenated encodings of a sequence of values yields
/// exactly those values.
pub proof fn lemma_unpack_pack_elems<T: Roundtrip>(s: Seq<T>, order: ByteOrder)
    ensures
        spec_unpack_elems::<T>(order, crate::pack::spec_pack_elems(s, order), s.len()) == Ok::<
            Seq<T>,
            Error,
        >(s),
    decreases s.len(),
{
    if s.len() == 0 {
        assert(Seq::<T>::empty() =~= s);
    } else {
        let d = crate::pack::spec_pack_elems(s, order);
        s[0].lemma_spec_pack_len(order);
        assert(d.subrange(0, T::spec_size() as int) =~= s[0].spec_pack(order));
        s[0].lemma_roundtrip(order);
        assert(d.skip(T::spec_size() as int) =~= crate::pack::spec_pack_elems(
            s.drop_first(),
            order,
        ));
        lemma_unpack_pack_elems(s.drop_first(), order);
        assert(seq![s[0]] + s.drop_first() =~= s);
    }
}

impl<T: Roundtrip, const N: usize> Roundtrip for [T; N] {
    proof fn lemma_roundtrip(&self, order: ByteOrder) {
        lemma_unpack_pack_elems(self@, order);
        let c = spec_seq_to_array::<T, N>(self@);
        assert(exists|a2: [T; N]| a2@ == self@) by {
            assert(self@ == self@);
        }
        assert(c@ =~= self@);
        vstd::array::axiom_array_ext_equal(c, *self);
    }
}

} // verus!
