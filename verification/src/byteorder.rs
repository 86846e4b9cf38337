//! The byte-order policy and the multi-byte layout primitives.
//!
//! A [`ByteOrder`] value selects how the bytes of a multi-byte scalar are
//! laid out in a buffer. It is threaded as a parameter through every encode
//! and decode call and is never stored in the encoded data itself.
//!
//! The functions here are the only place in the crate that knows the actual
//! byte layout of an integer: everything else composes them.

use vstd::prelude::*;

verus! {

/// A byte-order policy: lays multi-byte scalars out either
/// most-significant-byte first (big-endian) or least-significant-byte first
/// (little-endian).
#[derive(Clone, Copy, PartialEq, Eq, Debug)]
pub enum ByteOrder {
    /// Most significant byte first.
    Big,
    /// Least significant byte first.
    Little,
}

/// The two bytes of `v`, in buffer order, under `order`.
pub open spec fn spec_u16_bytes(order: ByteOrder, v: u16) -> Seq<u8> {
    match order {
        ByteOrder::Little => seq![(v & 0xff) as u8, ((v >> 8) & 0xff) as u8],
        ByteOrder::Big => seq![((v >> 8) & 0xff) as u8, (v & 0xff) as u8],
    }
}

/// The `u16` encoded by the first two bytes of `data` under `order`.
pub open spec fn spec_read_u16(order: ByteOrder, data: Seq<u8>) -> u16
    recommends
        data.len() >= 2,
{
    match order {
        ByteOrder::Little => (data[0] as u16) | ((data[1] as u16) << 8),
        ByteOrder::Big => ((data[0] as u16) << 8) | (data[1] as u16),
    }
}

/// Reading back the bytes of `v` yields `v`, under either byte order.
pub proof fn lemma_u16_roundtrip(order: ByteOrder, v: u16)
    ensures
        spec_read_u16(order, spec_u16_bytes(order, v)) == v,
{
    let lo = (v & 0xff) as u8;
    let hi = ((v >> 8) & 0xff) as u8;
    assert((lo as u16) | ((hi as u16) << 8) == v) by (bit_vector)
        requires
            lo == (v & 0xff) as u8,
            hi == ((v >> 8) & 0xff) as u8,
    ;
    assert(((hi as u16) << 8) | (lo as u16) == v) by (bit_vector)
        requires
            lo == (v & 0xff) as u8,
            hi == ((v >> 8) & 0xff) as u8,
    ;
}

/// Writes the two bytes of `v` into `buffer[offset..offset + 2]` under
/// `order`, leaving every other byte unchanged.
pub fn write_u16(order: ByteOrder, v: u16, buffer: &mut [u8], offset: usize)
    requires
        offset + 2 <= old(buffer).len(),
    ensures
        final(buffer)@.len() == old(buffer)@.len(),
        final(buffer)@.subrange(offset as int, offset + 2) == spec_u16_bytes(order, v),
        forall|i: int|
            0 <= i < old(buffer)@.len() && !(offset <= i < offset + 2)
                ==> final(buffer)@[i] == old(buffer)@[i],
{
    proof {
        assert(v & 0xff < 256 && (v >> 8) & 0xff < 256) by (bit_vector);
    }
    let lo: u8 = (v & 0xff) as u8;
    let hi: u8 = ((v >> 8) & 0xff) as u8;
    match order {
        ByteOrder::Little => {
            buffer[offset] = lo;
            buffer[offset + 1] = hi;
        },
        ByteOrder::Big => {
            buffer[offset] = hi;
            buffer[offset + 1] = lo;
        },
    }
    proof {
        assert(final(buffer)@.subrange(offset as int, offset + 2) =~= spec_u16_bytes(order, v));
    }
}

/// Reads the `u16` encoded by `buffer[0..2]` under `order`.
pub fn read_u16(order: ByteOrder, buffer: &[u8]) -> (v: u16)
    requires
        buffer.len() >= 2,
    ensures
        v == spec_read_u16(order, buffer@),
{
    let b0 = buffer[0];
    let b1 = buffer[1];
    match order {
        ByteOrder::Little => (b0 as u16) | ((b1 as u16) << 8),
        ByteOrder::Big => ((b0 as u16) << 8) | (b1 as u16),
    }
}

/// The four bytes of `v`, in buffer order, under `order`.
pub open spec fn spec_u32_bytes(order: ByteOrder, v: u32) -> Seq<u8> {
    match order {
        ByteOrder::Little => seq![
            (v & 0xff) as u8,
            ((v >> 8) & 0xff) as u8,
            ((v >> 16) & 0xff) as u8,
            ((v >> 24) & 0xff) as u8,
        ],
        ByteOrder::Big => seq![
            ((v >> 24) & 0xff) as u8,
            ((v >> 16) & 0xff) as u8,
            ((v >> 8) & 0xff) as u8,
            (v & 0xff) as u8,
        ],
    }
}

/// The `u32` encoded by the first four bytes of `data` under `order`.
pub open spec fn spec_read_u32(order: ByteOrder, data: Seq<u8>) -> u32
    recommends
        data.len() >= 4,
{
    match order {
        ByteOrder::Little => (data[0] as u32) | ((data[1] as u32) << 8) | ((data[2] as u32) << 16)
            | ((data[3] as u32) << 24),
        ByteOrder::Big => ((data[0] as u32) << 24) | ((data[1] as u32) << 16) | ((data[2]
            as u32) << 8) | (data[3] as u32),
    }
}

/// Reading back the bytes of `v` yields `v`, under either byte order.
pub proof fn lemma_u32_roundtrip(order: ByteOrder, v: u32)
    ensures
        spec_read_u32(order, spec_u32_bytes(order, v)) == v,
{
    let b0 = (v & 0xff) as u8;
    let b1 = ((v >> 8) & 0xff) as u8;
    let b2 = ((v >> 16) & 0xff) as u8;
    let b3 = ((v >> 24) & 0xff) as u8;
    assert((b0 as u32) | ((b1 as u32) << 8) | ((b2 as u32) << 16) | ((b3 as u32) << 24) == v)
        by (bit_vector)
        requires
            b0 == (v & 0xff) as u8,
            b1 == ((v >> 8) & 0xff) as u8,
            b2 == ((v >> 16) & 0xff) as u8,
            b3 == ((v >> 24) & 0xff) as u8,
    ;
    assert(((b3 as u32) << 24) | ((b2 as u32) << 16) | ((b1 as u32) << 8) | (b0 as u32) == v)
        by (bit_vector)
        requires
            b0 == (v & 0xff) as u8,
            b1 == ((v >> 8) & 0xff) as u8,
            b2 == ((v >> 16) & 0xff) as u8,
            b3 == ((v >> 24) & 0xff) as u8,
    ;
}

/// Writes the four bytes of `v` into `buffer[offset..offset + 4]` under
/// `order`, leaving every other byte unchanged.
pub fn write_u32(order: ByteOrder, v: u32, buffer: &mut [u8], offset: usize)
    requires
        offset + 4 <= old(buffer).len(),
    ensures
        final(buffer)@.len() == old(buffer)@.len(),
        final(buffer)@.subrange(offset as int, offset + 4) == spec_u32_bytes(order, v),
        forall|i: int|
            0 <= i < old(buffer)@.len() && !(offset <= i < offset + 4)
                ==> final(buffer)@[i] == old(buffer)@[i],
{
    proof {
        assert(v & 0xff < 256 && (v >> 8) & 0xff < 256 && (v >> 16) & 0xff < 256 && (v >> 24)
            & 0xff < 256) by (bit_vector);
    }
    let b0: u8 = (v & 0xff) as u8;
    let b1: u8 = ((v >> 8) & 0xff) as u8;
    let b2: u8 = ((v >> 16) & 0xff) as u8;
    let b3: u8 = ((v >> 24) & 0xff) as u8;
    match order {
        ByteOrder::Little => {
            buffer[offset] = b0;
            buffer[offset + 1] = b1;
            buffer[offset + 2] = b2;
            buffer[offset + 3] = b3;
        },
        ByteOrder::Big => {
            buffer[offset] = b3;
            buffer[offset + 1] = b2;
            buffer[offset + 2] = b1;
            buffer[offset + 3] = b0;
        },
    }
    proof {
        assert(final(buffer)@.subrange(offset as int, offset + 4) =~= spec_u32_bytes(order, v));
    }
}

/// Reads the `u32` encoded by `buffer[0..4]` under `order`.
pub fn read_u32(order: ByteOrder, buffer: &[u8]) -> (v: u32)
    requires
        buffer.len() >= 4,
    ensures
        v == spec_read_u32(order, buffer@),
{
    let b0 = buffer[0];
    let b1 = buffer[1];
    let b2 = buffer[2];
    let b3 = buffer[3];
    match order {
        ByteOrder::Little => (b0 as u32) | ((b1 as u32) << 8) | ((b2 as u32) << 16) | ((b3
            as u32) << 24),
        ByteOrder::Big => ((b0 as u32) << 24) | ((b1 as u32) << 16) | ((b2 as u32) << 8) | (b3
            as u32),
    }
}

/// The eight bytes of `v`, in buffer order, under `order`.
pub open spec fn spec_u64_bytes(order: ByteOrder, v: u64) -> Seq<u8> {
    match order {
        ByteOrder::Little => seq![
            (v & 0xff) as u8,
            ((v >> 8) & 0xff) as u8,
            ((v >> 16) & 0xff) as u8,
            ((v >> 24) & 0xff) as u8,
            ((v >> 32) & 0xff) as u8,
            ((v >> 40) & 0xff) as u8,
            ((v >> 48) & 0xff) as u8,
            ((v >> 56) & 0xff) as u8,
        ],
        ByteOrder::Big => seq![
            ((v >> 56) & 0xff) as u8,
            ((v >> 48) & 0xff) as u8,
            ((v >> 40) & 0xff) as u8,
            ((v >> 32) & 0xff) as u8,
            ((v >> 24) & 0xff) as u8,
            ((v >> 16) & 0xff) as u8,
            ((v >> 8) & 0xff) as u8,
            (v & 0xff) as u8,
        ],
    }
}

/// The `u64` encoded by the first eight bytes of `data` under `order`.
pub open spec fn spec_read_u64(order: ByteOrder, data: Seq<u8>) -> u64
    recommends
        data.len() >= 8,
{
    match order {
        ByteOrder::Little => (data[0] as u64) | ((data[1] as u64) << 8) | ((data[2] as u64) << 16)
            | ((data[3] as u64) << 24) | ((data[4] as u64) << 32) | ((data[5] as u64) << 40) | ((
        data[6] as u64) << 48) | ((data[7] as u64) << 56),
        ByteOrder::Big => ((data[0] as u64) << 56) | ((data[1] as u64) << 48) | ((data[2]
            as u64) << 40) | ((data[3] as u64) << 32) | ((data[4] as u64) << 24) | ((data[5]
            as u64) << 16) | ((data[6] as u64) << 8) | (data[7] as u64),
    }
}

/// Reading back the bytes of `v` yields `v`, under either byte order.
#[verifier::spinoff_prover]
pub proof fn lemma_u64_roundtrip(order: ByteOrder, v: u64)
    ensures
        spec_read_u64(order, spec_u64_bytes(order, v)) == v,
{
    let b0 = (v & 0xff) as u8;
    let b1 = ((v >> 8) & 0xff) as u8;
    let b2 = ((v >> 16) & 0xff) as u8;
    let b3 = ((v >> 24) & 0xff) as u8;
    let b4 = ((v >> 32) & 0xff) as u8;
    let b5 = ((v >> 40) & 0xff) as u8;
    let b6 = ((v >> 48) & 0xff) as u8;
    let b7 = ((v >> 56) & 0xff) as u8;
    assert((b0 as u64) | ((b1 as u64) << 8) | ((b2 as u64) << 16) | ((b3 as u64) << 24) | ((b4
        as u64) << 32) | ((b5 as u64) << 40) | ((b6 as u64) << 48) | ((b7 as u64) << 56) == v)
        by (bit_vector)
        requires
            b0 == (v & 0xff) as u8,
            b1 == ((v >> 8) & 0xff) as u8,
            b2 == ((v >> 16) & 0xff) as u8,
            b3 == ((v >> 24) & 0xff) as u8,
            b4 == ((v >> 32) & 0xff) as u8,
            b5 == ((v >> 40) & 0xff) as u8,
            b6 == ((v >> 48) & 0xff) as u8,
            b7 == ((v >> 56) & 0xff) as u8,
    ;
    assert(((b7 as u64) << 56) | ((b6 as u64) << 48) | ((b5 as u64) << 40) | ((b4 as u64) << 32)
        | ((b3 as u64) << 24) | ((b2 as u64) << 16) | ((b1 as u64) << 8) | (b0 as u64) == v)
        by (bit_vector)
        requires
            b0 == (v & 0xff) as u8,
            b1 == ((v >> 8) & 0xff) as u8,
            b2 == ((v >> 16) & 0xff) as u8,
            b3 == ((v >> 24) & 0xff) as u8,
            b4 == ((v >> 32) & 0xff) as u8,
            b5 == ((v >> 40) & 0xff) as u8,
            b6 == ((v >> 48) & 0xff) as u8,
            b7 == ((v >> 56) & 0xff) as u8,
    ;
}

/// Writes the eight bytes of `v` into `buffer[offset..offset + 8]` under
/// `order`, leaving every other byte unchanged.
pub fn write_u64(order: ByteOrder, v: u64, buffer: &mut [u8], offset: usize)
    requires
        offset + 8 <= old(buffer).len(),
    ensures
        final(buffer)@.len() == old(buffer)@.len(),
        final(buffer)@.subrange(offset as int, offset + 8) == spec_u64_bytes(order, v),
        forall|i: int|
            0 <= i < old(buffer)@.len() && !(offset <= i < offset + 8)
                ==> final(buffer)@[i] == old(buffer)@[i],
{
    proof {
        assert(v & 0xff < 256 && (v >> 8) & 0xff < 256 && (v >> 16) & 0xff < 256 && (v >> 24)
            & 0xff < 256 && (v >> 32) & 0xff < 256 && (v >> 40) & 0xff < 256 && (v >> 48) & 0xff
            < 256 && (v >> 56) & 0xff < 256) by (bit_vector);
    }
    let b0: u8 = (v & 0xff) as u8;
    let b1: u8 = ((v >> 8) & 0xff) as u8;
    let b2: u8 = ((v >> 16) & 0xff) as u8;
    let b3: u8 = ((v >> 24) & 0xff) as u8;
    let b4: u8 = ((v >> 32) & 0xff) as u8;
    let b5: u8 = ((v >> 40) & 0xff) as u8;
    let b6: u8 = ((v >> 48) & 0xff) as u8;
    let b7: u8 = ((v >> 56) & 0xff) as u8;
    match order {
        ByteOrder::Little => {
            buffer[offset] = b0;
            buffer[offset + 1] = b1;
            buffer[offset + 2] = b2;
            buffer[offset + 3] = b3;
            buffer[offset + 4] = b4;
            buffer[offset + 5] = b5;
            buffer[offset + 6] = b6;
            buffer[offset + 7] = b7;
        },
        ByteOrder::Big => {
            buffer[offset] = b7;
            buffer[offset + 1] = b6;
            buffer[offset + 2] = b5;
            buffer[offset + 3] = b4;
            buffer[offset + 4] = b3;
            buffer[offset + 5] = b2;
            buffer[offset + 6] = b1;
            buffer[offset + 7] = b0;
        },
    }
    proof {
        assert(final(buffer)@.subrange(offset as int, offset + 8) =~= spec_u64_bytes(order, v));
    }
}

/// Reads the `u64` encoded by `buffer[0..8]` under `order`.
pub fn read_u64(order: ByteOrder, buffer: &[u8]) -> (v: u64)
    requires
        buffer.len() >= 8,
    ensures
        v == spec_read_u64(order, buffer@),
{
    let b0 = buffer[0];
    let b1 = buffer[1];
    let b2 = buffer[2];
    let b3 = buffer[3];
    let b4 = buffer[4];
    let b5 = buffer[5];
    let b6 = buffer[6];
    let b7 = buffer[7];
    match order {
        ByteOrder::Little => (b0 as u64) | ((b1 as u64) << 8) | ((b2 as u64) << 16) | ((b3
            as u64) << 24) | ((b4 as u64) << 32) | ((b5 as u64) << 40) | ((b6 as u64) << 48) | ((b7
            as u64) << 56),
        ByteOrder::Big => ((b0 as u64) << 56) | ((b1 as u64) << 48) | ((b2 as u64) << 40) | ((b3
            as u64) << 32) | ((b4 as u64) << 24) | ((b5 as u64) << 16) | ((b6 as u64) << 8) | (b7
            as u64),
    }
}

} // verus!
