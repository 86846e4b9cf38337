//! The [`Pack`] trait and primitive implementations.

use vstd::prelude::*;

use crate::byteorder::{
    spec_u16_bytes, spec_u32_bytes, spec_u64_bytes, write_u16, write_u32, write_u64, ByteOrder,
};
use crate::size::Size;
use vstd::array::array_index_get;

verus! {

/// Types that can be encoded to a binary representation.
///
/// [`Pack::spec_pack`] is the specification-level encoding: the exact byte
/// sequence a value encodes to under a byte order. [`Pack::pack`] writes that
/// sequence into a caller-supplied buffer at a given offset and touches no
/// other byte. Encoding a well-typed value never fails; the buffer must have
/// room for [`Size::spec_size`] bytes starting at the offset.
pub trait Pack: Size {
    /// The encoding of `self` under `order`.
    spec fn spec_pack(&self, order: ByteOrder) -> Seq<u8>;

    /// The encoding of any value is exactly [`Size::spec_size`] bytes long.
    proof fn lemma_spec_pack_len(&self, order: ByteOrder)
        ensures
            self.spec_pack(order).len() == Self::spec_size(),
    ;

    /// Encodes `self` into `buffer[offset..offset + Self::spec_size()]`
    /// under `order`, leaving every other byte unchanged.
    fn pack(&self, order: ByteOrder, buffer: &mut [u8], offset: usize)
        requires
            offset + Self::spec_size() <= old(buffer).len(),
        ensures
            final(buffer)@.len() == old(buffer)@.len(),
            final(buffer)@.subrange(offset as int, offset + Self::spec_size()) == self.spec_pack(
                order,
            ),
            forall|i: int|
                0 <= i < old(buffer)@.len() && !(offset <= i < offset + Self::spec_size())
                    ==> final(buffer)@[i] == old(buffer)@[i],
    ;
}

impl Pack for u8 {
    open spec fn spec_pack(&self, order: ByteOrder) -> Seq<u8> {
        seq![*self]
    }

    proof fn lemma_spec_pack_len(&self, order: ByteOrder) {
    }

    fn pack(&self, order: ByteOrder, buffer: &mut [u8], offset: usize) {
        buffer[offset] = *self;
        proof {
            assert(final(buffer)@.subrange(offset as int, offset + 1) =~= seq![*self]);
        }
    }
}

impl Pack for u16 {
    open spec fn spec_pack(&self, order: ByteOrder) -> Seq<u8> {
        spec_u16_bytes(order, *self)
    }

    proof fn lemma_spec_pack_len(&self, order: ByteOrder) {
    }

    fn pack(&self, order: ByteOrder, buffer: &mut [u8], offset: usize) {
        write_u16(order, *self, buffer, offset);
    }
}

impl Pack for u32 {
    open spec fn spec_pack(&self, order: ByteOrder) -> Seq<u8> {
        spec_u32_bytes(order, *self)
    }

    proof fn lemma_spec_pack_len(&self, order: ByteOrder) {
    }

    fn pack(&self, order: ByteOrder, buffer: &mut [u8], offset: usize) {
        write_u32(order, *self, buffer, offset);
    }
}

impl Pack for u64 {
    open spec fn spec_pack(&self, order: ByteOrder) -> Seq<u8> {
        spec_u64_bytes(order, *self)
    }

    proof fn lemma_spec_pack_len(&self, order: ByteOrder) {
    }

    fn pack(&self, order: ByteOrder, buffer: &mut [u8], offset: usize) {
        write_u64(order, *self, buffer, offset);
    }
}

impl Pack for i8 {
    open spec fn spec_pack(&self, order: ByteOrder) -> Seq<u8> {
        seq![*self as u8]
    }

    proof fn lemma_spec_pack_len(&self, order: ByteOrder) {
    }

    fn pack(&self, order: ByteOrder, buffer: &mut [u8], offset: usize) {
        buffer[offset] = #[verifier::truncate] (*self as u8);
        proof {
            assert(final(buffer)@.subrange(offset as int, offset + 1) =~= seq![*self as u8]);
        }
    }
}

impl Pack for i16 {
    open spec fn spec_pack(&self, order: ByteOrder) -> Seq<u8> {
        spec_u16_bytes(order, *self as u16)
    }

    proof fn lemma_spec_pack_len(&self, order: ByteOrder) {
    }

    fn pack(&self, order: ByteOrder, buffer: &mut [u8], offset: usize) {
        write_u16(order, #[verifier::truncate] (*self as u16), buffer, offset);
    }
}

impl Pack for i32 {
    open spec fn spec_pack(&self, order: ByteOrder) -> Seq<u8> {
        spec_u32_bytes(order, *self as u32)
    }

    proof fn lemma_spec_pack_len(&self, order: ByteOrder) {
    }

    fn pack(&self, order: ByteOrder, buffer: &mut [u8], offset: usize) {
        write_u32(order, #[verifier::truncate] (*self as u32), buffer, offset);
    }
}

impl Pack for i64 {
    open spec fn spec_pack(&self, order: ByteOrder) -> Seq<u8> {
        spec_u64_bytes(order, *self as u64)
    }

    proof fn lemma_spec_pack_len(&self, order: ByteOrder) {
    }

    fn pack(&self, order: ByteOrder, buffer: &mut [u8], offset: usize) {
        write_u64(order, #[verifier::truncate] (*self as u64), buffer, offset);
    }
}

impl Pack for bool {
    open spec fn spec_pack(&self, order: ByteOrder) -> Seq<u8> {
        seq![if *self { 1u8 } else { 0u8 }]
    }

    proof fn lemma_spec_pack_len(&self, order: ByteOrder) {
    }

    fn pack(&self, order: ByteOrder, buffer: &mut [u8], offset: usize) {
        buffer[offset] = if *self { 1 } else { 0 };
        proof {
            assert(final(buffer)@.subrange(offset as int, offset + 1) =~= seq![
                if *self { 1u8 } else { 0u8 },
            ]);
        }
    }
}

impl Pack for char {
    open spec fn spec_pack(&self, order: ByteOrder) -> Seq<u8> {
        spec_u32_bytes(order, *self as u32)
    }

    proof fn lemma_spec_pack_len(&self, order: ByteOrder) {
    }

    fn pack(&self, order: ByteOrder, buffer: &mut [u8], offset: usize) {
        write_u32(order, *self as u32, buffer, offset);
    }
}

impl Pack for () {
    open spec fn spec_pack(&self, order: ByteOrder) -> Seq<u8> {
        Seq::empty()
    }

    proof fn lemma_spec_pack_len(&self, order: ByteOrder) {
    }

    fn pack(&self, order: ByteOrder, buffer: &mut [u8], offset: usize) {
        proof {
            assert(final(buffer)@.subrange(offset as int, offset as int) =~= Seq::<u8>::empty());
        }
    }
}

impl<T1: Pack> Pack for (T1,) {
    open spec fn spec_pack(&self, order: ByteOrder) -> Seq<u8> {
        self.0.spec_pack(order)
    }

    proof fn lemma_spec_pack_len(&self, order: ByteOrder) {
        self.0.lemma_spec_pack_len(order);
    }

    fn pack(&self, order: ByteOrder, buffer: &mut [u8], offset: usize) {
        self.0.pack(order, buffer, offset);
    }
}

impl<T1: Pack, T2: Pack> Pack for (T1, T2) {
    open spec fn spec_pack(&self, order: ByteOrder) -> Seq<u8> {
        self.0.spec_pack(order) + self.1.spec_pack(order)
    }

    proof fn lemma_spec_pack_len(&self, order: ByteOrder) {
        self.0.lemma_spec_pack_len(order);
        self.1.lemma_spec_pack_len(order);
    }

    fn pack(&self, order: ByteOrder, buffer: &mut [u8], offset: usize) {
        proof {
            self.0.lemma_spec_pack_len(order);
            self.1.lemma_spec_pack_len(order);
        }
        let s1 = T1::size();
        self.0.pack(order, buffer, offset);
        self.1.pack(order, buffer, offset + s1);
        proof {
            assert(final(buffer)@.subrange(offset as int, offset + Self::spec_size())
                =~= self.spec_pack(order));
        }
    }
}

impl<T1: Pack, T2: Pack, T3: Pack> Pack for (T1, T2, T3) {
    open spec fn spec_pack(&self, order: ByteOrder) -> Seq<u8> {
        self.0.spec_pack(order) + self.1.spec_pack(order) + self.2.spec_pack(order)
    }

    proof fn lemma_spec_pack_len(&self, order: ByteOrder) {
        self.0.lemma_spec_pack_len(order);
        self.1.lemma_spec_pack_len(order);
        self.2.lemma_spec_pack_len(order);
    }

    fn pack(&self, order: ByteOrder, buffer: &mut [u8], offset: usize) {
        proof {
            self.0.lemma_spec_pack_len(order);
            self.1.lemma_spec_pack_len(order);
            self.2.lemma_spec_pack_len(order);
        }
        let s1 = T1::size();
        let s2 = T2::size();
        self.0.pack(order, buffer, offset);
        self.1.pack(order, buffer, offset + s1);
        self.2.pack(order, buffer, offset + s1 + s2);
        proof {
            assert(final(buffer)@.subrange(offset as int, offset + Self::spec_size())
                =~= self.spec_pack(order));
        }
    }
}

impl<T1: Pack, T2: Pack, T3: Pack, T4: Pack> Pack for (T1, T2, T3, T4) {
    open spec fn spec_pack(&self, order: ByteOrder) -> Seq<u8> {
        self.0.spec_pack(order) + self.1.spec_pack(order) + self.2.spec_pack(order)
            + self.3.spec_pack(order)
    }

    proof fn lemma_spec_pack_len(&self, order: ByteOrder) {
        self.0.lemma_spec_pack_len(order);
        self.1.lemma_spec_pack_len(order);
        self.2.lemma_spec_pack_len(order);
        self.3.lemma_spec_pack_len(order);
    }

    fn pack(&self, order: ByteOrder, buffer: &mut [u8], offset: usize) {
        proof {
            self.0.lemma_spec_pack_len(order);
            self.1.lemma_spec_pack_len(order);
            self.2.lemma_spec_pack_len(order);
            self.3.lemma_spec_pack_len(order);
        }
        let s1 = T1::size();
        let s2 = T2::size();
        let s3 = T3::size();
        self.0.pack(order, buffer, offset);
        self.1.pack(order, buffer, offset + s1);
        self.2.pack(order, buffer, offset + s1 + s2);
        self.3.pack(order, buffer, offset + s1 + s2 + s3);
        proof {
            assert(final(buffer)@.subrange(offset as int, offset + Self::spec_size())
                =~= self.spec_pack(order));
        }
    }
}

impl<T: Pack> Pack for Option<T> {
    open spec fn spec_pack(&self, order: ByteOrder) -> Seq<u8> {
        match self {
            Some(x) => seq![1u8] + x.spec_pack(order),
            None => seq![0u8] + Seq::new(T::spec_size(), |i: int| 0u8),
        }
    }

    proof fn lemma_spec_pack_len(&self, order: ByteOrder) {
        match self {
            Some(x) => x.lemma_spec_pack_len(order),
            None => (),
        }
    }

    fn pack(&self, order: ByteOrder, buffer: &mut [u8], offset: usize) {
        match self {
            Some(x) => {
                proof {
                    x.lemma_spec_pack_len(order);
                }
                buffer[offset] = 1;
                x.pack(order, buffer, offset + 1);
                proof {
                    assert(final(buffer)@.subrange(offset as int, offset + Self::spec_size())
                        =~= self.spec_pack(order));
                }
            },
            None => {
                buffer[offset] = 0;
                let blen = buffer.len();
                let payload = T::size();
                let mut i: usize = 0;
                while i < payload
                    invariant
                        payload == T::spec_size(),
                        offset + 1 + payload <= old(buffer)@.len(),
                        blen == buffer@.len(),
                        i <= payload,
                        buffer@.len() == old(buffer)@.len(),
                        forall|j: int| offset <= j < offset + 1 + i ==> buffer@[j] == 0u8,
                        forall|j: int|
                            0 <= j < old(buffer)@.len() && !(offset <= j < offset + 1 + i)
                                ==> buffer@[j] == old(buffer)@[j],
                    decreases payload - i,
                {
                    buffer[offset + 1 + i] = 0;
                    i += 1;
                }
                proof {
                    assert(final(buffer)@.subrange(offset as int, offset + Self::spec_size())
                        =~= self.spec_pack(order));
                }
            },
        }
    }
}

/// The concatenated encodings of the elements of `s`, in order, under `order`.
pub open spec fn spec_pack_elems<T: Pack>(s: Seq<T>, order: ByteOrder) -> Seq<u8>
    decreases s.len(),
{
    if s.len() == 0 {
        Seq::empty()
    } else {
        s[0].spec_pack(order) + spec_pack_elems(s.drop_first(), order)
    }
}

/// The concatenated encodings of `s` take `s.len()` times the element size.
pub proof fn lemma_pack_elems_len<T: Pack>(s: Seq<T>, order: ByteOrder)
    ensures
        spec_pack_elems(s, order).len() == s.len() * T::spec_size(),
    decreases s.len(),
{
    if s.len() == 0 {
    } else {
        s[0].lemma_spec_pack_len(order);
        lemma_pack_elems_len(s.drop_first(), order);
        assert(s.len() * T::spec_size() == T::spec_size() + (s.len() - 1) * T::spec_size())
            by (nonlinear_arith);
    }
}

/// Encoding one more element appends that element's encoding.
pub proof fn lemma_pack_elems_take_succ<T: Pack>(s: Seq<T>, order: ByteOrder, i: int)
    requires
        0 <= i < s.len(),
    ensures
        spec_pack_elems(s.take(i + 1), order) == spec_pack_elems(s.take(i), order)
            + s[i].spec_pack(order),
    decreases i,
{
    if i == 0 {
        assert(s.take(0) =~= Seq::<T>::empty());
        assert(s.take(1).drop_first() =~= Seq::<T>::empty());
        assert(spec_pack_elems(s.take(1), order) =~= spec_pack_elems(s.take(0), order)
            + s[0].spec_pack(order));
    } else {
        lemma_pack_elems_take_succ(s.drop_first(), order, i - 1);
        assert(s.take(i + 1).drop_first() =~= s.drop_first().take(i));
        assert(s.take(i).drop_first() =~= s.drop_first().take(i - 1));
        assert(spec_pack_elems(s.take(i + 1), order) =~= spec_pack_elems(s.take(i), order)
            + s[i].spec_pack(order));
    }
}

impl<T: Pack, const N: usize> Pack for [T; N] {
    open spec fn spec_pack(&self, order: ByteOrder) -> Seq<u8> {
        spec_pack_elems(self@, order)
    }

    proof fn lemma_spec_pack_len(&self, order: ByteOrder) {
        lemma_pack_elems_len(self@, order);
    }

    fn pack(&self, order: ByteOrder, buffer: &mut [u8], offset: usize) {
        let blen = buffer.len();
        if N == 0 {
            proof {
                assert(buffer@.subrange(offset as int, offset as int)
                    =~= spec_pack_elems(self@, order));
            }
        } else {
            proof {
                assert(T::spec_size() <= (N as nat) * T::spec_size()) by (nonlinear_arith)
                    requires
                        N >= 1,
                ;
            }
            let sz = T::size();
            let mut i: usize = 0;
            proof {
                assert(buffer@.subrange(offset as int, offset as int)
                    =~= spec_pack_elems(self@.take(0), order));
            }
            while i < N
                invariant
                    sz == T::spec_size(),
                    offset + (N as nat) * T::spec_size() <= old(buffer)@.len(),
                    blen == buffer@.len(),
                    i <= N,
                    buffer@.len() == old(buffer)@.len(),
                    buffer@.subrange(offset as int, offset + i * sz) == spec_pack_elems(
                        self@.take(i as int),
                        order,
                    ),
                    forall|j: int|
                        0 <= j < old(buffer)@.len() && !(offset <= j < offset + i * sz)
                            ==> buffer@[j] == old(buffer)@[j],
                decreases N - i,
            {
                proof {
                    assert((i + 1) * sz <= (N as int) * sz && i * sz + sz == (i + 1) * sz
                        && i * sz >= 0) by (nonlinear_arith)
                        requires
                            i < N,
                            sz >= 0,
                    ;
                    self@[i as int].lemma_spec_pack_len(order);
                    lemma_pack_elems_len(self@.take(i as int), order);
                }
                let elem = array_index_get(self, i);
                elem.pack(order, buffer, offset + i * sz);
                proof {
                    lemma_pack_elems_take_succ(self@, order, i as int);
                    lemma_pack_elems_len(self@.take(i as int + 1), order);
                    assert(buffer@.subrange(offset as int, offset + (i + 1) * sz)
                        =~= spec_pack_elems(self@.take(i as int + 1), order));
                }
                i += 1;
            }
            proof {
                assert(self@.take(N as int) =~= self@);
            }
        }
    }
}

impl<T: Pack> Pack for &T {
    open spec fn spec_pack(&self, order: ByteOrder) -> Seq<u8> {
        (*self).spec_pack(order)
    }

    proof fn lemma_spec_pack_len(&self, order: ByteOrder) {
        (*self).lemma_spec_pack_len(order);
    }

    fn pack(&self, order: ByteOrder, buffer: &mut [u8], offset: usize) {
        (*self).pack(order, buffer, offset);
    }
}

impl<T: Pack> Pack for &mut T {
    open spec fn spec_pack(&self, order: ByteOrder) -> Seq<u8> {
        (**self).spec_pack(order)
    }

    proof fn lemma_spec_pack_len(&self, order: ByteOrder) {
        (**self).lemma_spec_pack_len(order);
    }

    fn pack(&self, order: ByteOrder, buffer: &mut [u8], offset: usize) {
        (**self).pack(order, buffer, offset);
    }
}

} // verus!
