//! The [`Size`] trait and primitive implementations.

use vstd::prelude::*;

verus! {

/// Types that have an encoded size.
///
/// The encoded size is a property of the type alone: every value of the type
/// encodes to exactly [`Size::spec_size`] bytes, independent of the value.
/// Composite sizes are sums of their parts, with no padding or prefixes:
/// a product type adds its fields, a fixed-size array multiplies by its
/// length, an optional value adds one presence byte.
pub trait Size {
    /// The type's encoded size in bytes.
    spec fn spec_size() -> nat;

    /// Returns the type's encoded size in bytes.
    fn size() -> (n: usize)
        requires
            Self::spec_size() <= usize::MAX,
        ensures
            n == Self::spec_size(),
    ;
}

impl Size for u8 {
    open spec fn spec_size() -> nat {
        1
    }

    fn size() -> usize {
        1
    }
}

impl Size for u16 {
    open spec fn spec_size() -> nat {
        2
    }

    fn size() -> usize {
        2
    }
}

impl Size for u32 {
    open spec fn spec_size() -> nat {
        4
    }

    fn size() -> usize {
        4
    }
}

impl Size for u64 {
    open spec fn spec_size() -> nat {
        8
    }

    fn size() -> usize {
        8
    }
}

impl Size for i8 {
    open spec fn spec_size() -> nat {
        1
    }

    fn size() -> usize {
        1
    }
}

impl Size for i16 {
    open spec fn spec_size() -> nat {
        2
    }

    fn size() -> usize {
        2
    }
}

impl Size for i32 {
    open spec fn spec_size() -> nat {
        4
    }

    fn size() -> usize {
        4
    }
}

impl Size for i64 {
    open spec fn spec_size() -> nat {
        8
    }

    fn size() -> usize {
        8
    }
}

impl Size for bool {
    open spec fn spec_size() -> nat {
        1
    }

    fn size() -> usize {
        1
    }
}

impl Size for char {
    open spec fn spec_size() -> nat {
        4
    }

    fn size() -> usize {
        4
    }
}

impl Size for () {
    open spec fn spec_size() -> nat {
        0
    }

    fn size() -> usize {
        0
    }
}

impl<T1: Size> Size for (T1,) {
    open spec fn spec_size() -> nat {
        T1::spec_size()
    }

    fn size() -> usize {
        T1::size()
    }
}

impl<T1: Size, T2: Size> Size for (T1, T2) {
    open spec fn spec_size() -> nat {
        T1::spec_size() + T2::spec_size()
    }

    fn size() -> usize {
        T1::size() + T2::size()
    }
}

impl<T1: Size, T2: Size, T3: Size> Size for (T1, T2, T3) {
    open spec fn spec_size() -> nat {
        T1::spec_size() + T2::spec_size() + T3::spec_size()
    }

    fn size() -> usize {
        T1::size() + T2::size() + T3::size()
    }
}

impl<T1: Size, T2: Size, T3: Size, T4: Size> Size for (T1, T2, T3, T4) {
    open spec fn spec_size() -> nat {
        T1::spec_size() + T2::spec_size() + T3::spec_size() + T4::spec_size()
    }

    fn size() -> usize {
        T1::size() + T2::size() + T3::size() + T4::size()
    }
}

impl<T: Size> Size for &T {
    open spec fn spec_size() -> nat {
        T::spec_size()
    }

    fn size() -> usize {
        T::size()
    }
}

impl<T: Size> Size for &mut T {
    open spec fn spec_size() -> nat {
        T::spec_size()
    }

    fn size() -> usize {
        T::size()
    }
}

impl<T: Size> Size for Option<T> {
    open spec fn spec_size() -> nat {
        T::spec_size() + 1
    }

    fn size() -> usize {
        T::size() + 1
    }
}

impl<T: Size, const N: usize> Size for [T; N] {
    open spec fn spec_size() -> nat {
        (N as nat) * T::spec_size()
    }

    fn size() -> usize {
        if N == 0 {
            0
        } else {
            proof {
                assert(T::spec_size() <= N * T::spec_size()) by (nonlinear_arith)
                    requires
                        N >= 1,
                ;
            }
            let elem: usize = T::size();
            N * elem
        }
    }
}

/// Size additivity for products: a two-field product encodes to the sum of
/// its fields' sizes.
pub proof fn lemma_pair_size<A: Size, B: Size>()
    ensures
        <(A, B)>::spec_size() == A::spec_size() + B::spec_size(),
{
}

/// Size additivity for fixed-size arrays: `N` elements encode to `N` times
/// the element size.
pub proof fn lemma_array_size<T: Size, const N: usize>()
    ensures
        <[T; N]>::spec_size() == N * T::spec_size(),
{
}

/// Size of an optional value: one presence byte plus the payload size.
pub proof fn lemma_option_size<T: Size>()
    ensures
        <Option<T>>::spec_size() == T::spec_size() + 1,
{
}

} // verus!
