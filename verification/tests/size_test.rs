use lightpack::compose::{Code, Pair, Tuple, Unit, Wide, Wrap, X, Y};
use lightpack::Size;

#[test]
fn size_test_unsigned_ints() {
    assert_eq!(u8::size(), 1);
    assert_eq!(u16::size(), 2);
    assert_eq!(u32::size(), 4);
    assert_eq!(u64::size(), 8);
}

#[test]
fn size_test_signed_ints() {
    assert_eq!(i8::size(), 1);
    assert_eq!(i16::size(), 2);
    assert_eq!(i32::size(), 4);
    assert_eq!(i64::size(), 8);
}

#[test]
fn size_test_basic_structs() {
    assert_eq!(X::size(), 3);
    assert_eq!(Y::size(), 7);
    assert_eq!(Tuple::size(), 10);
    assert_eq!(Unit::size(), 0);
}

#[test]
fn size_test_generic_structs() {
    assert_eq!(Wrap::<i32>::size(), i32::size());
    assert_eq!(Wrap::<u8>::size(), u8::size());
    assert_eq!(Pair::<i16, u8>::size(), i16::size() + u8::size());
}

#[test]
fn size_test_primitive_enums() {
    assert_eq!(Code::size(), 1);
    assert_eq!(Wide::size(), 4);
}
