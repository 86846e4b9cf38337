use lightpack::compose::{Code, Fallible, HasField, HasGenericField, Pair, Tuple, Unit, Wide, Wrap, X, Y};
use lightpack::extra::{UnpackInto, BE, LE};
use lightpack::unpack::Error;
use lightpack::{ByteOrder, Unpack};

#[test]
fn unpack_test_unsigned_ints() {
    assert_eq!(u8::unpack(ByteOrder::Big, &[4]), Ok(4));
    assert_eq!(u16::unpack(ByteOrder::Big, &[1, 0]), Ok(256));
    assert_eq!(u16::unpack(ByteOrder::Little, &[0, 1]), Ok(256));
}

#[test]
fn unpack_test_signed_ints() {
    assert_eq!(i8::unpack(ByteOrder::Big, &[255]), Ok(-1));
}

#[test]
fn unpack_test_basic_structs() {
    let x0 = X { x: 3, y: 4 };
    let x1 = X { x: 2, y: 8 };
    let y = Y { x0, x1, x2: true };

    assert_eq!(X::unpack(ByteOrder::Big, &[3, 0, 4]), Ok(x0));
    assert_eq!(X::unpack(ByteOrder::Little, &[3, 4, 0]), Ok(x0));
    assert_eq!(X::unpack(ByteOrder::Big, &[2, 0, 8]), Ok(x1));
    assert_eq!(
        Tuple::unpack(ByteOrder::Big, &[3, 0, 4, 3, 0, 4, 2, 0, 8, 1]),
        Ok(Tuple(x0, y))
    );
    assert_eq!(Unit::unpack(ByteOrder::Big, &[]), Ok(Unit));
    assert_eq!(Unit::unpack(ByteOrder::Big, &[1, 2]), Ok(Unit));
}

#[test]
fn unpack_test_generic_structs() {
    assert_eq!(Wrap::unpack(ByteOrder::Little, &[3, 0, 0, 0]), Ok(Wrap(3i32)));
    assert_eq!(Wrap::unpack(ByteOrder::Big, &[0, 4]), Ok(Wrap(4u16)));
    assert_eq!(
        HasField::unpack(ByteOrder::Big, &[0, 0, 0, 9]),
        Ok(HasField { wrap: Wrap(9u32) })
    );
    assert_eq!(
        HasGenericField::unpack(ByteOrder::Big, &[1, 1]),
        Ok(HasGenericField {
            wrap: Wrap(true),
            x: true
        })
    );

    let buffer = [9, 8, 3];
    assert_eq!(
        <(i16, u8)>::unpack(ByteOrder::Big, &buffer),
        Pair::<i16, u8>::unpack(ByteOrder::Big, &buffer)
            .map(|Pair { left, right }| (left, right))
    );
}

#[test]
fn unpack_test_primitive_enums() {
    assert_eq!(Code::unpack(ByteOrder::Big, &[1]), Ok(Code::A));
    assert_eq!(Code::unpack(ByteOrder::Big, &[4]), Ok(Code::B));
    assert_eq!(Code::unpack(ByteOrder::Little, &[8]), Ok(Code::C));
    assert_eq!(
        Code::unpack(ByteOrder::Little, &[2]),
        Err(Error::InvalidEnumValueU8(2))
    );
    assert_eq!(
        Wide::unpack(ByteOrder::Little, &[255, 255, 255, 255]),
        Err(Error::InvalidEnumValueI32(-1))
    );
    assert_eq!(Wide::unpack(ByteOrder::Big, &[255, 255, 255, 247]), Ok(Wide::A));
    assert_eq!(Wide::unpack(ByteOrder::Little, &[247, 255, 255, 255]), Ok(Wide::A));
}

#[test]
fn unpack_test_arrays() {
    assert_eq!(<[u8; 0]>::unpack(ByteOrder::Big, &[]), Ok([]));
    assert_eq!(<[_; 1]>::unpack(ByteOrder::Big, &[255]), Ok([-1i8]));
    assert_eq!(
        <[_; 3]>::unpack(ByteOrder::Big, &[0, 0, 0, 16, 0, 0, 0, 16, 0, 0, 0, 16]),
        Ok([16u32; 3])
    );
    assert_eq!(
        <[_; 5]>::unpack(ByteOrder::Big, &[3, 4, 1, 0, 2]),
        Ok([3u8, 4, 1, 0, 2])
    );
    assert_eq!(
        <[_; 3]>::unpack(ByteOrder::Little, &[2, 0, 3, 0, 255, 255]),
        Ok([2i16, 3, -1])
    );
    assert_eq!(
        <[_; 3]>::unpack(ByteOrder::Little, &[1, 0, 0, 0, 1, 1]),
        Ok([(true, false), (false, false), (true, true)])
    );
}

#[test]
fn array_partial_dropping() {
    // Decoding a fixed-size array stops at the first failing element: the
    // elements decoded before it are discarded (safe ownership releases
    // them exactly once), and the failing element's error is returned.
    // Element index 3 is the first whose flag byte is zero, so its error
    // code wins even though later elements would fail with other codes.
    let buffer = [
        // bool, u8
        1, 0u8, //
        1, 1, //
        1, 2, //
        0, 3, //
        1, 4, //
        0, 9, //
        0, 9, //
        0, 9, //
        0, 9, //
        0, 9, //
    ];

    let result = <[Fallible; 10]>::unpack(ByteOrder::Big, &buffer);

    assert_eq!(result, Err(Error::Custom(3)));
}

#[test]
fn unpack_test_fixed_endianness() {
    assert_eq!(BE::<u16>::unpack(ByteOrder::Big, &[0, 4]), Ok(BE(4)));
    assert_eq!(BE::<u16>::unpack(ByteOrder::Little, &[0, 4]), Ok(BE(4)));
    assert_eq!(LE::<u16>::unpack(ByteOrder::Big, &[4, 0]), Ok(LE(4)));
    assert_eq!(LE::<u16>::unpack(ByteOrder::Little, &[4, 0]), Ok(LE(4)));
    assert_eq!((&[4, 0][..]).unpack_into(ByteOrder::Big), Ok(LE(4u16)));
}

#[test]
fn unpack_safely() {
    let buffer = [2u8, 0];
    assert_eq!(u16::unpack_safely(ByteOrder::Little, &buffer), Ok(2));
    assert_eq!(
        u32::unpack_safely(ByteOrder::Little, &buffer),
        Err(Error::BufferTooSmall {
            actual: 2,
            expected: 4
        })
    );
}
