use lightpack::compose::{Code, Echo, HasField, HasGenericField, Pair, Tuple, Unit, Wide, Wrap, X, Y};
use lightpack::{ByteOrder, Pack, Size, Unpack};

fn roundtrip<P: Pack + Unpack + Clone>(order: ByteOrder, value: P) -> P {
    let mut buffer = vec![0u8; P::size()];
    value.pack(order, &mut buffer, 0);
    P::unpack(order, &buffer).unwrap()
}

fn roundtrip_packed<P: Pack + Unpack + Clone>(order: ByteOrder, value: P) -> (Vec<u8>, Vec<u8>) {
    let mut buffer = vec![0u8; P::size()];
    value.pack(order, &mut buffer, 0);
    let unpacked = P::unpack(order, &buffer).unwrap();
    let mut buffer2 = vec![0u8; P::size()];
    unpacked.pack(order, &mut buffer2, 0);
    (buffer, buffer2)
}

fn assert_roundtrips<P: Pack + Unpack + Clone + PartialEq + std::fmt::Debug>(value: P) {
    assert_eq!(roundtrip(ByteOrder::Big, value.clone()), value);
    assert_eq!(roundtrip(ByteOrder::Little, value.clone()), value);
}

fn assert_roundtrips_packed<P: Pack + Unpack + Clone>(value: P) {
    let (x1, x2) = roundtrip_packed(ByteOrder::Big, value.clone());
    assert_eq!(x1, x2);
    let (x1, x2) = roundtrip_packed(ByteOrder::Little, value);
    assert_eq!(x1, x2);
}

#[test]
fn roundtrip_test_unsigned_ints() {
    assert_roundtrips(0u8);
    assert_roundtrips(2u8);
    assert_roundtrips(24u16);
    assert_roundtrips(1024u16);
    assert_roundtrips(3000u32);
    assert_roundtrips(u32::MIN);
    assert_roundtrips(u32::MAX);
}

#[test]
fn roundtrip_test_signed_ints() {
    assert_roundtrips(0i8);
    assert_roundtrips(2i8);
    assert_roundtrips(-2i8);
    assert_roundtrips(24i16);
    assert_roundtrips(-1024i16);
    assert_roundtrips(3000i32);
    assert_roundtrips(i32::MIN);
    assert_roundtrips(i32::MAX);
}

fn assert_f32_roundtrips(value: f32) {
    assert_eq!(
        f32::from_bits(roundtrip(ByteOrder::Big, value.to_bits())),
        value
    );
    assert_eq!(
        f32::from_bits(roundtrip(ByteOrder::Little, value.to_bits())),
        value
    );
}

fn assert_f64_roundtrips(value: f64) {
    assert_eq!(
        f64::from_bits(roundtrip(ByteOrder::Big, value.to_bits())),
        value
    );
    assert_eq!(
        f64::from_bits(roundtrip(ByteOrder::Little, value.to_bits())),
        value
    );
}

#[test]
fn floats() {
    assert_f32_roundtrips(0.0f32);
    assert_f64_roundtrips(0.0f64);
    assert_f32_roundtrips(1.02f32);
    assert_f64_roundtrips(1.02f64);
    assert_f32_roundtrips(1e30f32);
    assert_f64_roundtrips(1e100f64);
    assert_f32_roundtrips(-0.0f32);
    assert_f64_roundtrips(-0.0f64);
    assert_f32_roundtrips(f32::INFINITY);
    assert_f32_roundtrips(f32::NEG_INFINITY);
    assert_f64_roundtrips(f64::INFINITY);
    assert_f64_roundtrips(f64::NEG_INFINITY);
    assert_f32_roundtrips(std::f32::consts::PI);
    assert_f64_roundtrips(-std::f64::consts::PI);

    // NaN != NaN, therefore equality is tested on the packed representation.
    assert_roundtrips_packed(f32::NAN.to_bits());
    assert_roundtrips_packed(f64::NAN.to_bits());
}

#[test]
fn roundtrip_test_basic_structs() {
    let x0 = X { x: 3, y: 4 };
    let x1 = X { x: 2, y: 8 };
    let y = Y { x0, x1, x2: true };

    assert_roundtrips(x0);
    assert_roundtrips(x1);
    assert_roundtrips(y);
    assert_roundtrips(Tuple(x0, y));
    assert_roundtrips(Unit);
}

#[test]
fn roundtrip_test_generic_structs() {
    assert_roundtrips(Wrap(-1i8));
    assert_roundtrips(Wrap(13u16));
    assert_roundtrips(Pair {
        left: Wrap(23i64),
        right: Wrap(274u32),
    });
    assert_roundtrips(HasField { wrap: Wrap(98) });
    assert_roundtrips(HasGenericField {
        wrap: Wrap((true, false)),
        x: false,
    });
    assert_roundtrips(HasGenericField {
        wrap: Wrap([(1i16, 2), (9, 3)]),
        x: true,
    });
}

#[test]
fn roundtrip_test_primitive_enums() {
    assert_roundtrips(Code::A);
    assert_roundtrips(Code::B);
    assert_roundtrips(Code::C);
    assert_roundtrips(Wide::A);
    assert_roundtrips(Wide::B);
    assert_roundtrips(Wide::C);
}

#[test]
fn roundtrip_test_arrays() {
    assert_roundtrips([0; 0]);
    assert_roundtrips([3u16, 4, 23, 128, 9]);
    assert_roundtrips([true, false]);
    assert_roundtrips([(false, true), (true, true)]);
    assert_roundtrips(['H', 'e', 'l', 'l', 'o']);
}

#[test]
fn tuple_struct_array() {
    assert_roundtrips(Echo([0, 1, 2, 3]));
}
