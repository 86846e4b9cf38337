use lightpack::compose::{Code, HasField, HasGenericField, Mixed, Pair, Tuple, Unit, Wrap, X, Y};
use lightpack::extra::{PackSize, BE, LE};
use lightpack::{ByteOrder, Pack, Size};

fn pack_vec<P: Pack>(order: ByteOrder, value: P) -> Vec<u8> {
    let mut buffer = vec![0u8; P::size()];
    value.pack(order, &mut buffer, 0);
    buffer
}

#[test]
fn pack_test_unsigned_ints() {
    assert_eq!(pack_vec::<u8>(ByteOrder::Big, 0), vec![0]);
    assert_eq!(pack_vec::<u16>(ByteOrder::Big, 4), vec![0, 4]);
    assert_eq!(pack_vec::<u16>(ByteOrder::Little, 4), vec![4, 0]);
    assert_eq!(pack_vec::<u16>(ByteOrder::Big, 258), vec![1, 2]);
    assert_eq!(pack_vec::<u16>(ByteOrder::Little, 258), vec![2, 1]);
    assert_eq!(pack_vec::<u32>(ByteOrder::Little, 1048), vec![24, 0b100, 0, 0]);
    assert_eq!(pack_vec::<u32>(ByteOrder::Big, 1048), vec![0, 0, 0b100, 24]);
}

#[test]
fn pack_test_signed_ints() {
    assert_eq!(pack_vec::<i8>(ByteOrder::Big, 0), vec![0]);
    assert_eq!(pack_vec::<i8>(ByteOrder::Big, -1), vec![255]);
    assert_eq!(pack_vec::<i8>(ByteOrder::Little, -2), vec![254]);
    assert_eq!(pack_vec::<i16>(ByteOrder::Big, 256), vec![1, 0]);
    assert_eq!(pack_vec::<i16>(ByteOrder::Little, 256), vec![0, 1]);
}

#[test]
fn pack_test_basic_structs() {
    let x0 = X { x: 3, y: 4 };
    let x1 = X { x: 2, y: 8 };
    let y = Y { x0, x1, x2: true };

    assert_eq!(pack_vec(ByteOrder::Big, x0), vec![3, 0, 4]);
    assert_eq!(pack_vec(ByteOrder::Little, x1), vec![2, 8, 0]);
    assert_eq!(pack_vec(ByteOrder::Big, y), vec![3, 0, 4, 2, 0, 8, 1]);
    assert_eq!(
        pack_vec(ByteOrder::Big, Tuple(x0, y)),
        vec![3, 0, 4, 3, 0, 4, 2, 0, 8, 1]
    );
    assert_eq!(pack_vec(ByteOrder::Big, Unit), vec![]);
}

#[test]
fn pack_test_generic_structs() {
    assert_eq!(pack_vec(ByteOrder::Little, Wrap(3i32)), vec![3, 0, 0, 0]);
    assert_eq!(pack_vec(ByteOrder::Big, Wrap(4u16)), vec![0, 4]);
    assert_eq!(
        pack_vec(
            ByteOrder::Big,
            Pair {
                left: -4i16,
                right: 3u8
            }
        ),
        pack_vec(ByteOrder::Big, (-4i16, 3u8))
    );
    assert_eq!(
        pack_vec(ByteOrder::Big, HasField { wrap: Wrap(4u32) }),
        vec![0, 0, 0, 4]
    );
    assert_eq!(
        pack_vec(
            ByteOrder::Little,
            HasGenericField {
                wrap: Wrap(false),
                x: true
            }
        ),
        vec![0, 1]
    );
}

#[test]
fn pack_test_primitive_enums() {
    assert_eq!(pack_vec(ByteOrder::Big, Code::A), vec![1]);
    assert_eq!(pack_vec(ByteOrder::Big, Code::B), vec![4]);
    assert_eq!(pack_vec(ByteOrder::Big, Code::C), vec![8]);
}

#[test]
fn pack_test_arrays() {
    assert_eq!(pack_vec(ByteOrder::Big, [0u32; 0]), vec![]);
    assert_eq!(pack_vec(ByteOrder::Big, [-1i8]), vec![255]);
    assert_eq!(
        pack_vec(ByteOrder::Big, [16u32; 3]),
        vec![0, 0, 0, 16, 0, 0, 0, 16, 0, 0, 0, 16]
    );
    assert_eq!(pack_vec(ByteOrder::Big, [3u8, 4, 1, 0, 2]), vec![3, 4, 1, 0, 2]);
    assert_eq!(
        pack_vec(ByteOrder::Little, [2i16, 3, -1]),
        vec![2, 0, 3, 0, 255, 255]
    );
    assert_eq!(
        pack_vec(
            ByteOrder::Little,
            [(true, false), (false, false), (true, true)]
        ),
        vec![1, 0, 0, 0, 1, 1]
    );
}

#[test]
fn pack_test_fixed_endianness() {
    assert_eq!(
        pack_vec(ByteOrder::Big, BE(45u16)),
        pack_vec::<u16>(ByteOrder::Big, 45)
    );
    assert_eq!(
        pack_vec(ByteOrder::Little, BE(45u16)),
        pack_vec::<u16>(ByteOrder::Big, 45)
    );
    assert_eq!(
        pack_vec(ByteOrder::Big, LE(45u16)),
        pack_vec::<u16>(ByteOrder::Little, 45)
    );
    assert_eq!(
        pack_vec(ByteOrder::Little, LE(45u16)),
        pack_vec::<u16>(ByteOrder::Little, 45)
    );
}

#[test]
fn mixed_endianness() {
    assert_eq!(
        pack_vec(
            ByteOrder::Big,
            Mixed {
                le: LE(256),
                be: BE(256)
            }
        ),
        vec![0, 1, 1, 0]
    );
    assert_eq!(
        pack_vec(
            ByteOrder::Little,
            Mixed {
                le: LE(256),
                be: BE(256)
            }
        ),
        vec![0, 1, 1, 0]
    );
}

#[test]
fn test_pack_size() {
    let mut buffer = [0u8; 4];
    assert_eq!(3u16.pack_size(ByteOrder::Big, &mut buffer, 0), u16::size());
    assert_eq!(2u32.pack_size(ByteOrder::Big, &mut buffer, 0), u32::size());
}
