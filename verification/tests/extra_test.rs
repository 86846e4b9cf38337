use lightpack::compose::Fallible;
use lightpack::extra::UnpackInto;
use lightpack::unpack::Error;
use lightpack::{ByteOrder, Pack, Size, Unpack};

fn pack_vec<P: Pack>(order: ByteOrder, value: P) -> Vec<u8> {
    let mut buffer = vec![0u8; P::size()];
    value.pack(order, &mut buffer, 0);
    buffer
}

#[test]
fn option_sizes() {
    assert_eq!(Option::<u16>::size(), u16::size() + 1);
    assert_eq!(Option::<()>::size(), 1);
    assert_eq!(<[u16; 3]>::size(), 3 * u16::size());
    assert_eq!(<(u8, u16)>::size(), u8::size() + u16::size());
}

#[test]
fn option_pack_bytes() {
    assert_eq!(pack_vec(ByteOrder::Big, Some(258u16)), vec![1, 1, 2]);
    assert_eq!(pack_vec(ByteOrder::Little, Some(258u16)), vec![1, 2, 1]);
    // An absent value writes the zero flag and zero-fills the payload
    // region, so encoded output is deterministic.
    assert_eq!(pack_vec(ByteOrder::Big, None::<u16>), vec![0, 0, 0]);
}

#[test]
fn option_unpack() {
    assert_eq!(
        Option::<u16>::unpack(ByteOrder::Big, &[1, 1, 2]),
        Ok(Some(258u16))
    );
    // Any nonzero presence flag means present.
    assert_eq!(
        Option::<u16>::unpack(ByteOrder::Big, &[7, 1, 2]),
        Ok(Some(258u16))
    );
    // An absent value never inspects the payload bytes.
    assert_eq!(Option::<u16>::unpack(ByteOrder::Big, &[0, 9, 9]), Ok(None));
}

#[test]
fn option_roundtrip() {
    for order in [ByteOrder::Big, ByteOrder::Little] {
        let mut buffer = vec![9u8; Option::<u32>::size()];
        Some(70000u32).pack(order, &mut buffer, 0);
        assert_eq!(Option::<u32>::unpack(order, &buffer), Ok(Some(70000u32)));
        None::<u32>.pack(order, &mut buffer, 0);
        assert_eq!(Option::<u32>::unpack(order, &buffer), Ok(None));
    }
}

#[test]
fn char_pack_bytes() {
    assert_eq!(pack_vec(ByteOrder::Big, 'A'), vec![0, 0, 0, 65]);
    assert_eq!(pack_vec(ByteOrder::Little, 'A'), vec![65, 0, 0, 0]);
}

#[test]
fn char_roundtrip() {
    for order in [ByteOrder::Big, ByteOrder::Little] {
        for c in ['\0', 'A', 'é', '\u{10FFFF}'] {
            let mut buffer = vec![0u8; char::size()];
            c.pack(order, &mut buffer, 0);
            assert_eq!(char::unpack(order, &buffer), Ok(c));
        }
    }
}

#[test]
fn char_invalid() {
    // 0xD800 is a surrogate code point and must be rejected.
    assert_eq!(
        char::unpack(ByteOrder::Big, &[0, 0, 0xD8, 0]),
        Err(Error::InvalidChar(0xD800))
    );
    // Values beyond 0x10FFFF are not code points at all.
    assert_eq!(
        char::unpack(ByteOrder::Big, &[0, 0x11, 0, 0]),
        Err(Error::InvalidChar(0x110000))
    );
}

#[test]
fn fallible_leaf() {
    assert_eq!(Fallible::unpack(ByteOrder::Big, &[1, 0]), Ok(Fallible));
    assert_eq!(
        Fallible::unpack(ByteOrder::Big, &[0, 7]),
        Err(Error::Custom(7))
    );
}

#[test]
fn pack_at_offset_leaves_rest_untouched() {
    let mut buffer = vec![9u8; 6];
    258u16.pack(ByteOrder::Big, &mut buffer, 2);
    assert_eq!(buffer, vec![9, 9, 1, 2, 9, 9]);
}

#[test]
fn unpack_safely_into_checks_length() {
    let buffer = [1u8, 2];
    let ok: Result<u16, Error> = (&buffer[..]).unpack_safely_into(ByteOrder::Big);
    assert_eq!(ok, Ok(258));
    let too_small: Result<u32, Error> = (&buffer[..]).unpack_safely_into(ByteOrder::Big);
    assert_eq!(
        too_small,
        Err(Error::BufferTooSmall {
            actual: 2,
            expected: 4
        })
    );
}

#[test]
fn tolerates_oversized_buffers() {
    // Decode reads exactly the first `size` bytes; trailing bytes are ignored.
    assert_eq!(u16::unpack(ByteOrder::Big, &[1, 2, 99, 99]), Ok(258));
}
