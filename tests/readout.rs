use hdfmt::{Cursor, DecodeError, FixedArray, ReadOut};

#[derive(PartialEq, Eq, Debug)]
struct Test {
    a: u32,
    b: u32,
}

#[derive(PartialEq, Eq, Debug)]
struct CheckedTest {
    a: u16,
    b: u32,
}

fn read_checked_test(buf: &mut Cursor) -> Result<CheckedTest, DecodeError> {
    let prefix = FixedArray::<u8, 2>::read_out(buf)?;
    if prefix.as_slice() != [0xde, 0xad] {
        return Err(DecodeError::InvalidMagic);
    }
    let (a, b) = <(u16, u32)>::read_out(buf)?;
    Ok(CheckedTest { a, b })
}

#[derive(PartialEq, Eq, Debug)]
enum DerivedEnum {
    A(u8, u8),
    B { c: u8, d: u8 },
    C,
}

fn read_derived(buf: &mut Cursor) -> Result<DerivedEnum, DecodeError> {
    let tag = u8::read_out(buf)?;
    match tag {
        0x00 => {
            let (x, y) = <(u8, u8)>::read_out(buf)?;
            Ok(DerivedEnum::A(x, y))
        }
        0x01 => {
            let (c, d) = <(u8, u8)>::read_out(buf)?;
            Ok(DerivedEnum::B { c, d })
        }
        0x02 => Ok(DerivedEnum::C),
        _ => Err(DecodeError::UnknownDiscriminant(tag)),
    }
}

#[test]
fn test_read_out() {
    let data = vec![0xde, 0xad, 0xbe, 0xef];
    let buf = &mut Cursor::new(data);
    assert!(u32::read_out(buf).unwrap() == 0xefbeadde);
}

#[test]
fn test_struct_derive() {
    let data = vec![0xde, 0xad, 0xbe, 0xef, 0xde, 0xad, 0xbe, 0xef];
    let buf = &mut Cursor::new(data);
    <()>::read_out(buf).unwrap();
    let (a, b) = <(u32, u32)>::read_out(buf).unwrap();
    assert!(
        Test { a, b }
            == Test {
                a: 0xefbeadde,
                b: 0xefbeadde
            }
    );
}

#[test]
fn test_checked() {
    let data = vec![0xde, 0xad, 0xbe, 0xef, 0xde, 0xad, 0xbe, 0xef];
    let buf = &mut Cursor::new(data);
    assert!(
        read_checked_test(buf).unwrap()
            == CheckedTest {
                a: 0xefbe,
                b: 0xefbeadde
            }
    );

    let mangled = vec![0x00, 0x00, 0xbe, 0xef, 0xde, 0xad, 0xbe, 0xef];
    let buf = &mut Cursor::new(mangled);
    assert!(read_checked_test(buf).is_err());
}

#[test]
fn enum_derive() -> Result<(), DecodeError> {
    let data = vec![0x00, 0xde, 0xad, 0x01, 0xbe, 0xef, 0x2];
    let buf = &mut Cursor::new(data);

    assert!(read_derived(buf)? == DerivedEnum::A(0xde, 0xad));
    assert!(read_derived(buf)? == DerivedEnum::B { c: 0xbe, d: 0xef });
    assert!(read_derived(buf)? == DerivedEnum::C);

    Ok(())
}

#[test]
fn mangled_enum_is_an_error() {
    let data = vec![0x03, 0xde, 0xad];
    let buf = &mut Cursor::new(data);
    assert_eq!(read_derived(buf), Err(DecodeError::UnknownDiscriminant(0x03)));
}

#[test]
fn scalars_are_little_endian_at_every_width() {
    let buf = &mut Cursor::new(vec![0x7f]);
    assert_eq!(u8::read_out(buf), Ok(0x7f));
    let buf = &mut Cursor::new(vec![0x80]);
    assert_eq!(i8::read_out(buf), Ok(-128));
    let buf = &mut Cursor::new(vec![0xff, 0xff]);
    assert_eq!(i16::read_out(buf), Ok(-1));
    let buf = &mut Cursor::new(vec![0x34, 0x12]);
    assert_eq!(u16::read_out(buf), Ok(0x1234));
    let buf = &mut Cursor::new(vec![0xfe, 0xff, 0xff, 0xff]);
    assert_eq!(i32::read_out(buf), Ok(-2));
    let buf = &mut Cursor::new(vec![1, 2, 3, 4, 5, 6, 7, 8]);
    assert_eq!(u64::read_out(buf), Ok(0x0807060504030201));
    let buf = &mut Cursor::new(vec![0, 0, 0, 0, 0, 0, 0, 0x80]);
    assert_eq!(i64::read_out(buf), Ok(i64::MIN));
}

#[test]
fn scalars_round_trip() {
    for x in [0u128, 1, 0xdead_beef, u128::MAX, 1u128 << 127] {
        let buf = &mut Cursor::new(x.to_le_bytes().to_vec());
        assert_eq!(u128::read_out(buf), Ok(x));
        assert_eq!(buf.remaining(), 0);
    }
    for x in [0i128, -1, i128::MIN, i128::MAX, -12345] {
        let buf = &mut Cursor::new(x.to_le_bytes().to_vec());
        assert_eq!(i128::read_out(buf), Ok(x));
    }
    for x in [0u32, 7, u32::MAX, 0x8000_0000] {
        let mut bytes = x.to_le_bytes().to_vec();
        bytes.push(0xaa);
        let buf = &mut Cursor::new(bytes);
        assert_eq!(u32::read_out(buf), Ok(x));
        assert_eq!(buf.remaining(), 1);
    }
    for x in [i16::MIN, -1, 0, i16::MAX] {
        let buf = &mut Cursor::new(x.to_le_bytes().to_vec());
        assert_eq!(i16::read_out(buf), Ok(x));
    }
}

#[test]
fn short_scalar_is_unexpected_end() {
    let buf = &mut Cursor::new(vec![1, 2, 3]);
    assert_eq!(u32::read_out(buf), Err(DecodeError::UnexpectedEnd));
    let buf = &mut Cursor::new(vec![]);
    assert_eq!(u8::read_out(buf), Err(DecodeError::UnexpectedEnd));
}

#[test]
fn array_consumes_count_times_width_in_order() {
    let buf = &mut Cursor::new(vec![1, 0, 2, 0, 3, 0, 9]);
    let a = FixedArray::<u16, 3>::read_out(buf).unwrap();
    assert_eq!(a.as_slice(), &[1u16, 2, 3]);
    assert_eq!(buf.remaining(), 1);
}

#[test]
fn short_array_fails_whole() {
    let buf = &mut Cursor::new(vec![1, 0, 2, 0, 3]);
    assert_eq!(
        FixedArray::<u16, 3>::read_out(buf).map(|a| a.as_slice().len()),
        Err(DecodeError::UnexpectedEnd)
    );
}

#[test]
fn unit_consumes_nothing() {
    let buf = &mut Cursor::new(vec![5]);
    assert_eq!(<()>::read_out(buf), Ok(()));
    assert_eq!(buf.remaining(), 1);
    let buf = &mut Cursor::new(vec![]);
    assert_eq!(<()>::read_out(buf), Ok(()));
}
