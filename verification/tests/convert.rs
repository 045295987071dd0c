use cbordata::{bigint_from_cbor, bigint_into_cbor};
use cbordata::{Cbor, Error, FromCbor, Info, IntoCbor, Key, SimpleValue, Tag};
use std::sync::Arc;

fn ubig(bytes: Vec<u8>) -> Cbor {
    let info = Info::from(bytes.len() as u64);
    Cbor::Major6(Info::Tiny(2), Tag::UBigNum(Box::new(Cbor::Major2(info, bytes))))
}

fn sbig(bytes: Vec<u8>) -> Cbor {
    let info = Info::from(bytes.len() as u64);
    Cbor::Major6(Info::Tiny(3), Tag::SBigNum(Box::new(Cbor::Major2(info, bytes))))
}

fn is_fail_convert<T: std::fmt::Debug>(res: Result<T, Error>) {
    match res {
        Err(Error::FailConvert(_, _)) => (),
        other => panic!("{:?}", other),
    }
}

#[test]
fn test_bool() {
    assert_eq!(
        true.into_cbor().unwrap(),
        Cbor::Major7(Info::Tiny(20), SimpleValue::True)
    );
    assert_eq!(
        false.into_cbor().unwrap(),
        Cbor::Major7(Info::Tiny(21), SimpleValue::False)
    );
    assert!(bool::from_cbor(true.into_cbor().unwrap()).unwrap());
    assert!(!bool::from_cbor(false.into_cbor().unwrap()).unwrap());
    is_fail_convert(bool::from_cbor(Cbor::Major0(Info::Tiny(1), 1)));
    is_fail_convert(bool::from_cbor(Cbor::Major7(Info::Tiny(22), SimpleValue::Null)));
}

#[test]
fn test_unsigned() {
    assert_eq!(7_u8.into_cbor().unwrap(), Cbor::Major0(Info::Tiny(7), 7));
    assert_eq!(300_u16.into_cbor().unwrap(), Cbor::Major0(Info::U16, 300));
    assert_eq!(
        u32::MAX.into_cbor().unwrap(),
        Cbor::Major0(Info::U32, u32::MAX as u64)
    );
    assert_eq!(
        u64::MAX.into_cbor().unwrap(),
        Cbor::Major0(Info::U64, u64::MAX)
    );
    assert_eq!(24_usize.into_cbor().unwrap(), Cbor::Major0(Info::U8, 24));

    assert_eq!(u8::from_cbor(255_u8.into_cbor().unwrap()).unwrap(), 255);
    assert_eq!(u16::from_cbor(u16::MAX.into_cbor().unwrap()).unwrap(), u16::MAX);
    assert_eq!(u32::from_cbor(u32::MAX.into_cbor().unwrap()).unwrap(), u32::MAX);
    assert_eq!(u64::from_cbor(u64::MAX.into_cbor().unwrap()).unwrap(), u64::MAX);
    assert_eq!(
        usize::from_cbor(usize::MAX.into_cbor().unwrap()).unwrap(),
        usize::MAX
    );
    is_fail_convert(u8::from_cbor(256_u16.into_cbor().unwrap()));
    is_fail_convert(u16::from_cbor(65536_u32.into_cbor().unwrap()));
    is_fail_convert(u32::from_cbor((1_u64 << 32).into_cbor().unwrap()));
    is_fail_convert(u64::from_cbor((-1_i8).into_cbor().unwrap()));
    is_fail_convert(u64::from_cbor("1".into_cbor().unwrap()));
}

#[test]
fn test_signed() {
    assert_eq!(7_i8.into_cbor().unwrap(), Cbor::Major0(Info::Tiny(7), 7));
    assert_eq!((-1_i8).into_cbor().unwrap(), Cbor::Major1(Info::Tiny(0), 0));
    assert_eq!((-25_i16).into_cbor().unwrap(), Cbor::Major1(Info::U8, 24));
    assert_eq!(
        (-1000_i32).into_cbor().unwrap(),
        Cbor::Major1(Info::U16, 999)
    );
    assert_eq!(
        i64::MIN.into_cbor().unwrap(),
        Cbor::Major1(Info::U64, i64::MAX as u64)
    );
    assert_eq!(
        i64::MAX.into_cbor().unwrap(),
        Cbor::Major0(Info::U64, i64::MAX as u64)
    );

    for num in [i8::MIN, -1, 0, 1, i8::MAX] {
        assert_eq!(i8::from_cbor(num.into_cbor().unwrap()).unwrap(), num);
    }
    for num in [i16::MIN, -1, 0, 1, i16::MAX] {
        assert_eq!(i16::from_cbor(num.into_cbor().unwrap()).unwrap(), num);
    }
    for num in [i32::MIN, -1, 0, 1, i32::MAX] {
        assert_eq!(i32::from_cbor(num.into_cbor().unwrap()).unwrap(), num);
    }
    for num in [i64::MIN, -1, 0, 1, i64::MAX] {
        assert_eq!(i64::from_cbor(num.into_cbor().unwrap()).unwrap(), num);
    }
    for num in [isize::MIN, -1, 0, 1, isize::MAX] {
        assert_eq!(isize::from_cbor(num.into_cbor().unwrap()).unwrap(), num);
    }
    is_fail_convert(i8::from_cbor(128_i16.into_cbor().unwrap()));
    is_fail_convert(i8::from_cbor((-129_i16).into_cbor().unwrap()));
    is_fail_convert(i16::from_cbor(40000_i32.into_cbor().unwrap()));
    is_fail_convert(i32::from_cbor(i64::MIN.into_cbor().unwrap()));
    is_fail_convert(i64::from_cbor(u64::MAX.into_cbor().unwrap()));
    is_fail_convert(i64::from_cbor(Cbor::Major1(Info::U64, u64::MAX)));
    is_fail_convert(i64::from_cbor(Cbor::Major2(Info::Tiny(0), vec![])));
}

#[test]
fn test_text_and_bytes() {
    let val = "h\u{e9}llo".into_cbor().unwrap();
    assert_eq!(
        val,
        Cbor::Major3(Info::Tiny(6), vec![b'h', 0xc3, 0xa9, b'l', b'l', b'o'])
    );
    assert_eq!(String::from_cbor(val.clone()).unwrap(), "h\u{e9}llo");
    assert_eq!("h\u{e9}llo".to_string().into_cbor().unwrap(), val);
    is_fail_convert(String::from_cbor(Cbor::Major3(
        Info::Tiny(2),
        vec![0xc3, 0x28],
    )));
    is_fail_convert(String::from_cbor(Cbor::Major2(Info::Tiny(1), vec![b'a'])));

    let bytes: &[u8] = &[1, 2, 3];
    assert_eq!(
        bytes.into_cbor().unwrap(),
        Cbor::Major2(Info::Tiny(3), vec![1, 2, 3])
    );
}

#[test]
fn test_sequences() {
    let val = vec![1_u32, 300, 70000].into_cbor().unwrap();
    let list = vec![
        Cbor::Major0(Info::Tiny(1), 1),
        Cbor::Major0(Info::U16, 300),
        Cbor::Major0(Info::U32, 70000),
    ];
    assert_eq!(val, Cbor::Major4(Info::Tiny(3), list.clone()));
    assert_eq!(Vec::<u32>::from_cbor(val.clone()).unwrap(), vec![1, 300, 70000]);
    is_fail_convert(Vec::<u8>::from_cbor(val.clone()));
    is_fail_convert(Vec::<u32>::from_cbor(Cbor::Major0(Info::Tiny(1), 1)));
    assert_eq!(Vec::<Cbor>::from_cbor(val.clone()).unwrap(), list);
    assert_eq!(list.clone().into_cbor().unwrap(), val);
    is_fail_convert(Vec::<Cbor>::from_cbor(Cbor::Major0(Info::Tiny(1), 1)));

    // The first failure among the elements decides.
    let keys = vec![Key::U64(1), Key::N64(5), Key::N64(6)];
    is_fail_convert(keys.into_cbor());
    let mixed = Cbor::Major4(
        Info::Tiny(2),
        vec![
            Cbor::Major4(Info::Tiny(0), vec![]),
            Cbor::Major1(Info::U64, u64::MAX),
        ],
    );
    match Vec::<Key>::from_cbor(mixed) {
        Err(Error::FailCbor(_, _)) => (),
        other => panic!("{:?}", other),
    }

    let map = vec![(Key::U64(2), Cbor::Major0(Info::Tiny(1), 1))];
    let val = map.clone().into_cbor().unwrap();
    assert_eq!(val, Cbor::Major5(Info::Tiny(1), map.clone()));
    assert_eq!(Vec::<(Key, Cbor)>::from_cbor(val).unwrap(), map);
    is_fail_convert(Vec::<(Key, Cbor)>::from_cbor(Cbor::Major4(
        Info::Tiny(0),
        vec![],
    )));
}

#[test]
fn test_arrays() {
    let val = [1_u8, 2, 3].into_cbor().unwrap();
    assert_eq!(
        val,
        Cbor::Major4(
            Info::Tiny(3),
            vec![
                Cbor::Major0(Info::Tiny(1), 1),
                Cbor::Major0(Info::Tiny(2), 2),
                Cbor::Major0(Info::Tiny(3), 3),
            ]
        )
    );
    assert_eq!(<[u8; 3]>::from_cbor(val.clone()).unwrap(), [1, 2, 3]);
    assert_eq!(<[i64; 0]>::from_cbor([0_u8; 0].into_cbor().unwrap()).unwrap(), []);
    is_fail_convert(<[u8; 2]>::from_cbor(val.clone()));
    is_fail_convert(<[u8; 4]>::from_cbor(val));
    is_fail_convert(<[u8; 1]>::from_cbor([256_u16].into_cbor().unwrap()));
    is_fail_convert(<[u8; 3]>::from_cbor(Cbor::Major0(Info::Tiny(1), 1)));
    is_fail_convert(<[u64; 1]>::from_cbor(Cbor::Major0(Info::Tiny(1), 1)));
}

#[test]
fn test_optional_and_shared() {
    assert_eq!(
        None::<u8>.into_cbor().unwrap(),
        Cbor::Major7(Info::Tiny(22), SimpleValue::Null)
    );
    assert_eq!(Some(5_u8).into_cbor().unwrap(), Cbor::Major0(Info::Tiny(5), 5));
    assert_eq!(
        Option::<u8>::from_cbor(None::<u8>.into_cbor().unwrap()).unwrap(),
        None
    );
    assert_eq!(
        Option::<u8>::from_cbor(Some(5_u8).into_cbor().unwrap()).unwrap(),
        Some(5)
    );
    is_fail_convert(Option::<u8>::from_cbor(Cbor::Major0(Info::U16, 256)));

    let shared = Arc::<String>::from_cbor("s".into_cbor().unwrap()).unwrap();
    assert_eq!(*shared, "s");
    assert_eq!(Arc::strong_count(&shared), 1);
    is_fail_convert(Arc::<u8>::from_cbor(Cbor::Major0(Info::U16, 256)));
}

#[test]
fn test_simple_value_into() {
    assert_eq!(
        SimpleValue::Null.into_cbor().unwrap(),
        Cbor::Major7(Info::Tiny(22), SimpleValue::Null)
    );
    assert_eq!(
        SimpleValue::F32(5).into_cbor().unwrap(),
        Cbor::Major7(Info::U32, SimpleValue::F32(5))
    );
    assert_eq!(
        SimpleValue::F64(5).into_cbor().unwrap(),
        Cbor::Major7(Info::U64, SimpleValue::F64(5))
    );
    assert_eq!(
        SimpleValue::Break.into_cbor().unwrap(),
        Cbor::Major7(Info::Indefinite, SimpleValue::Break)
    );
    assert_eq!(SimpleValue::Unassigned.to_type_order(), 4);
    assert_eq!(SimpleValue::Break.to_type_order(), 40);
}

#[test]
fn test_big_integers_exact() {
    assert_eq!(0_u128.into_cbor().unwrap(), ubig(vec![0]));
    assert_eq!(255_u128.into_cbor().unwrap(), ubig(vec![255]));
    assert_eq!(256_u128.into_cbor().unwrap(), ubig(vec![1, 0]));
    assert_eq!(u128::MAX.into_cbor().unwrap(), ubig(vec![255; 16]));
    assert_eq!(0_i128.into_cbor().unwrap(), ubig(vec![0]));
    assert_eq!(1_i128.into_cbor().unwrap(), ubig(vec![1]));
    assert_eq!((-1_i128).into_cbor().unwrap(), sbig(vec![1]));
    assert_eq!((-256_i128).into_cbor().unwrap(), sbig(vec![1, 0]));
    let mut min = vec![0; 16];
    min[0] = 0x80;
    assert_eq!(i128::MIN.into_cbor().unwrap(), sbig(min.clone()));

    assert_eq!(u128::from_cbor(ubig(vec![1, 0])).unwrap(), 256);
    assert_eq!(u128::from_cbor(ubig(vec![0, 0, 1, 2])).unwrap(), 258);
    assert_eq!(u128::from_cbor(ubig(vec![])).unwrap(), 0);
    assert_eq!(u128::from_cbor(sbig(vec![0])).unwrap(), 0);
    assert_eq!(i128::from_cbor(sbig(vec![1, 0])).unwrap(), -256);
    assert_eq!(i128::from_cbor(sbig(min.clone())).unwrap(), i128::MIN);
    assert_eq!(i128::from_cbor(ubig(vec![127])).unwrap(), 127);
    for num in [0, 1, 255, 256, u64::MAX as u128 + 1, u128::MAX] {
        assert_eq!(u128::from_cbor(num.into_cbor().unwrap()).unwrap(), num);
    }
    for num in [i128::MIN, -257, -1, 0, 1, i128::MAX] {
        assert_eq!(i128::from_cbor(num.into_cbor().unwrap()).unwrap(), num);
    }

    let mut over = vec![0; 17];
    over[0] = 1;
    is_fail_convert(u128::from_cbor(ubig(over.clone())));
    is_fail_convert(u128::from_cbor(sbig(vec![1])));
    is_fail_convert(i128::from_cbor(ubig(min.clone())));
    is_fail_convert(i128::from_cbor(sbig(over)));
    min[15] = 1;
    is_fail_convert(i128::from_cbor(sbig(min)));
    is_fail_convert(u128::from_cbor(Cbor::Major0(Info::Tiny(1), 1)));
    is_fail_convert(u128::from_cbor(Cbor::from(Tag::from_value(2))));
    is_fail_convert(i128::from_cbor(Cbor::Major6(
        Info::Tiny(2),
        Tag::UBigNum(Box::new(Cbor::Major0(Info::Tiny(1), 1))),
    )));
}

#[test]
fn test_big_integer_parts() {
    let val = bigint_into_cbor(true, vec![0, 9]).unwrap();
    assert_eq!(val, sbig(vec![0, 9]));
    assert_eq!(bigint_from_cbor(val).unwrap(), (true, vec![0, 9]));
    let val = bigint_into_cbor(false, vec![]).unwrap();
    assert_eq!(val, ubig(vec![]));
    assert_eq!(bigint_from_cbor(val).unwrap(), (false, vec![]));
    is_fail_convert(bigint_from_cbor(Cbor::from(Tag::from_identifier(
        Cbor::Major2(Info::Tiny(0), vec![]),
    ))));
    is_fail_convert(bigint_from_cbor(Cbor::Major2(Info::Tiny(0), vec![])));
}
