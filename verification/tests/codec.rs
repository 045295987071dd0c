use cbordata::{decode_addnl, decode_hdr, encode_addnl, encode_hdr};
use cbordata::{Cbor, Error, Info, IntoCbor, Key, SimpleValue, Tag};

fn roundtrip(val: &Cbor) {
    let mut buf: Vec<u8> = vec![];
    let n = val.encode(&mut buf).unwrap();
    assert_eq!(n, buf.len());
    let mut r = buf.as_slice();
    let (nval, m) = Cbor::decode(&mut r).unwrap();
    assert_eq!(n, m);
    assert_eq!(*val, nval);
    assert_eq!(r.len(), 0);
}

fn decode_all(bytes: &[u8]) -> Result<(Cbor, usize), Error> {
    let mut r = bytes;
    Cbor::decode(&mut r)
}

fn nested(levels: usize) -> Cbor {
    let mut val = Cbor::Major4(Info::Tiny(0), vec![]);
    for _ in 0..levels {
        val = Cbor::Major4(Info::Tiny(1), vec![val]);
    }
    val
}

fn nested_bytes(levels: usize) -> Vec<u8> {
    let mut bytes = vec![0x81; levels];
    bytes.push(0x80);
    bytes
}

#[test]
fn test_roundtrip_scalars() {
    roundtrip(&Cbor::Major0(Info::Tiny(0), 0));
    roundtrip(&Cbor::Major0(Info::Tiny(23), 23));
    roundtrip(&Cbor::Major0(Info::U8, 24));
    roundtrip(&Cbor::Major0(Info::U16, 256));
    roundtrip(&Cbor::Major0(Info::U32, 65536));
    roundtrip(&Cbor::Major0(Info::U64, 1 << 32));
    roundtrip(&Cbor::Major1(Info::U64, u64::MAX));
    roundtrip(&Cbor::Major0(Info::Indefinite, 0));
    roundtrip(&SimpleValue::Null.into_cbor().unwrap());
    roundtrip(&SimpleValue::Break.into_cbor().unwrap());
    roundtrip(&SimpleValue::F32(1.5_f32.to_bits()).into_cbor().unwrap());
    roundtrip(&SimpleValue::F64(f64::NAN.to_bits()).into_cbor().unwrap());
    roundtrip(&Cbor::bytes_into_cbor(vec![7; 300]).unwrap());
    roundtrip(&Cbor::from(Tag::from_value(40)));
    roundtrip(&Cbor::Major6(Info::Indefinite, Tag::Value(0)));
}

#[test]
fn test_concrete_sequence() {
    let text = "a\"b".as_bytes().to_vec();
    let list = vec![
        SimpleValue::Null.into_cbor().unwrap(),
        SimpleValue::True.into_cbor().unwrap(),
        SimpleValue::False.into_cbor().unwrap(),
        Cbor::Major3(Info::Tiny(3), text),
    ];
    let val = Cbor::Major4(Info::Tiny(4), list);
    let mut buf: Vec<u8> = vec![];
    let n = val.encode(&mut buf).unwrap();
    assert_eq!(buf, vec![0x84, 0xf6, 0xf4, 0xf5, 0x63, b'a', b'"', b'b']);
    let (nval, m) = Cbor::decode(&mut buf.as_slice()).unwrap();
    assert_eq!(n, m);
    assert_eq!(n, 8);
    assert_eq!(val, nval);
    match nval {
        Cbor::Major4(_, items) => {
            assert_eq!(items.len(), 4);
            assert_eq!(items[0], Cbor::Major7(Info::Tiny(22), SimpleValue::Null));
            assert_eq!(items[1], Cbor::Major7(Info::Tiny(20), SimpleValue::True));
            assert_eq!(items[2], Cbor::Major7(Info::Tiny(21), SimpleValue::False));
            assert_eq!(items[3], Cbor::Major3(Info::Tiny(3), vec![b'a', b'"', b'b']));
        }
        other => panic!("{:?}", other),
    }
}

#[test]
fn test_map_and_tag() {
    let map = vec![
        (Key::U64(1), Cbor::Major0(Info::Tiny(2), 2)),
        (Key::N64(-1), Cbor::from(Tag::from_value(100))),
        (Key::N64(i64::MIN), Cbor::Major0(Info::Tiny(0), 0)),
        (Key::Bool(true), Cbor::Major0(Info::Tiny(0), 0)),
        (Key::F32(2.5_f32.to_bits()), Cbor::Major0(Info::Tiny(0), 0)),
        (Key::F64(f64::NAN.to_bits()), Cbor::Major0(Info::Tiny(0), 0)),
        (Key::Bytes(vec![1, 2]), Cbor::Major0(Info::Tiny(0), 0)),
        (Key::Text("k\u{e9}".to_string()), Cbor::Major2(Info::Tiny(1), vec![9])),
        (Key::U64(1), Cbor::Major0(Info::Tiny(3), 3)),
    ];
    roundtrip(&Cbor::Major5(Info::Tiny(9), map));
    let inner = Cbor::Major0(Info::Tiny(7), 7);
    let val = Cbor::from(Tag::from_identifier(inner));
    roundtrip(&val);
    let mut buf = vec![];
    val.encode(&mut buf).unwrap();
    assert_eq!(buf, vec![0xd8, 39, 0x07]);
    assert_eq!(Tag::from_value(7).to_tag_value(), 7);
    assert_eq!(
        Tag::from_identifier(Cbor::Major0(Info::Tiny(0), 0)).to_tag_value(),
        39
    );
}

#[test]
fn test_map_bytes() {
    let map = vec![(Key::N64(-25), Cbor::Major7(Info::Tiny(22), SimpleValue::Null))];
    let mut buf = vec![];
    let n = Cbor::Major5(Info::Tiny(1), map).encode(&mut buf).unwrap();
    assert_eq!(n, 4);
    assert_eq!(buf, vec![0xa1, 0x38, 24, 0xf6]);
}

#[test]
fn test_encode_appends() {
    let mut buf = vec![0xaa];
    let n = Cbor::Major0(Info::U16, 0x1234).encode(&mut buf).unwrap();
    assert_eq!(n, 3);
    assert_eq!(buf, vec![0xaa, 0x19, 0x12, 0x34]);
}

#[test]
fn test_width_minimality() {
    let cases: Vec<(u64, usize, Vec<u8>)> = vec![
        (0, 0, vec![]),
        (23, 0, vec![]),
        (24, 1, vec![24]),
        (255, 1, vec![255]),
        (256, 2, vec![1, 0]),
        (65535, 2, vec![255, 255]),
        (65536, 4, vec![0, 1, 0, 0]),
        (u32::MAX as u64, 4, vec![255, 255, 255, 255]),
        (1 << 32, 8, vec![0, 0, 0, 1, 0, 0, 0, 0]),
        (0x0102030405060708, 8, vec![1, 2, 3, 4, 5, 6, 7, 8]),
        (u64::MAX, 8, vec![255; 8]),
    ];
    for (num, width, bytes) in cases {
        let mut buf = vec![];
        assert_eq!(encode_addnl(num, &mut buf).unwrap(), width);
        assert_eq!(buf, bytes);
        let info = Info::from(num);
        let mut r = buf.as_slice();
        assert_eq!(decode_addnl(info, &mut r).unwrap(), (num, width));
        assert_eq!(r.len(), 0);
    }
    assert_eq!(Info::from(23), Info::Tiny(23));
    assert_eq!(Info::from(24), Info::U8);
    assert_eq!(Info::from(256), Info::U16);
    assert_eq!(Info::from(65536), Info::U32);
    assert_eq!(Info::from(1 << 32), Info::U64);
    assert_eq!(Info::try_from(300_usize).unwrap(), Info::U16);
}

#[test]
fn test_header() {
    let mut buf = vec![];
    assert_eq!(encode_hdr(3, Info::U16, &mut buf).unwrap(), 1);
    assert_eq!(encode_hdr(7, Info::Indefinite, &mut buf).unwrap(), 1);
    assert_eq!(encode_hdr(0, Info::Tiny(23), &mut buf).unwrap(), 1);
    assert_eq!(encode_hdr(1, Info::Reserved29, &mut buf).unwrap(), 1);
    assert_eq!(buf, vec![0x79, 0xff, 0x17, 0x3d]);
    match encode_hdr(0, Info::Tiny(24), &mut buf) {
        Err(Error::FailCbor(_, _)) => (),
        other => panic!("{:?}", other),
    }
    assert_eq!(buf.len(), 4);

    let mut r = buf.as_slice();
    assert_eq!(decode_hdr(&mut r).unwrap(), (3, Info::U16, 1));
    assert_eq!(decode_hdr(&mut r).unwrap(), (7, Info::Indefinite, 1));
    assert_eq!(decode_hdr(&mut r).unwrap(), (0, Info::Tiny(23), 1));
    assert_eq!(decode_hdr(&mut r).unwrap(), (1, Info::Reserved29, 1));
    match decode_hdr(&mut r) {
        Err(Error::IOError(_, _)) => (),
        other => panic!("{:?}", other),
    }
    for code in 0..32_u8 {
        let info = Info::try_from(code).unwrap();
        let mut buf = vec![];
        encode_hdr(5, info, &mut buf).unwrap();
        assert_eq!(buf, vec![5 * 32 + code]);
    }
    match Info::try_from(32_u8) {
        Err(Error::Fatal(_, _)) => (),
        other => panic!("{:?}", other),
    }
}

#[test]
fn test_decode_addnl() {
    let mut r: &[u8] = &[1, 2, 3, 4, 5, 6, 7, 8, 9];
    assert_eq!(decode_addnl(Info::Tiny(7), &mut r).unwrap(), (7, 0));
    assert_eq!(decode_addnl(Info::Indefinite, &mut r).unwrap(), (0, 0));
    assert_eq!(r.len(), 9);
    assert_eq!(decode_addnl(Info::U8, &mut r).unwrap(), (1, 1));
    assert_eq!(decode_addnl(Info::U16, &mut r).unwrap(), (0x0203, 2));
    assert_eq!(decode_addnl(Info::U32, &mut r).unwrap(), (0x04050607, 4));
    assert_eq!(r, &[8, 9]);
    match decode_addnl(Info::U64, &mut r) {
        Err(Error::IOError(_, _)) => (),
        other => panic!("{:?}", other),
    }
    assert_eq!(r, &[8, 9]);
    match decode_addnl(Info::Reserved28, &mut r) {
        Err(Error::FailCbor(_, _)) => (),
        other => panic!("{:?}", other),
    }
    let mut r: &[u8] = &[1, 2, 3, 4, 5, 6, 7, 8];
    assert_eq!(
        decode_addnl(Info::U64, &mut r).unwrap(),
        (0x0102030405060708, 8)
    );
}

#[test]
fn test_simple_values() {
    let mut buf = vec![];
    assert_eq!(SimpleValue::encode(&SimpleValue::True, &mut buf).unwrap(), 0);
    assert_eq!(
        SimpleValue::encode(&SimpleValue::Reserved24(9), &mut buf).unwrap(),
        1
    );
    assert_eq!(
        SimpleValue::encode(&SimpleValue::F16(0x0102), &mut buf).unwrap(),
        2
    );
    assert_eq!(
        SimpleValue::encode(&SimpleValue::F32(1.0_f32.to_bits()), &mut buf).unwrap(),
        4
    );
    assert_eq!(
        SimpleValue::encode(&SimpleValue::F64(1.0_f64.to_bits()), &mut buf).unwrap(),
        8
    );
    assert_eq!(
        buf,
        vec![9, 1, 2, 0x3f, 0x80, 0, 0, 0x3f, 0xf0, 0, 0, 0, 0, 0, 0]
    );

    let mut r: &[u8] = &[0x3f, 0x80, 0, 0, 0x3f, 0xf0, 0, 0, 0, 0, 0, 0];
    let (sval, n) = SimpleValue::decode(Info::U32, &mut r).unwrap();
    assert_eq!((sval, n), (SimpleValue::F32(1.0_f32.to_bits()), 4));
    let (sval, n) = SimpleValue::decode(Info::U64, &mut r).unwrap();
    assert_eq!((sval, n), (SimpleValue::F64(1.0_f64.to_bits()), 8));
    assert_eq!(
        SimpleValue::decode(Info::Tiny(20), &mut r).unwrap(),
        (SimpleValue::True, 0)
    );
    assert_eq!(
        SimpleValue::decode(Info::Tiny(21), &mut r).unwrap(),
        (SimpleValue::False, 0)
    );
    assert_eq!(
        SimpleValue::decode(Info::Tiny(22), &mut r).unwrap(),
        (SimpleValue::Null, 0)
    );
    assert_eq!(
        SimpleValue::decode(Info::Indefinite, &mut r).unwrap(),
        (SimpleValue::Break, 0)
    );
    for info in [
        Info::Tiny(23),
        Info::Tiny(0),
        Info::U8,
        Info::U16,
        Info::Reserved28,
        Info::Reserved29,
        Info::Reserved30,
    ] {
        match SimpleValue::decode(info, &mut r) {
            Err(Error::FailCbor(_, _)) => (),
            other => panic!("{:?}", other),
        }
    }
    match SimpleValue::decode(Info::U32, &mut r) {
        Err(Error::IOError(_, _)) => (),
        other => panic!("{:?}", other),
    }
    for sval in [
        SimpleValue::Unassigned,
        SimpleValue::Undefined,
        SimpleValue::Reserved24(1),
        SimpleValue::F16(1),
    ] {
        match sval.into_cbor() {
            Err(Error::FailConvert(_, _)) => (),
            other => panic!("{:?}", other),
        }
    }
    match decode_all(&[0xf7]) {
        Err(Error::FailCbor(_, _)) => (),
        other => panic!("{:?}", other),
    }
}

#[test]
fn test_float_semantics() {
    let nan = f64::NAN;
    assert!(nan != nan);
    assert_eq!(
        SimpleValue::F64(nan.to_bits()),
        SimpleValue::F64(nan.to_bits())
    );
    assert_eq!(
        SimpleValue::F32(f32::NAN.to_bits()),
        SimpleValue::F32(f32::NAN.to_bits())
    );
    assert_ne!(
        SimpleValue::F64(0.0_f64.to_bits()),
        SimpleValue::F64((-0.0_f64).to_bits())
    );
    assert_eq!(Key::F64(nan.to_bits()), Key::F64(nan.to_bits()));
    assert_eq!(
        Cbor::Major7(Info::U64, SimpleValue::F64(nan.to_bits())),
        Cbor::Major7(Info::U64, SimpleValue::F64(nan.to_bits()))
    );
}

#[test]
fn test_recursion_guard() {
    let mut buf = vec![];
    match nested(1000).encode(&mut buf) {
        Err(Error::FailCbor(_, _)) => (),
        other => panic!("{:?}", other),
    }
    assert!(buf.is_empty());
    match decode_all(&nested_bytes(1000)) {
        Err(Error::FailCbor(_, _)) => (),
        other => panic!("{:?}", other),
    }

    let val = nested(999);
    let mut buf = vec![];
    assert_eq!(val.encode(&mut buf).unwrap(), 1000);
    assert_eq!(buf, nested_bytes(999));
    let (nval, n) = decode_all(&buf).unwrap();
    assert_eq!(n, 1000);
    assert!(nval == val);
}

#[test]
fn test_recursion_guard_through_tags() {
    let mut val = Cbor::Major0(Info::Tiny(0), 0);
    for _ in 0..1000 {
        val = Cbor::from(Tag::from_identifier(val));
    }
    let mut buf = vec![];
    match val.encode(&mut buf) {
        Err(Error::FailCbor(_, _)) => (),
        other => panic!("{:?}", other.map(|_| ())),
    }
    let mut bytes = vec![];
    for _ in 0..1000 {
        bytes.extend_from_slice(&[0xd8, 39]);
    }
    bytes.push(0);
    match decode_all(&bytes) {
        Err(Error::FailCbor(_, _)) => (),
        other => panic!("{:?}", other.map(|_| ())),
    }
}

#[test]
fn test_streamed_strings() {
    let (val, n) = decode_all(&[0x5f, 0x41, 1, 0x42, 2, 3, 0xff]).unwrap();
    assert_eq!(n, 7);
    assert_eq!(val, Cbor::Major2(Info::Indefinite, vec![1, 2, 3]));
    let (val, n) = decode_all(&[0x43, 1, 2, 3]).unwrap();
    assert_eq!(n, 4);
    assert_eq!(val, Cbor::Major2(Info::Tiny(3), vec![1, 2, 3]));

    let (val, n) = decode_all(&[0x7f, 0x61, b'a', 0x60, 0x61, b'b', 0xff, 0x00]).unwrap();
    assert_eq!(n, 7);
    assert_eq!(val, Cbor::Major3(Info::Indefinite, vec![b'a', b'b']));

    let (val, n) = decode_all(&[0x5f, 0xff]).unwrap();
    assert_eq!((val, n), (Cbor::Major2(Info::Indefinite, vec![]), 2));

    match decode_all(&[0x5f, 0x01, 0xff]) {
        Err(Error::FailCbor(_, _)) => (),
        other => panic!("{:?}", other),
    }
    match decode_all(&[0x5f, 0x61, b'a', 0xff]) {
        Err(Error::FailCbor(_, _)) => (),
        other => panic!("{:?}", other),
    }
    match decode_all(&[0x7f, 0x41, 1, 0xff]) {
        Err(Error::FailCbor(_, _)) => (),
        other => panic!("{:?}", other),
    }
    match decode_all(&[0x5f, 0x41, 1]) {
        Err(Error::IOError(_, _)) => (),
        other => panic!("{:?}", other),
    }
}

#[test]
fn test_streamed_arrays_and_maps() {
    let one = Cbor::Major0(Info::Tiny(1), 1);
    let two = Cbor::Major0(Info::Tiny(2), 2);
    let (val, n) = decode_all(&[0x9f, 1, 2, 0xff]).unwrap();
    assert_eq!(n, 4);
    assert_eq!(
        val,
        Cbor::Major4(Info::Indefinite, vec![one.clone(), two.clone()])
    );
    let (val, n) = decode_all(&[0x82, 1, 2]).unwrap();
    assert_eq!(n, 3);
    assert_eq!(val, Cbor::Major4(Info::Tiny(2), vec![one.clone(), two.clone()]));

    let (val, n) = decode_all(&[0xbf, 1, 2, 0xff, 0xff]).unwrap();
    assert_eq!(n, 5);
    assert_eq!(
        val,
        Cbor::Major5(Info::Indefinite, vec![(Key::U64(1), two.clone())])
    );
    let (val, n) = decode_all(&[0xa1, 1, 2]).unwrap();
    assert_eq!(n, 3);
    assert_eq!(val, Cbor::Major5(Info::Tiny(1), vec![(Key::U64(1), two.clone())]));

    // A terminator right after a key ends the map, and the key is dropped.
    let (val, n) = decode_all(&[0xbf, 1, 2, 3, 0xff]).unwrap();
    assert_eq!(n, 5);
    assert_eq!(val, Cbor::Major5(Info::Indefinite, vec![(Key::U64(1), two)]));
    let (val, n) = decode_all(&[0xbf, 0x80, 0xff]).unwrap();
    assert_eq!((val, n), (Cbor::Major5(Info::Indefinite, vec![]), 3));

    // A terminator in key position does not end the map.
    match decode_all(&[0xbf, 1, 2, 0xff]) {
        Err(Error::IOError(_, _)) => (),
        other => panic!("{:?}", other),
    }
    // A node that is no key fails once its value has been read.
    match decode_all(&[0xa1, 0x80, 1]) {
        Err(Error::FailCbor(_, _)) => (),
        other => panic!("{:?}", other),
    }
    match decode_all(&[0xa1, 0x80]) {
        Err(Error::IOError(_, _)) => (),
        other => panic!("{:?}", other),
    }
    match decode_all(&[0xa1, 0x61, 0xff, 1]) {
        Err(Error::FailConvert(_, _)) => (),
        other => panic!("{:?}", other),
    }
}

#[test]
fn test_short_source() {
    let mut r: &[u8] = &[0x19, 0x01];
    match Cbor::decode(&mut r) {
        Err(Error::IOError(_, _)) => (),
        other => panic!("{:?}", other),
    }
    assert_eq!(r.len(), 2);
    for bytes in [vec![], vec![0x42, 1], vec![0x82, 1], vec![0xc2], vec![0xfa, 0, 0]] {
        match decode_all(&bytes) {
            Err(Error::IOError(_, _)) => (),
            other => panic!("{:?}", other),
        }
    }
}

#[test]
fn test_reader_moves() {
    let bytes = [0x01, 0x18, 0x20, 0x43, 1, 2, 3];
    let mut r: &[u8] = &bytes;
    assert_eq!(
        Cbor::decode(&mut r).unwrap(),
        (Cbor::Major0(Info::Tiny(1), 1), 1)
    );
    assert_eq!(
        Cbor::decode(&mut r).unwrap(),
        (Cbor::Major0(Info::U8, 0x20), 2)
    );
    assert_eq!(r, &[0x43, 1, 2, 3]);
    assert_eq!(
        Cbor::decode(&mut r).unwrap(),
        (Cbor::Major2(Info::Tiny(3), vec![1, 2, 3]), 4)
    );
    assert!(r.is_empty());
}

#[test]
fn test_reserved_and_oversized() {
    match decode_all(&[0x1c]) {
        Err(Error::FailCbor(_, _)) => (),
        other => panic!("{:?}", other),
    }
    // A wider field than the value needs is read all the same.
    assert_eq!(
        decode_all(&[0x19, 0, 5]).unwrap(),
        (Cbor::Major0(Info::U16, 5), 3)
    );
    assert_eq!(
        decode_all(&[0x3b, 0, 0, 0, 0, 0, 0, 0, 1]).unwrap(),
        (Cbor::Major1(Info::U64, 1), 9)
    );
    // Written back, the narrowest field is chosen, which the header does not announce.
    let mut buf = vec![];
    assert_eq!(Cbor::Major0(Info::U16, 5).encode(&mut buf).unwrap(), 1);
    assert_eq!(buf, vec![0x19]);
}

#[test]
fn test_tags() {
    assert_eq!(
        decode_all(&[0xc2, 0x42, 1, 0]).unwrap(),
        (
            Cbor::Major6(
                Info::Tiny(2),
                Tag::UBigNum(Box::new(Cbor::Major2(Info::Tiny(2), vec![1, 0])))
            ),
            4
        )
    );
    assert_eq!(
        decode_all(&[0xc3, 0x41, 1]).unwrap(),
        (
            Cbor::Major6(
                Info::Tiny(3),
                Tag::SBigNum(Box::new(Cbor::Major2(Info::Tiny(1), vec![1])))
            ),
            3
        )
    );
    assert_eq!(
        decode_all(&[0xd9, 1, 0]).unwrap(),
        (Cbor::Major6(Info::U16, Tag::Value(256)), 3)
    );
}

#[test]
fn test_binary() {
    let mut buf = vec![];
    let n = Cbor::Binary(vec![0x82, 1, 2]).encode(&mut buf).unwrap();
    assert_eq!(n, 3);
    assert_eq!(buf, vec![0x82, 1, 2]);
    let list = Cbor::Major4(
        Info::Tiny(2),
        vec![Cbor::Binary(vec![0x01]), Cbor::Binary(vec![])],
    );
    let mut buf = vec![];
    assert_eq!(list.encode(&mut buf).unwrap(), 2);
    assert_eq!(buf, vec![0x82, 1]);
    assert_eq!(Cbor::Binary(vec![0x82, 1, 2]).to_major_val(), 4);
    assert_eq!(Cbor::Major3(Info::Tiny(0), vec![]).to_major_val(), 3);
}

#[test]
fn test_bytes_into_cbor() {
    let val = Cbor::bytes_into_cbor(vec![1, 2, 3]).unwrap();
    assert_eq!(val, Cbor::Major2(Info::Tiny(3), vec![1, 2, 3]));
    assert_eq!(val.clone().into_bytes().unwrap(), vec![1, 2, 3]);
    match Cbor::Major3(Info::Tiny(0), vec![]).into_bytes() {
        Err(Error::FailConvert(_, _)) => (),
        other => panic!("{:?}", other),
    }
    let big = Cbor::bytes_into_cbor(vec![0; 70000]).unwrap();
    assert!(matches!(big, Cbor::Major2(Info::U32, _)));
}

#[test]
fn test_key_that_does_not_convert() {
    let map = vec![(Key::N64(0), Cbor::Major0(Info::Tiny(0), 0))];
    let mut buf = vec![0x55];
    match Cbor::Major5(Info::Tiny(1), map).encode(&mut buf) {
        Err(Error::FailConvert(_, _)) => (),
        other => panic!("{:?}", other),
    }
    assert_eq!(buf, vec![0x55]);
}

#[test]
fn test_error_text() {
    let e = Error::new(cbordata::ErrorKind::FailCbor, "here", "bad");
    assert_eq!(e.to_string(), "here FailCbor: bad");
    assert_eq!(e.to_kind(), cbordata::ErrorKind::FailCbor);
    assert_eq!(
        Error::Fatal("p".to_string(), "m".to_string()).to_string(),
        "p Fatal: m"
    );
    assert_eq!(
        Error::IOError("p".to_string(), "m".to_string()).to_string(),
        "p IOError: m"
    );
    assert_eq!(
        Error::FailConvert("p".to_string(), "m".to_string()).to_string(),
        "p FailConvert: m"
    );
}

#[test]
fn test_level_beyond_limit() {
    for depth in [1001, 1002, 5000, u32::MAX] {
        let mut buf = vec![1, 2, 3];
        match Cbor::Major0(Info::Tiny(0), 0).do_encode(&mut buf, depth) {
            Err(Error::FailCbor(_, _)) => (),
            other => panic!("{:?}", other),
        }
        assert_eq!(buf, vec![1, 2, 3]);
        match Cbor::Binary(vec![7]).do_encode(&mut buf, depth) {
            Err(Error::FailCbor(_, _)) => (),
            other => panic!("{:?}", other),
        }
        assert_eq!(buf, vec![1, 2, 3]);
        match Cbor::do_decode(&[0x00], depth) {
            Err(Error::FailCbor(_, _)) => (),
            other => panic!("{:?}", other),
        }
    }
    let mut buf = vec![];
    assert_eq!(
        Cbor::Major0(Info::Tiny(5), 5).do_encode(&mut buf, 1000).unwrap(),
        1
    );
    assert_eq!(buf, vec![5]);
    assert_eq!(
        Cbor::do_decode(&[0x05], 1000).unwrap(),
        (Cbor::Major0(Info::Tiny(5), 5), 1)
    );
    // An array at the last level has no room for an element.
    let list = Cbor::Major4(Info::Tiny(1), vec![Cbor::Major0(Info::Tiny(0), 0)]);
    let mut buf = vec![9];
    match list.do_encode(&mut buf, 1000) {
        Err(Error::FailCbor(_, _)) => (),
        other => panic!("{:?}", other),
    }
    assert_eq!(buf, vec![9]);
    let mut buf = vec![];
    assert_eq!(
        Cbor::Major4(Info::Tiny(0), vec![])
            .do_encode(&mut buf, 1000)
            .unwrap(),
        1
    );
}
