use cbordata::{Cbor, Error, FromCbor, Info, IntoCbor, Key, SimpleValue};
use std::cmp::Ordering;

fn samples() -> Vec<Key> {
    vec![
        Key::Bool(false),
        Key::Bool(true),
        Key::N64(i64::MIN),
        Key::N64(-2),
        Key::N64(-1),
        Key::U64(0),
        Key::U64(1),
        Key::U64(u64::MAX),
        Key::F32(f32::NEG_INFINITY.to_bits()),
        Key::F32((-1.5_f32).to_bits()),
        Key::F32((-0.0_f32).to_bits()),
        Key::F32(0.0_f32.to_bits()),
        Key::F32(2.0_f32.to_bits()),
        Key::F32(f32::NAN.to_bits()),
        Key::F64((-f64::NAN).to_bits()),
        Key::F64(f64::MIN.to_bits()),
        Key::F64((-0.0_f64).to_bits()),
        Key::F64(0.0_f64.to_bits()),
        Key::F64(f64::MAX.to_bits()),
        Key::F64(f64::NAN.to_bits()),
        Key::Bytes(vec![]),
        Key::Bytes(vec![0]),
        Key::Bytes(vec![0, 1]),
        Key::Bytes(vec![1]),
        Key::Bytes(vec![255]),
        Key::Text("".to_string()),
        Key::Text("a".to_string()),
        Key::Text("ab".to_string()),
        Key::Text("b".to_string()),
        Key::Text("\u{e9}".to_string()),
    ]
}

#[test]
fn test_key_order_is_total() {
    let keys = samples();
    for (i, a) in keys.iter().enumerate() {
        for (j, b) in keys.iter().enumerate() {
            assert_eq!(a.cmp(b), i.cmp(&j), "{:?} {:?}", a, b);
            assert_eq!(a.partial_cmp(b), Some(i.cmp(&j)));
            assert_eq!(a == b, i == j);
            assert_eq!(a < b, i < j);
        }
    }
}

#[test]
fn test_key_order_is_transitive() {
    let keys = samples();
    for a in keys.iter() {
        for b in keys.iter() {
            for c in keys.iter() {
                if a.cmp(b) != Ordering::Greater && b.cmp(c) != Ordering::Greater {
                    assert!(a.cmp(c) != Ordering::Greater);
                }
            }
        }
    }
}

#[test]
fn test_key_order_of_types() {
    assert!(Key::N64(-1) < Key::U64(0));
    assert!(Key::N64(-1) < Key::U64(u64::MAX));
    assert_eq!(Key::N64(-1).cmp(&Key::U64(0)), Ordering::Less);
    assert_eq!(Key::U64(0).cmp(&Key::N64(-1)), Ordering::Greater);
    for key in samples().into_iter().skip(2) {
        assert!(Key::Bool(true) < key);
        assert!(Key::Bool(false) < key);
    }
    assert_eq!(Key::Bool(true).to_type_order(), 4);
    assert_eq!(Key::N64(-1).to_type_order(), 8);
    assert_eq!(Key::U64(1).to_type_order(), 8);
    assert_eq!(Key::F32(0).to_type_order(), 12);
    assert_eq!(Key::F64(0).to_type_order(), 16);
    assert_eq!(Key::Bytes(vec![]).to_type_order(), 20);
    assert_eq!(Key::Text(String::new()).to_type_order(), 24);
}

#[test]
fn test_float_keys_follow_total_order() {
    let floats = [
        f64::NEG_INFINITY,
        -1.0e300,
        -1.0,
        -f64::MIN_POSITIVE,
        -0.0,
        0.0,
        f64::MIN_POSITIVE,
        1.0,
        f64::INFINITY,
        f64::NAN,
        -f64::NAN,
    ];
    for a in floats {
        for b in floats {
            let (ka, kb) = (Key::F64(a.to_bits()), Key::F64(b.to_bits()));
            assert_eq!(ka.cmp(&kb), a.total_cmp(&b));
            let (a, b) = (a as f32, b as f32);
            let (ka, kb) = (Key::F32(a.to_bits()), Key::F32(b.to_bits()));
            assert_eq!(ka.cmp(&kb), a.total_cmp(&b));
        }
    }
}

#[test]
fn test_string_keys_follow_native_order() {
    let texts = ["", "a", "ab", "b", "z\u{e9}", "\u{e9}", "\u{1f600}", "zz"];
    for a in texts {
        for b in texts {
            let (ka, kb) = (Key::from(a), Key::Text(b.to_string()));
            assert_eq!(ka.cmp(&kb), a.cmp(b));
            let (ka, kb) = (
                Key::from(a.as_bytes().to_vec()),
                Key::Bytes(b.as_bytes().to_vec()),
            );
            assert_eq!(ka.cmp(&kb), a.as_bytes().cmp(b.as_bytes()));
        }
    }
}

#[test]
fn test_key_conversions() {
    assert_eq!(Key::from(true), Key::Bool(true));
    assert_eq!(Key::from(-3_i64), Key::N64(-3));
    assert_eq!(Key::from(3_u64), Key::U64(3));
    assert_eq!(Key::from("x".to_string()), Key::Text("x".to_string()));
    assert_eq!(Key::from("x"), Key::Text("x".to_string()));
    assert_eq!(Key::Bytes(vec![1]).clone(), Key::Bytes(vec![1]));

    for key in samples() {
        let node = key.clone().into_cbor().unwrap();
        assert_eq!(Key::from_cbor(node).unwrap(), key);
    }
    assert_eq!(
        Key::N64(-1).into_cbor().unwrap(),
        Cbor::Major1(Info::Tiny(0), 0)
    );
    assert_eq!(
        Key::N64(-257).into_cbor().unwrap(),
        Cbor::Major1(Info::U16, 256)
    );
    assert_eq!(
        Key::N64(i64::MIN).into_cbor().unwrap(),
        Cbor::Major1(Info::U64, i64::MAX as u64)
    );
    assert_eq!(
        Key::Text("\u{e9}".to_string()).into_cbor().unwrap(),
        Cbor::Major3(Info::Tiny(2), vec![0xc3, 0xa9])
    );
    assert_eq!(
        Key::Bool(false).into_cbor().unwrap(),
        Cbor::Major7(Info::Tiny(21), SimpleValue::False)
    );
    for key in [Key::N64(0), Key::N64(7)] {
        match key.into_cbor() {
            Err(Error::FailConvert(_, _)) => (),
            other => panic!("{:?}", other),
        }
    }
    match Key::from_cbor(Cbor::Major1(Info::U64, 1 << 63)) {
        Err(Error::FailConvert(_, _)) => (),
        other => panic!("{:?}", other),
    }
    match Key::from_cbor(Cbor::Major3(Info::Tiny(1), vec![0xff])) {
        Err(Error::FailConvert(_, _)) => (),
        other => panic!("{:?}", other),
    }
    for node in [
        Cbor::Major4(Info::Tiny(0), vec![]),
        Cbor::Major7(Info::Tiny(22), SimpleValue::Null),
        Cbor::Binary(vec![1]),
    ] {
        match Key::from_cbor(node) {
            Err(Error::FailCbor(_, _)) => (),
            other => panic!("{:?}", other),
        }
    }
}

#[test]
fn test_key_into_native() {
    assert!(Key::Bool(true).into_bool());
    assert_eq!(Key::N64(-7).into_i64(), -7);
    assert_eq!(Key::U64(7).into_u64(), 7);
    assert_eq!(Key::F32(1.5_f32.to_bits()).into_f32_bits(), 1.5_f32.to_bits());
    assert_eq!(Key::F64(2.5_f64.to_bits()).into_f64_bits(), 2.5_f64.to_bits());
    assert_eq!(Key::Bytes(vec![1, 2]).into_bytes(), vec![1, 2]);
    assert_eq!(Key::Text("k".to_string()).into_string(), "k");
}
