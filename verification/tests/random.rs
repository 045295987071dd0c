use arbitrary::Unstructured;
use cbordata::{bigint_from_cbor, bigint_into_cbor};
use cbordata::{Cbor, FromCbor, Info, IntoCbor, Key, SimpleValue, Tag};
use num_bigint::{BigInt, Sign};
use rand::{prelude::random, rngs::SmallRng, Rng, SeedableRng};

fn arbitrary_simple_value(u: &mut Unstructured) -> arbitrary::Result<SimpleValue> {
    let f4 = u.arbitrary::<f32>()?;
    let f8 = u.arbitrary::<f64>()?;
    Ok(*u.choose(&[
        SimpleValue::True,
        SimpleValue::False,
        SimpleValue::Null,
        SimpleValue::F32(f4.to_bits()),
        SimpleValue::F64(f8.to_bits()),
    ])?)
}

fn arbitrary_key(u: &mut Unstructured) -> arbitrary::Result<Key> {
    let bl = Key::Bool(u.arbitrary::<bool>()?);
    let nn = Key::N64(-u.arbitrary::<i64>()?.abs());
    let pn = Key::U64(u.arbitrary::<u64>()?);
    let f4 = Key::F32(u.arbitrary::<f32>()?.to_bits());
    let f8 = Key::F64(u.arbitrary::<f64>()?.to_bits());
    let bs = Key::Bytes(u.arbitrary::<Vec<u8>>()?);
    let sr = Key::Text(u.arbitrary::<String>()?);
    Ok(u.choose(&[bl, nn, pn, f4, f8, bs, sr])?.clone())
}

fn arbitrary_tag(u: &mut Unstructured) -> arbitrary::Result<Tag> {
    let tag = *u.choose(&[2_u64, 3, 39, 65535]).unwrap();
    match tag {
        2 | 3 => {
            let val: BigInt = u.arbitrary()?;
            let (sign, bytes) = val.to_bytes_be();
            let val = Box::new(Cbor::bytes_into_cbor(bytes).unwrap());
            match sign {
                Sign::Plus | Sign::NoSign => Ok(Tag::UBigNum(val)),
                Sign::Minus => Ok(Tag::SBigNum(val)),
            }
        }
        39 => {
            let val: Cbor = arbitrary_cbor(u)?;
            Ok(Tag::Identifier(Box::new(val)))
        }
        _ => {
            let num: u64 = u.arbitrary()?;
            Ok(Tag::Value(num))
        }
    }
}

fn arbitrary_list(u: &mut Unstructured) -> arbitrary::Result<Vec<Cbor>> {
    let mut list = vec![];
    while u.arbitrary::<bool>().unwrap_or(false) {
        list.push(arbitrary_cbor(u)?);
    }
    Ok(list)
}

fn arbitrary_map(u: &mut Unstructured) -> arbitrary::Result<Vec<(Key, Cbor)>> {
    let mut map = vec![];
    while u.arbitrary::<bool>().unwrap_or(false) {
        let key = arbitrary_key(u)?;
        map.push((key, arbitrary_cbor(u)?));
    }
    Ok(map)
}

fn arbitrary_cbor(u: &mut Unstructured) -> arbitrary::Result<Cbor> {
    let major = u.arbitrary::<u8>()? % 8;
    let val: Cbor = match major {
        0 => {
            let val: u64 = u.arbitrary()?;
            Cbor::Major0(Info::from(val), val)
        }
        1 => {
            let val: u64 = {
                let val: i64 = u.arbitrary()?;
                val.abs().try_into().unwrap()
            };
            Cbor::Major1(Info::from(val), val)
        }
        2 => {
            let val: Vec<u8> = u.arbitrary()?;
            let n: u64 = val.len().try_into().unwrap();
            Cbor::Major2(Info::from(n), val)
        }
        3 => {
            let val: String = u.arbitrary()?;
            let n: u64 = val.len().try_into().unwrap();
            Cbor::Major3(Info::from(n), val.as_bytes().to_vec())
        }
        4 => {
            let val: Vec<Cbor> = arbitrary_list(u)?;
            let n: u64 = val.len().try_into().unwrap();
            Cbor::Major4(Info::from(n), val)
        }
        5 => {
            let val: Vec<(Key, Cbor)> = arbitrary_map(u)?;
            let n: u64 = val.len().try_into().unwrap();
            Cbor::Major5(Info::from(n), val)
        }
        6 => {
            let tag: Tag = arbitrary_tag(u)?;
            Cbor::from(tag)
        }
        7 => {
            let sval: SimpleValue = arbitrary_simple_value(u)?;
            sval.into_cbor().unwrap()
        }
        _ => unreachable!(),
    };

    Ok(val)
}

#[test]
fn test_simple_value() {
    let seed: u128 = random();
    println!("test_simple_value seed:{}", seed);
    let mut rng = {
        let mut rng_seed = [0; 32];
        rng_seed[0..16].copy_from_slice(&seed.to_le_bytes());
        SmallRng::from_seed(rng_seed)
    };

    for _ in 0..100 {
        let sval: SimpleValue = {
            let bytes = rng.gen::<[u8; 32]>();
            let mut uns = Unstructured::new(&bytes);
            arbitrary_simple_value(&mut uns).unwrap()
        };

        match (sval.to_type_order(), &sval) {
            (4, SimpleValue::Unassigned)
            | (8, SimpleValue::True)
            | (12, SimpleValue::False)
            | (16, SimpleValue::Null)
            | (20, SimpleValue::Undefined)
            | (24, SimpleValue::Reserved24(_))
            | (28, SimpleValue::F16(_))
            | (32, SimpleValue::F32(_))
            | (36, SimpleValue::F64(_))
            | (40, SimpleValue::Break) => (),
            (order, sval) => panic!("{} {:?}", order, sval),
        }

        let val: Cbor = match (&sval, sval.into_cbor()) {
            (SimpleValue::Unassigned, Err(_)) => continue,
            (SimpleValue::Undefined, Err(_)) => continue,
            (SimpleValue::Reserved24(_), Err(_)) => continue,
            (SimpleValue::F16(_), Err(_)) => continue,
            (SimpleValue::Break, Err(_)) => continue,
            (_, val) => val.unwrap(),
        };

        let mut buf: Vec<u8> = vec![];
        let n = val.encode(&mut buf).unwrap();
        let (nval, m) = Cbor::decode(&mut buf.as_slice()).unwrap();
        assert_eq!(n, m);
        assert_eq!(val, nval);
    }
}

#[test]
fn test_cbor() {
    let seed: u128 = random();
    println!("test_cbor seed:{}", seed);
    let mut rng = {
        let mut rng_seed = [0; 32];
        rng_seed[0..16].copy_from_slice(&seed.to_le_bytes());
        SmallRng::from_seed(rng_seed)
    };

    for _i in 0..10000 {
        let val: Cbor = {
            let bytes: Vec<u8> = (0..100)
                .map(|_| rng.gen::<[u8; 32]>().to_vec())
                .flatten()
                .collect();
            let mut uns = Unstructured::new(&bytes);
            arbitrary_cbor(&mut uns).unwrap()
        };
        let mut buf: Vec<u8> = vec![];
        let n = val.encode(&mut buf).unwrap();
        let (nval, m) = Cbor::decode(&mut buf.as_slice()).unwrap();
        assert_eq!(n, m);
        assert_eq!(val, nval);
    }
}

#[test]
fn test_bigint() {
    let seed: u128 = random();
    println!("test_bigint seed:{}", seed);
    let mut rng = {
        let mut rng_seed = [0; 32];
        rng_seed[0..16].copy_from_slice(&seed.to_le_bytes());
        SmallRng::from_seed(rng_seed)
    };

    for _i in 0..10000 {
        let vals = {
            let bytes: Vec<u8> = (0..100)
                .map(|_| rng.gen::<[u8; 32]>().to_vec())
                .flatten()
                .collect();
            let mut uns = Unstructured::new(&bytes);
            let a = uns.arbitrary::<u128>().unwrap();
            let b = uns.arbitrary::<i128>().unwrap();
            let c = uns.arbitrary::<BigInt>().unwrap();
            let (sign, magnitude) = c.to_bytes_be();
            let vals = vec![
                a.clone().into_cbor().unwrap(),
                b.clone().into_cbor().unwrap(),
                bigint_into_cbor(sign == Sign::Minus, magnitude).unwrap(),
            ];
            assert_eq!(u128::from_cbor(vals[0].clone()).unwrap(), a);
            assert_eq!(i128::from_cbor(vals[1].clone()).unwrap(), b);
            let (negative, magnitude) = bigint_from_cbor(vals[2].clone()).unwrap();
            let sign = if negative { Sign::Minus } else { Sign::Plus };
            assert_eq!(BigInt::from_bytes_be(sign, &magnitude), c);
            vals
        };

        for val in vals.into_iter() {
            let mut buf: Vec<u8> = vec![];
            let n = val.encode(&mut buf).unwrap();
            let (nval, m) = Cbor::decode(&mut buf.as_slice()).unwrap();
            assert_eq!(n, m);
            assert_eq!(val, nval);
        }
    }
}
