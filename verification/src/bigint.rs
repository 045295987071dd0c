//! Big integers as tagged byte strings.
//!
//! A big integer travels as a sign and a magnitude: tag 2 wraps the magnitude
//! of a non-negative number, tag 3 that of a negative one, as a byte string,
//! most significant byte first. The 128-bit integers take the same road.

use crate::bytes::be_value;
use crate::convert::{FromCbor, IntoCbor};
use crate::error::{Error, ErrorKind};
use crate::header::Info;
use crate::tree::{lemma_view_major6, Cbor, SpecCbor, SpecTag, Tag};
use num_bigint::{BigInt, Sign};
use num_traits::ToPrimitive;
use vstd::prelude::*;

verus! {

/// The base-256 digits of `n`, most significant first, without leading
/// zeros; the single digit 0 for zero.
pub open spec fn be_digits(n: nat) -> Seq<u8>
    decreases n,
{
    if n < 256 {
        seq![n as u8]
    } else {
        be_digits(n / 256).push((n % 256) as u8)
    }
}

/// The node of a big integer: its magnitude as a byte string under tag 3 if
/// it is negative, under tag 2 if not.
pub open spec fn bignum_node(negative: bool, magnitude: Seq<u8>) -> SpecCbor {
    let inner = SpecCbor::Major2(Info::minimal(magnitude.len() as u64), magnitude);
    if negative {
        SpecCbor::Major6(Info::Tiny(3), SpecTag::SBigNum(Box::new(inner)))
    } else {
        SpecCbor::Major6(Info::Tiny(2), SpecTag::UBigNum(Box::new(inner)))
    }
}

/// The sign and magnitude that a node holds: `FailConvert` unless the node is
/// a byte string under tag 2 or tag 3.
pub open spec fn bignum_parts(val: SpecCbor) -> Result<(bool, Seq<u8>), ErrorKind> {
    match val {
        SpecCbor::Major6(_, SpecTag::UBigNum(inner)) => match *inner {
            SpecCbor::Major2(_, magnitude) => Ok((false, magnitude)),
            _ => Err(ErrorKind::FailConvert),
        },
        SpecCbor::Major6(_, SpecTag::SBigNum(inner)) => match *inner {
            SpecCbor::Major2(_, magnitude) => Ok((true, magnitude)),
            _ => Err(ErrorKind::FailConvert),
        },
        _ => Err(ErrorKind::FailConvert),
    }
}

/// The integer that a sign and a magnitude stand for.
pub open spec fn bignum_value(negative: bool, magnitude: Seq<u8>) -> int {
    if negative {
        -(be_value(magnitude) as int)
    } else {
        be_value(magnitude) as int
    }
}

/// The magnitude of an integer.
pub open spec fn magnitude_of(val: int) -> nat {
    if val < 0 {
        (-val) as nat
    } else {
        val as nat
    }
}

/// The digits of a number spell that number.
pub proof fn lemma_be_digits_value(n: nat)
    ensures
        be_value(be_digits(n)) == n,
    decreases n,
{
    let s = be_digits(n);
    if n < 256 {
        assert(s.drop_last() =~= Seq::<u8>::empty());
        assert(be_value(s.drop_last()) == 0);
    } else {
        lemma_be_digits_value(n / 256);
        assert(s.drop_last() =~= be_digits(n / 256));
    }
}

/// Wrap a sign and a magnitude, most significant byte first, as a tagged
/// byte string.
pub fn bigint_into_cbor(negative: bool, magnitude: Vec<u8>) -> (res: Result<Cbor, Error>)
    ensures
        res matches Ok(val) && val@ == bignum_node(negative, magnitude@),
{
    let inner = Box::new(Cbor::bytes_into_cbor(magnitude)?);
    let tag = if negative {
        Tag::SBigNum(inner)
    } else {
        Tag::UBigNum(inner)
    };
    proof {
        lemma_view_major6(Info::Tiny(2), tag);
    }
    Ok(Cbor::from(tag))
}

/// Unwrap the sign and the magnitude of a tagged byte string.
pub fn bigint_from_cbor(val: Cbor) -> (res: Result<(bool, Vec<u8>), Error>)
    ensures
        match bignum_parts(val@) {
            Ok((negative, magnitude)) => res matches Ok((neg, mag)) && neg == negative && mag@
                == magnitude,
            Err(kind) => res matches Err(e) && e.kind() == kind,
        },
{
    match val {
        Cbor::Major6(info, tag) => {
            proof {
                lemma_view_major6(info, tag);
            }
            match tag {
                Tag::UBigNum(inner) => {
                    let magnitude = (*inner).into_bytes()?;
                    Ok((false, magnitude))
                },
                Tag::SBigNum(inner) => {
                    let magnitude = (*inner).into_bytes()?;
                    Ok((true, magnitude))
                },
                _ => Err(Error::new(ErrorKind::FailConvert, "types", "cbor not a bigint")),
            }
        },
        _ => Err(Error::new(ErrorKind::FailConvert, "types", "cbor not a tag/bigint")),
    }
}

/// The magnitude of an unsigned 128-bit integer.
///
/// Calls `BigInt::from` and `BigInt::to_bytes_be` of num-bigint. The contract
/// claims that the bytes are the base-256 digits of the number, most
/// significant first and without leading zeros, and the single byte 0 for
/// zero.
#[verifier::external_body]
fn u128_to_bytes_be(val: u128) -> (magnitude: Vec<u8>)
    ensures
        magnitude@ == be_digits(val as nat),
{
    BigInt::from(val).to_bytes_be().1
}

/// The sign and magnitude of a signed 128-bit integer.
///
/// Calls `BigInt::from` and `BigInt::to_bytes_be` of num-bigint. The contract
/// claims that the sign is negative exactly for a number below zero, and that
/// the bytes are the base-256 digits of its magnitude as for the unsigned
/// integers.
#[verifier::external_body]
fn i128_to_bytes_be(val: i128) -> (res: (bool, Vec<u8>))
    ensures
        res.0 == (val < 0),
        res.1@ == be_digits(magnitude_of(val as int)),
{
    let (sign, magnitude) = BigInt::from(val).to_bytes_be();
    match sign {
        Sign::Minus => (true, magnitude),
        Sign::NoSign => (false, magnitude),
        Sign::Plus => (false, magnitude),
    }
}

/// The unsigned 128-bit integer of a sign and a magnitude, if it is one.
///
/// Calls `BigInt::from_bytes_be` of num-bigint and `ToPrimitive::to_u128` of
/// num-traits. The contract claims that the bytes are read as a number in
/// base 256, most significant byte first, that a magnitude of zero gives 0
/// under either sign, and that any other number is returned exactly if it is
/// not negative and fits.
#[verifier::external_body]
fn u128_from_bytes_be(negative: bool, magnitude: &[u8]) -> (res: Option<u128>)
    ensures
        res == if 0 <= bignum_value(negative, magnitude@) <= u128::MAX {
            Some(bignum_value(negative, magnitude@) as u128)
        } else {
            None
        },
{
    let sign = if negative {
        Sign::Minus
    } else {
        Sign::Plus
    };
    BigInt::from_bytes_be(sign, magnitude).to_u128()
}

/// The signed 128-bit integer of a sign and a magnitude, if it is one.
///
/// Calls `BigInt::from_bytes_be` of num-bigint and `ToPrimitive::to_i128` of
/// num-traits. The contract claims that the bytes are read as a number in
/// base 256, most significant byte first, negated under the negative sign,
/// and that the number is returned exactly if it fits.
#[verifier::external_body]
fn i128_from_bytes_be(negative: bool, magnitude: &[u8]) -> (res: Option<i128>)
    ensures
        res == if i128::MIN <= bignum_value(negative, magnitude@) <= i128::MAX {
            Some(bignum_value(negative, magnitude@) as i128)
        } else {
            None
        },
{
    let sign = if negative {
        Sign::Minus
    } else {
        Sign::Plus
    };
    BigInt::from_bytes_be(sign, magnitude).to_i128()
}

/// The class of the failure in reading an integer between `min` and `max`
/// from a big-integer node; none where the node holds one in range.
pub open spec fn bignum_err(val: SpecCbor, min: int, max: int) -> Option<ErrorKind> {
    match bignum_parts(val) {
        Ok((negative, magnitude)) => if min <= bignum_value(negative, magnitude) <= max {
            None
        } else {
            Some(ErrorKind::FailConvert)
        },
        Err(kind) => Some(kind),
    }
}

/// Whether `out` is the integer that a big-integer node holds.
pub open spec fn bignum_is(val: SpecCbor, out: int) -> bool {
    bignum_parts(val) matches Ok((negative, magnitude)) && out == bignum_value(negative, magnitude)
}

impl IntoCbor for u128 {
    open spec fn cbor_spec(self) -> Result<SpecCbor, ErrorKind> {
        Ok(bignum_node(false, be_digits(self as nat)))
    }

    fn into_cbor(self) -> (res: Result<Cbor, Error>) {
        bigint_into_cbor(false, u128_to_bytes_be(self))
    }
}

impl FromCbor for u128 {
    open spec fn from_err(val: SpecCbor) -> Option<ErrorKind> {
        bignum_err(val, 0, u128::MAX as int)
    }

    open spec fn from_ok(val: SpecCbor, out: u128) -> bool {
        bignum_is(val, out as int)
    }

    fn from_cbor(val: Cbor) -> (res: Result<u128, Error>) {
        let (negative, magnitude) = bigint_from_cbor(val)?;
        match u128_from_bytes_be(negative, magnitude.as_slice()) {
            Some(out) => Ok(out),
            None => Err(Error::new(ErrorKind::FailConvert, "types", "from bigint to u128")),
        }
    }
}

impl IntoCbor for i128 {
    open spec fn cbor_spec(self) -> Result<SpecCbor, ErrorKind> {
        Ok(bignum_node(self < 0, be_digits(magnitude_of(self as int))))
    }

    fn into_cbor(self) -> (res: Result<Cbor, Error>) {
        let (negative, magnitude) = i128_to_bytes_be(self);
        bigint_into_cbor(negative, magnitude)
    }
}

impl FromCbor for i128 {
    open spec fn from_err(val: SpecCbor) -> Option<ErrorKind> {
        bignum_err(val, i128::MIN as int, i128::MAX as int)
    }

    open spec fn from_ok(val: SpecCbor, out: i128) -> bool {
        bignum_is(val, out as int)
    }

    fn from_cbor(val: Cbor) -> (res: Result<i128, Error>) {
        let (negative, magnitude) = bigint_from_cbor(val)?;
        match i128_from_bytes_be(negative, magnitude.as_slice()) {
            Some(out) => Ok(out),
            None => Err(Error::new(ErrorKind::FailConvert, "types", "from bigint to i128")),
        }
    }
}

/// Big-integer round trip: a sign and a magnitude survive the wrapping as a
/// tagged byte string and back unchanged.
pub proof fn lemma_bignum_survives(negative: bool, magnitude: Seq<u8>)
    ensures
        bignum_parts(bignum_node(negative, magnitude)) == Ok::<(bool, Seq<u8>), ErrorKind>(
            (negative, magnitude),
        ),
{
}

/// Big-integer round trip: an unsigned 128-bit integer survives the
/// conversion to a tagged byte string and back unchanged.
pub proof fn lemma_u128_survives(num: u128)
    ensures
        num.cbor_spec() matches Ok(val) && <u128 as FromCbor>::from_err(val) is None && <u128 as FromCbor>::from_ok(
            val,
            num,
        ),
{
    lemma_be_digits_value(num as nat);
}

/// Big-integer round trip: a signed 128-bit integer survives the conversion
/// to a tagged byte string and back unchanged.
pub proof fn lemma_i128_survives(num: i128)
    ensures
        num.cbor_spec() matches Ok(val) && <i128 as FromCbor>::from_err(val) is None && <i128 as FromCbor>::from_ok(
            val,
            num,
        ),
{
    lemma_be_digits_value(magnitude_of(num as int));
}

} // verus!
