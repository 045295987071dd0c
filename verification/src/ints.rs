//! Conversions of booleans and fixed-width integers.

use crate::convert::{FromCbor, IntoCbor};
use crate::error::{Error, ErrorKind};
use crate::header::Info;
use crate::simple::SimpleValue;
use crate::tree::{Cbor, SpecCbor};
use vstd::prelude::*;

verus! {

/// The node of a non-negative integer: major type 0, holding the number.
pub open spec fn unsigned_node(num: u64) -> SpecCbor {
    SpecCbor::Major0(Info::minimal(num), num)
}

/// The node of an integer: major type 0 for a non-negative one, major type 1
/// holding `-num - 1` for a negative one.
pub open spec fn signed_node(num: int) -> SpecCbor {
    if num >= 0 {
        SpecCbor::Major0(Info::minimal(num as u64), num as u64)
    } else {
        SpecCbor::Major1(Info::minimal((-num - 1) as u64), (-num - 1) as u64)
    }
}

/// The integer that a node holds: the number of major type 0, `-n - 1` for
/// the number `n` of major type 1; none for a node of another shape.
pub open spec fn node_number(val: SpecCbor) -> Option<int> {
    match val {
        SpecCbor::Major0(_, num) => Some(num as int),
        SpecCbor::Major1(_, num) => Some(-(num as int) - 1),
        _ => None,
    }
}

/// The class of the failure in reading an integer between `min` and `max`
/// from a node: `FailConvert` for a node that holds no integer and for an
/// integer out of range; none where the node holds one in range.
pub open spec fn number_err(val: SpecCbor, min: int, max: int) -> Option<ErrorKind> {
    match node_number(val) {
        Some(num) => if min <= num <= max {
            None
        } else {
            Some(ErrorKind::FailConvert)
        },
        None => Some(ErrorKind::FailConvert),
    }
}

/// The node of a non-negative integer.
fn node_of_unsigned(num: u64) -> (val: Cbor)
    ensures
        val@ == unsigned_node(num),
{
    Cbor::Major0(Info::from(num), num)
}

/// The node of an integer.
fn node_of_signed(num: i64) -> (val: Cbor)
    ensures
        val@ == signed_node(num as int),
{
    if num >= 0 {
        let mag: u64 = num as u64;
        Cbor::Major0(Info::from(mag), mag)
    } else {
        let mag: u64 = (-(num + 1)) as u64;
        Cbor::Major1(Info::from(mag), mag)
    }
}

/// The non-negative integer up to `max` that a node holds.
fn unsigned_of_node(val: Cbor, max: u64) -> (res: Result<u64, Error>)
    ensures
        match res {
            Ok(num) => number_err(val@, 0, max as int) is None && node_number(val@) == Some(
                num as int,
            ),
            Err(e) => number_err(val@, 0, max as int) == Some(e.kind()),
        },
{
    match val {
        Cbor::Major0(_, num) => {
            if num <= max {
                Ok(num)
            } else {
                Err(Error::new(ErrorKind::FailConvert, "types", "number out of range"))
            }
        },
        _ => Err(Error::new(ErrorKind::FailConvert, "types", "not a number")),
    }
}

/// The integer between `min` and `max` that a node holds.
fn signed_of_node(val: Cbor, min: i64, max: i64) -> (res: Result<i64, Error>)
    requires
        min < 0 <= max,
    ensures
        match res {
            Ok(num) => number_err(val@, min as int, max as int) is None && node_number(val@)
                == Some(num as int),
            Err(e) => number_err(val@, min as int, max as int) == Some(e.kind()),
        },
{
    match val {
        Cbor::Major0(_, num) => {
            if num <= max as u64 {
                Ok(num as i64)
            } else {
                Err(Error::new(ErrorKind::FailConvert, "types", "number out of range"))
            }
        },
        Cbor::Major1(_, num) => {
            if num <= (-(min + 1)) as u64 {
                Ok(-(num as i64) - 1)
            } else {
                Err(Error::new(ErrorKind::FailConvert, "types", "number out of range"))
            }
        },
        _ => Err(Error::new(ErrorKind::FailConvert, "types", "not a number")),
    }
}

impl IntoCbor for bool {
    open spec fn cbor_spec(self) -> Result<SpecCbor, ErrorKind> {
        if self {
            SimpleValue::True.to_cbor()
        } else {
            SimpleValue::False.to_cbor()
        }
    }

    fn into_cbor(self) -> (res: Result<Cbor, Error>) {
        match self {
            true => SimpleValue::True.into_cbor(),
            false => SimpleValue::False.into_cbor(),
        }
    }
}

impl FromCbor for bool {
    open spec fn from_err(val: SpecCbor) -> Option<ErrorKind> {
        match val {
            SpecCbor::Major7(_, SimpleValue::True) => None,
            SpecCbor::Major7(_, SimpleValue::False) => None,
            _ => Some(ErrorKind::FailConvert),
        }
    }

    open spec fn from_ok(val: SpecCbor, out: bool) -> bool {
        out == (val matches SpecCbor::Major7(_, SimpleValue::True))
    }

    fn from_cbor(val: Cbor) -> (res: Result<bool, Error>) {
        match val {
            Cbor::Major7(_, SimpleValue::True) => Ok(true),
            Cbor::Major7(_, SimpleValue::False) => Ok(false),
            _ => Err(Error::new(ErrorKind::FailConvert, "types", "not a bool")),
        }
    }
}

impl IntoCbor for u64 {
    open spec fn cbor_spec(self) -> Result<SpecCbor, ErrorKind> {
        Ok(unsigned_node(self as u64))
    }

    fn into_cbor(self) -> (res: Result<Cbor, Error>) {
        Ok(node_of_unsigned(self as u64))
    }
}

impl FromCbor for u64 {
    open spec fn from_err(val: SpecCbor) -> Option<ErrorKind> {
        number_err(val, 0, u64::MAX as int)
    }

    open spec fn from_ok(val: SpecCbor, out: u64) -> bool {
        node_number(val) == Some(out as int)
    }

    fn from_cbor(val: Cbor) -> (res: Result<u64, Error>) {
        let num = unsigned_of_node(val, u64::MAX as u64)?;
        Ok(num as u64)
    }
}

impl IntoCbor for u32 {
    open spec fn cbor_spec(self) -> Result<SpecCbor, ErrorKind> {
        Ok(unsigned_node(self as u64))
    }

    fn into_cbor(self) -> (res: Result<Cbor, Error>) {
        Ok(node_of_unsigned(self as u64))
    }
}

impl FromCbor for u32 {
    open spec fn from_err(val: SpecCbor) -> Option<ErrorKind> {
        number_err(val, 0, u32::MAX as int)
    }

    open spec fn from_ok(val: SpecCbor, out: u32) -> bool {
        node_number(val) == Some(out as int)
    }

    fn from_cbor(val: Cbor) -> (res: Result<u32, Error>) {
        let num = unsigned_of_node(val, u32::MAX as u64)?;
        Ok(num as u32)
    }
}

impl IntoCbor for u16 {
    open spec fn cbor_spec(self) -> Result<SpecCbor, ErrorKind> {
        Ok(unsigned_node(self as u64))
    }

    fn into_cbor(self) -> (res: Result<Cbor, Error>) {
        Ok(node_of_unsigned(self as u64))
    }
}

impl FromCbor for u16 {
    open spec fn from_err(val: SpecCbor) -> Option<ErrorKind> {
        number_err(val, 0, u16::MAX as int)
    }

    open spec fn from_ok(val: SpecCbor, out: u16) -> bool {
        node_number(val) == Some(out as int)
    }

    fn from_cbor(val: Cbor) -> (res: Result<u16, Error>) {
        let num = unsigned_of_node(val, u16::MAX as u64)?;
        Ok(num as u16)
    }
}

impl IntoCbor for u8 {
    open spec fn cbor_spec(self) -> Result<SpecCbor, ErrorKind> {
        Ok(unsigned_node(self as u64))
    }

    fn into_cbor(self) -> (res: Result<Cbor, Error>) {
        Ok(node_of_unsigned(self as u64))
    }
}

impl FromCbor for u8 {
    open spec fn from_err(val: SpecCbor) -> Option<ErrorKind> {
        number_err(val, 0, u8::MAX as int)
    }

    open spec fn from_ok(val: SpecCbor, out: u8) -> bool {
        node_number(val) == Some(out as int)
    }

    fn from_cbor(val: Cbor) -> (res: Result<u8, Error>) {
        let num = unsigned_of_node(val, u8::MAX as u64)?;
        Ok(num as u8)
    }
}

impl IntoCbor for usize {
    open spec fn cbor_spec(self) -> Result<SpecCbor, ErrorKind> {
        Ok(unsigned_node(self as u64))
    }

    fn into_cbor(self) -> (res: Result<Cbor, Error>) {
        Ok(node_of_unsigned(self as u64))
    }
}

impl FromCbor for usize {
    open spec fn from_err(val: SpecCbor) -> Option<ErrorKind> {
        number_err(val, 0, usize::MAX as int)
    }

    open spec fn from_ok(val: SpecCbor, out: usize) -> bool {
        node_number(val) == Some(out as int)
    }

    fn from_cbor(val: Cbor) -> (res: Result<usize, Error>) {
        let num = unsigned_of_node(val, usize::MAX as u64)?;
        Ok(num as usize)
    }
}

impl IntoCbor for i64 {
    open spec fn cbor_spec(self) -> Result<SpecCbor, ErrorKind> {
        Ok(signed_node(self as int))
    }

    fn into_cbor(self) -> (res: Result<Cbor, Error>) {
        Ok(node_of_signed(self as i64))
    }
}

impl FromCbor for i64 {
    open spec fn from_err(val: SpecCbor) -> Option<ErrorKind> {
        number_err(val, i64::MIN as int, i64::MAX as int)
    }

    open spec fn from_ok(val: SpecCbor, out: i64) -> bool {
        node_number(val) == Some(out as int)
    }

    fn from_cbor(val: Cbor) -> (res: Result<i64, Error>) {
        let num = signed_of_node(val, i64::MIN as i64, i64::MAX as i64)?;
        Ok(num as i64)
    }
}

impl IntoCbor for i32 {
    open spec fn cbor_spec(self) -> Result<SpecCbor, ErrorKind> {
        Ok(signed_node(self as int))
    }

    fn into_cbor(self) -> (res: Result<Cbor, Error>) {
        Ok(node_of_signed(self as i64))
    }
}

impl FromCbor for i32 {
    open spec fn from_err(val: SpecCbor) -> Option<ErrorKind> {
        number_err(val, i32::MIN as int, i32::MAX as int)
    }

    open spec fn from_ok(val: SpecCbor, out: i32) -> bool {
        node_number(val) == Some(out as int)
    }

    fn from_cbor(val: Cbor) -> (res: Result<i32, Error>) {
        let num = signed_of_node(val, i32::MIN as i64, i32::MAX as i64)?;
        Ok(num as i32)
    }
}

impl IntoCbor for i16 {
    open spec fn cbor_spec(self) -> Result<SpecCbor, ErrorKind> {
        Ok(signed_node(self as int))
    }

    fn into_cbor(self) -> (res: Result<Cbor, Error>) {
        Ok(node_of_signed(self as i64))
    }
}

impl FromCbor for i16 {
    open spec fn from_err(val: SpecCbor) -> Option<ErrorKind> {
        number_err(val, i16::MIN as int, i16::MAX as int)
    }

    open spec fn from_ok(val: SpecCbor, out: i16) -> bool {
        node_number(val) == Some(out as int)
    }

    fn from_cbor(val: Cbor) -> (res: Result<i16, Error>) {
        let num = signed_of_node(val, i16::MIN as i64, i16::MAX as i64)?;
        Ok(num as i16)
    }
}

impl IntoCbor for i8 {
    open spec fn cbor_spec(self) -> Result<SpecCbor, ErrorKind> {
        Ok(signed_node(self as int))
    }

    fn into_cbor(self) -> (res: Result<Cbor, Error>) {
        Ok(node_of_signed(self as i64))
    }
}

impl FromCbor for i8 {
    open spec fn from_err(val: SpecCbor) -> Option<ErrorKind> {
        number_err(val, i8::MIN as int, i8::MAX as int)
    }

    open spec fn from_ok(val: SpecCbor, out: i8) -> bool {
        node_number(val) == Some(out as int)
    }

    fn from_cbor(val: Cbor) -> (res: Result<i8, Error>) {
        let num = signed_of_node(val, i8::MIN as i64, i8::MAX as i64)?;
        Ok(num as i8)
    }
}

impl IntoCbor for isize {
    open spec fn cbor_spec(self) -> Result<SpecCbor, ErrorKind> {
        Ok(signed_node(self as int))
    }

    fn into_cbor(self) -> (res: Result<Cbor, Error>) {
        Ok(node_of_signed(self as i64))
    }
}

impl FromCbor for isize {
    open spec fn from_err(val: SpecCbor) -> Option<ErrorKind> {
        number_err(val, isize::MIN as int, isize::MAX as int)
    }

    open spec fn from_ok(val: SpecCbor, out: isize) -> bool {
        node_number(val) == Some(out as int)
    }

    fn from_cbor(val: Cbor) -> (res: Result<isize, Error>) {
        let num = signed_of_node(val, isize::MIN as i64, isize::MAX as i64)?;
        Ok(num as isize)
    }
}

/// An unsigned integer survives the conversion to a node and back.
pub proof fn lemma_unsigned_survives(num: u64, max: u64)
    requires
        num <= max,
    ensures
        number_err(unsigned_node(num), 0, max as int) is None,
        node_number(unsigned_node(num)) == Some(num as int),
{
}

/// A signed integer survives the conversion to a node and back.
pub proof fn lemma_signed_survives(num: i64, min: i64, max: i64)
    requires
        min <= num <= max,
    ensures
        number_err(signed_node(num as int), min as int, max as int) is None,
        node_number(signed_node(num as int)) == Some(num as int),
{
}

} // verus!
