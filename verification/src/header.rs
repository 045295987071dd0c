//! The one-byte item header and the length/value field that follows it.

use crate::bytes::{
    be_bytes, be_value, lemma_be_bytes_len, lemma_be_value_bound, lemma_pow256_mono,
    lemma_pow256_values, pow256,
};
use crate::error::{Error, ErrorKind};
use vstd::prelude::*;
use vstd::slice::slice_subrange;

verus! {

/// 5-bit value for additional info.
#[derive(Debug, Copy, Clone, PartialEq, Eq, Structural)]
pub enum Info {
    /// additional info is in-lined.
    Tiny(u8),
    /// additional info of 8-bit unsigned integer.
    U8,
    /// additional info of 16-bit unsigned integer.
    U16,
    /// additional info of 32-bit unsigned integer.
    U32,
    /// additional info of 64-bit unsigned integer.
    U64,
    /// Reserved.
    Reserved28,
    /// Reserved.
    Reserved29,
    /// Reserved.
    Reserved30,
    /// Indefinite encoding.
    Indefinite,
}

impl Info {
    /// The descriptor of the narrowest field that holds `num`.
    pub open spec fn minimal(num: u64) -> Info {
        if num <= 23 {
            Info::Tiny(num as u8)
        } else if num <= 0xff {
            Info::U8
        } else if num <= 0xffff {
            Info::U16
        } else if num <= 0xffff_ffff {
            Info::U32
        } else {
            Info::U64
        }
    }

    /// The 5-bit code that stands for a descriptor in the header byte; none
    /// for an inlined value over 23.
    pub open spec fn code(self) -> Option<u8> {
        match self {
            Info::Tiny(val) => if val <= 23 {
                Some(val)
            } else {
                None
            },
            Info::U8 => Some(24u8),
            Info::U16 => Some(25u8),
            Info::U32 => Some(26u8),
            Info::U64 => Some(27u8),
            Info::Reserved28 => Some(28u8),
            Info::Reserved29 => Some(29u8),
            Info::Reserved30 => Some(30u8),
            Info::Indefinite => Some(31u8),
        }
    }

    /// The descriptor that a 5-bit code stands for.
    pub open spec fn of_code(code: u8) -> Info {
        if code <= 23 {
            Info::Tiny(code)
        } else if code == 24 {
            Info::U8
        } else if code == 25 {
            Info::U16
        } else if code == 26 {
            Info::U32
        } else if code == 27 {
            Info::U64
        } else if code == 28 {
            Info::Reserved28
        } else if code == 29 {
            Info::Reserved29
        } else if code == 30 {
            Info::Reserved30
        } else {
            Info::Indefinite
        }
    }

    /// The number of bytes of the field that follows the header; none for the
    /// reserved codes.
    pub open spec fn width(self) -> Option<nat> {
        match self {
            Info::Tiny(_) => Some(0nat),
            Info::U8 => Some(1nat),
            Info::U16 => Some(2nat),
            Info::U32 => Some(4nat),
            Info::U64 => Some(8nat),
            Info::Indefinite => Some(0nat),
            _ => None,
        }
    }

    /// The descriptor of the narrowest field that holds a length.
    pub fn from_len(num: usize) -> (info: Info)
        ensures
            info == Info::minimal(num as u64),
    {
        Info::from(num as u64)
    }
}

impl From<u64> for Info {
    fn from(num: u64) -> (info: Info) {
        if num <= 23 {
            Info::Tiny(num as u8)
        } else if num <= 0xff {
            Info::U8
        } else if num <= 0xffff {
            Info::U16
        } else if num <= 0xffff_ffff {
            Info::U32
        } else {
            Info::U64
        }
    }
}

impl vstd::std_specs::convert::FromSpecImpl<u64> for Info {
    open spec fn obeys_from_spec() -> bool {
        true
    }

    open spec fn from_spec(num: u64) -> Info {
        Info::minimal(num)
    }
}

impl TryFrom<u8> for Info {
    type Error = Error;

    /// The descriptor of a header's low five bits; `Fatal` for a byte over 31.
    fn try_from(b: u8) -> (res: Result<Info, Error>)
        ensures
            b <= 31 ==> (res matches Ok(info) && info == Info::of_code(b)),
            b > 31 ==> (res matches Err(e) && e.kind() == ErrorKind::Fatal),
    {
        if b <= 23 {
            Ok(Info::Tiny(b))
        } else if b == 24 {
            Ok(Info::U8)
        } else if b == 25 {
            Ok(Info::U16)
        } else if b == 26 {
            Ok(Info::U32)
        } else if b == 27 {
            Ok(Info::U64)
        } else if b == 28 {
            Ok(Info::Reserved28)
        } else if b == 29 {
            Ok(Info::Reserved29)
        } else if b == 30 {
            Ok(Info::Reserved30)
        } else if b == 31 {
            Ok(Info::Indefinite)
        } else {
            Err(Error::new(ErrorKind::Fatal, "header", "unreachable"))
        }
    }
}

impl vstd::std_specs::convert::TryFromSpecImpl<u8> for Info {
    open spec fn obeys_try_from_spec() -> bool {
        false
    }

    open spec fn try_from_spec(b: u8) -> Result<Info, Error> {
        Ok(Info::of_code(b))
    }
}

impl TryFrom<usize> for Info {
    type Error = Error;

    /// The descriptor of the narrowest field that holds a length.
    fn try_from(num: usize) -> (res: Result<Info, Error>)
        ensures
            res == Ok::<Info, Error>(Info::minimal(num as u64)),
    {
        Ok(Info::from_len(num))
    }
}

impl vstd::std_specs::convert::TryFromSpecImpl<usize> for Info {
    open spec fn obeys_try_from_spec() -> bool {
        true
    }

    open spec fn try_from_spec(num: usize) -> Result<Info, Error> {
        Ok(Info::minimal(num as u64))
    }
}

/// The header byte of major type `major` and additional-info code `code`: the
/// major type in the top three bits, the code in the low five.
pub open spec fn hdr_byte(major: u8, code: u8) -> u8 {
    (major * 32 + code) as u8
}

/// The header byte of an item, or none where the descriptor has no code.
pub open spec fn hdr_spec(major: u8, info: Info) -> Option<u8> {
    match info.code() {
        Some(code) => Some(hdr_byte(major, code)),
        None => None,
    }
}

/// The number of bytes of the narrowest field that holds `num`.
pub open spec fn addnl_width(num: u64) -> nat {
    if num <= 23 {
        0
    } else if num <= 0xff {
        1
    } else if num <= 0xffff {
        2
    } else if num <= 0xffff_ffff {
        4
    } else {
        8
    }
}

/// The field that follows the header for the value `num`: big-endian, in the
/// narrowest of the widths 0, 1, 2, 4 and 8 that holds it.
pub open spec fn addnl_bytes(num: u64) -> Seq<u8> {
    be_bytes(num as nat, addnl_width(num))
}

/// What reading the header of an item from `bytes` gives: major type,
/// descriptor and the one byte read; `IOError` on an empty source.
pub open spec fn decode_hdr_spec(bytes: Seq<u8>) -> Result<(u8, Info, nat), ErrorKind> {
    if bytes.len() == 0 {
        Err(ErrorKind::IOError)
    } else {
        Ok((bytes[0] / 32, Info::of_code(bytes[0] % 32), 1nat))
    }
}

/// What reading the field that `info` announces from `bytes` gives: the value
/// and the number of bytes read. An inlined value is its own field, an
/// indefinite length reads as 0, a reserved code is `FailCbor`, and a source
/// shorter than the field is `IOError`.
pub open spec fn decode_addnl_spec(info: Info, bytes: Seq<u8>) -> Result<(u64, nat), ErrorKind> {
    match info {
        Info::Tiny(num) => Ok((num as u64, 0nat)),
        Info::Indefinite => Ok((0u64, 0nat)),
        _ => match info.width() {
            None => Err(ErrorKind::FailCbor),
            Some(w) => if bytes.len() < w {
                Err(ErrorKind::IOError)
            } else {
                Ok((be_value(bytes.take(w as int)) as u64, w))
            },
        },
    }
}

/// Canonical width: the field of a number has the narrowest of the widths 0,
/// 1, 2, 4 and 8 that holds it. Width 0 is for the numbers up to 23, and a
/// wider field is chosen only for a number that the next narrower one does
/// not hold.
pub proof fn lemma_addnl_width_minimal(num: u64)
    ensures
        addnl_bytes(num).len() == addnl_width(num),
        addnl_width(num) == 0 <==> num <= 23,
        addnl_width(num) == 1 <==> 23 < num < pow256(1),
        addnl_width(num) == 2 <==> pow256(1) <= num < pow256(2),
        addnl_width(num) == 4 <==> pow256(2) <= num < pow256(4),
        addnl_width(num) == 8 <==> pow256(4) <= num,
{
    lemma_be_bytes_len(num as nat, addnl_width(num));
    lemma_pow256_values();
}

/// Write the header byte of an item of major type `major`.
///
/// Succeeds with one byte written unless `info` is an inlined value over 23,
/// which is `FailCbor` with nothing written.
pub fn encode_hdr(major: u8, info: Info, w: &mut Vec<u8>) -> (res: Result<usize, Error>)
    requires
        major <= 7,
    ensures
        match hdr_spec(major, info) {
            Some(b) => res == Ok::<usize, Error>(1usize) && final(w)@ == old(w)@.push(b),
            None => res matches Err(e) && e.kind() == ErrorKind::FailCbor && final(w)@ == old(w)@,
        },
{
    let code: u8 = match info {
        Info::Tiny(val) => {
            if val <= 23 {
                val
            } else {
                return Err(Error::new(ErrorKind::FailCbor, "header", "inlined value over 23"));
            }
        },
        Info::U8 => 24,
        Info::U16 => 25,
        Info::U32 => 26,
        Info::U64 => 27,
        Info::Reserved28 => 28,
        Info::Reserved29 => 29,
        Info::Reserved30 => 30,
        Info::Indefinite => 31,
    };
    w.push(major * 32 + code);
    Ok(1)
}

/// Read the header byte of an item and advance the source past it.
pub fn decode_hdr(r: &mut &[u8]) -> (res: Result<(u8, Info, usize), Error>)
    ensures
        match decode_hdr_spec(old(r)@) {
            Ok((major, info, n)) => res == Ok::<(u8, Info, usize), Error>((major, info, n as usize))
                && final(r)@ == old(r)@.skip(1),
            Err(kind) => res matches Err(e) && e.kind() == kind && *final(r) == *old(r),
        },
{
    if r.len() < 1 {
        return Err(Error::new(ErrorKind::IOError, "header", "source ended"));
    }
    let b: u8 = r[0];
    let major: u8 = b / 32;
    let info = Info::try_from(b % 32)?;
    *r = slice_subrange(*r, 1, r.len());
    Ok((major, info, 1))
}

/// Append the `width` low base-256 digits of `num`, most significant first.
pub fn write_be(num: u64, width: usize, w: &mut Vec<u8>)
    requires
        1 <= width <= 8,
    ensures
        final(w)@ == old(w)@ + be_bytes(num as nat, width as nat),
{
    let mut d: u64 = 1;
    let mut k: usize = 1;
    proof {
        reveal_with_fuel(pow256, 2);
        lemma_pow256_values();
    }
    while k < width
        invariant
            1 <= k <= width <= 8,
            d == pow256((k - 1) as nat),
        decreases width - k,
    {
        proof {
            lemma_pow256_mono((k - 1) as nat, 6);
            lemma_pow256_values();
        }
        d = d * 256;
        k += 1;
    }
    let mut i: usize = 0;
    assert(w@ =~= old(w)@ + be_bytes(num as nat / pow256(width as nat), 0));
    while i < width
        invariant
            i <= width <= 8,
            i < width ==> d == pow256((width - 1 - i) as nat),
            w@ == old(w)@ + be_bytes(num as nat / pow256((width - i) as nat), i as nat),
        decreases width - i,
    {
        let ghost hi = num as nat / pow256((width - i) as nat);
        let ghost lo = num as nat / (d as nat);
        proof {
            assert(d > 0) by {
                lemma_pow256_mono(0, (width - 1 - i) as nat);
            }
            vstd::arithmetic::div_mod::lemma_div_denominator(num as int, d as int, 256);
            assert(pow256((width - i) as nat) == 256 * d);
            assert(d * 256 == 256 * d) by (nonlinear_arith);
            assert(lo / 256 == hi);
        }
        let byte: u8 = (num / d % 256) as u8;
        w.push(byte);
        proof {
            assert(be_bytes(lo, (i + 1) as nat) == be_bytes(lo / 256, i as nat).push(
                (lo % 256) as u8,
            ));
            assert(w@ =~= old(w)@ + be_bytes(lo, (i + 1) as nat));
        }
        i += 1;
        if i < width {
            d = d / 256;
        }
    }
    assert(pow256(0) == 1);
    assert(num as nat / 1 == num as nat);
}

/// Write the value field of `num` in the narrowest width that holds it.
pub fn encode_addnl(num: u64, w: &mut Vec<u8>) -> (res: Result<usize, Error>)
    ensures
        res == Ok::<usize, Error>(addnl_width(num) as usize),
        final(w)@ == old(w)@ + addnl_bytes(num),
{
    let n: usize = if num <= 23 {
        0
    } else if num <= 0xff {
        1
    } else if num <= 0xffff {
        2
    } else if num <= 0xffff_ffff {
        4
    } else {
        8
    };
    if n > 0 {
        write_be(num, n, w);
    } else {
        assert(w@ =~= old(w)@ + addnl_bytes(num));
    }
    Ok(n)
}

/// The number that the first `width` bytes of `r` spell, most significant first.
pub fn read_be(r: &[u8], width: usize) -> (val: u64)
    requires
        width <= 8,
        width <= r@.len(),
    ensures
        val == be_value(r@.take(width as int)),
{
    let mut val: u64 = 0;
    let mut i: usize = 0;
    proof {
        lemma_pow256_values();
    }
    while i < width
        invariant
            i <= width <= 8,
            width <= r@.len(),
            val == be_value(r@.take(i as int)),
        decreases width - i,
    {
        proof {
            lemma_be_value_bound(r@.take(i as int));
            lemma_pow256_mono(i as nat, 7);
            lemma_pow256_values();
            assert(r@.take(i + 1).drop_last() =~= r@.take(i as int));
        }
        val = val * 256 + r[i] as u64;
        i += 1;
    }
    val
}

/// Read the value field that `info` announces and advance the source past it.
pub fn decode_addnl(info: Info, r: &mut &[u8]) -> (res: Result<(u64, usize), Error>)
    ensures
        match decode_addnl_spec(info, old(r)@) {
            Ok((num, n)) => res == Ok::<(u64, usize), Error>((num, n as usize)) && final(r)@ == old(
                r,
            )@.skip(n as int),
            Err(kind) => res matches Err(e) && e.kind() == kind && *final(r) == *old(r),
        },
{
    let n: usize = match info {
        Info::Tiny(num) => {
            assert(r@.skip(0) =~= r@);
            return Ok((num as u64, 0));
        },
        Info::Indefinite => {
            assert(r@.skip(0) =~= r@);
            return Ok((0, 0));
        },
        Info::U8 => 1,
        Info::U16 => 2,
        Info::U32 => 4,
        Info::U64 => 8,
        _ => {
            return Err(Error::new(ErrorKind::FailCbor, "header", "no additional value"));
        },
    };
    if r.len() < n {
        return Err(Error::new(ErrorKind::IOError, "header", "source ended"));
    }
    let num = read_be(*r, n);
    *r = slice_subrange(*r, n, r.len());
    Ok((num, n))
}

} // verus!
