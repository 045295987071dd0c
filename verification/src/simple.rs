//! Simple values: booleans, null, undefined, floats and the stream terminator.

use crate::bytes::be_bytes;
use crate::bytes::be_value;
use crate::error::{Error, ErrorKind};
use crate::header::{read_be, write_be, Info};
use vstd::prelude::*;
use vstd::slice::slice_subrange;

verus! {

/// Major type 7, simple-value.
///
/// The floats are held by their IEEE-754 bit patterns: two floats are equal
/// when their bits are, so a NaN equals itself.
#[derive(Debug, Copy, Clone, PartialEq, Eq, Structural)]
pub enum SimpleValue {
    /// 0..=19 and 28..=30 and 32..=255 are unassigned.
    Unassigned,
    /// Boolean type, value true.
    True,
    /// Boolean type, value false.
    False,
    /// Null unitary type, can be used in place of optional types.
    Null,
    /// Undefined unitary type.
    Undefined,
    /// Reserved.
    Reserved24(u8),
    /// 16-bit floating point, by its bits.
    F16(u16),
    /// 32-bit floating point, by its bits.
    F32(u32),
    /// 64-bit floating point, by its bits.
    F64(u64),
    /// Break stop for indefinite encoding.
    Break,
}

impl SimpleValue {
    /// The rank of each variant: 4 for the first, 4 more for each that follows.
    pub open spec fn type_order(self) -> nat {
        match self {
            SimpleValue::Unassigned => 4,
            SimpleValue::True => 8,
            SimpleValue::False => 12,
            SimpleValue::Null => 16,
            SimpleValue::Undefined => 20,
            SimpleValue::Reserved24(_) => 24,
            SimpleValue::F16(_) => 28,
            SimpleValue::F32(_) => 32,
            SimpleValue::F64(_) => 36,
            SimpleValue::Break => 40,
        }
    }

    /// The bytes that follow the header of a simple value: none for the
    /// inlined ones, else the payload, most significant byte first.
    pub open spec fn payload(self) -> Seq<u8> {
        match self {
            SimpleValue::Reserved24(num) => seq![num],
            SimpleValue::F16(bits) => be_bytes(bits as nat, 2),
            SimpleValue::F32(bits) => be_bytes(bits as nat, 4),
            SimpleValue::F64(bits) => be_bytes(bits as nat, 8),
            _ => Seq::empty(),
        }
    }

    /// The descriptor under which a simple value travels, for those that this
    /// library writes: the booleans, null, the two floats and the terminator.
    pub open spec fn info(self) -> Option<Info> {
        match self {
            SimpleValue::True => Some(Info::Tiny(20)),
            SimpleValue::False => Some(Info::Tiny(21)),
            SimpleValue::Null => Some(Info::Tiny(22)),
            SimpleValue::F32(_) => Some(Info::U32),
            SimpleValue::F64(_) => Some(Info::U64),
            SimpleValue::Break => Some(Info::Indefinite),
            _ => None,
        }
    }

    /// What reading a simple value announced by `info` from `bytes` gives: the
    /// value and the number of bytes read. Undefined, the 16-bit float and
    /// every unassigned or reserved code are `FailCbor`.
    pub open spec fn decode_spec(info: Info, bytes: Seq<u8>) -> Result<
        (SimpleValue, nat),
        ErrorKind,
    > {
        match info {
            Info::Tiny(20) => Ok((SimpleValue::True, 0nat)),
            Info::Tiny(21) => Ok((SimpleValue::False, 0nat)),
            Info::Tiny(22) => Ok((SimpleValue::Null, 0nat)),
            Info::U32 => if bytes.len() < 4 {
                Err(ErrorKind::IOError)
            } else {
                Ok((SimpleValue::F32(be_value(bytes.take(4)) as u32), 4nat))
            },
            Info::U64 => if bytes.len() < 8 {
                Err(ErrorKind::IOError)
            } else {
                Ok((SimpleValue::F64(be_value(bytes.take(8)) as u64), 8nat))
            },
            Info::Indefinite => Ok((SimpleValue::Break, 0nat)),
            _ => Err(ErrorKind::FailCbor),
        }
    }

    /// The rank of this value's variant.
    pub fn to_type_order(&self) -> (order: usize)
        ensures
            order == self.type_order(),
    {
        match self {
            SimpleValue::Unassigned => 4,
            SimpleValue::True => 8,
            SimpleValue::False => 12,
            SimpleValue::Null => 16,
            SimpleValue::Undefined => 20,
            SimpleValue::Reserved24(_) => 24,
            SimpleValue::F16(_) => 28,
            SimpleValue::F32(_) => 32,
            SimpleValue::F64(_) => 36,
            SimpleValue::Break => 40,
        }
    }

    /// Write the bytes that follow the header of `sval`.
    pub fn encode(sval: &SimpleValue, w: &mut Vec<u8>) -> (res: Result<usize, Error>)
        ensures
            res == Ok::<usize, Error>(sval.payload().len() as usize),
            final(w)@ == old(w)@ + sval.payload(),
    {
        proof {
            crate::bytes::lemma_be_bytes_len(0, 0);
        }
        let n: usize = match sval {
            SimpleValue::Reserved24(num) => {
                w.push(*num);
                1
            },
            SimpleValue::F16(bits) => {
                proof {
                    crate::bytes::lemma_be_bytes_len(*bits as nat, 2);
                }
                write_be(*bits as u64, 2, w);
                2
            },
            SimpleValue::F32(bits) => {
                proof {
                    crate::bytes::lemma_be_bytes_len(*bits as nat, 4);
                }
                write_be(*bits as u64, 4, w);
                4
            },
            SimpleValue::F64(bits) => {
                proof {
                    crate::bytes::lemma_be_bytes_len(*bits as nat, 8);
                }
                write_be(*bits, 8, w);
                8
            },
            _ => 0,
        };
        assert(w@ =~= old(w)@ + sval.payload());
        Ok(n)
    }

    /// Read the simple value that `info` announces and advance the source
    /// past it.
    pub fn decode(info: Info, r: &mut &[u8]) -> (res: Result<(SimpleValue, usize), Error>)
        ensures
            match SimpleValue::decode_spec(info, old(r)@) {
                Ok((sval, n)) => res == Ok::<(SimpleValue, usize), Error>((sval, n as usize))
                    && final(r)@ == old(r)@.skip(n as int),
                Err(kind) => res matches Err(e) && e.kind() == kind && *final(r) == *old(r),
            },
    {
        proof {
            assert(r@.skip(0) =~= r@);
        }
        match info {
            Info::Tiny(20) => Ok((SimpleValue::True, 0)),
            Info::Tiny(21) => Ok((SimpleValue::False, 0)),
            Info::Tiny(22) => Ok((SimpleValue::Null, 0)),
            Info::Tiny(23) => Err(Error::new(ErrorKind::FailCbor, "simple", "simple-value-undefined")),
            Info::Tiny(_) => Err(Error::new(ErrorKind::FailCbor, "simple", "simple-value-unassigned")),
            Info::U8 => Err(Error::new(ErrorKind::FailCbor, "simple", "simple-value-unassigned1")),
            Info::U16 => Err(Error::new(ErrorKind::FailCbor, "simple", "simple-value-f16")),
            Info::U32 => {
                if r.len() < 4 {
                    return Err(Error::new(ErrorKind::IOError, "simple", "source ended"));
                }
                proof {
                    crate::bytes::lemma_be_value_bound(r@.take(4));
                    crate::bytes::lemma_pow256_values();
                }
                let bits = read_be(*r, 4);
                *r = slice_subrange(*r, 4, r.len());
                Ok((SimpleValue::F32(bits as u32), 4))
            },
            Info::U64 => {
                if r.len() < 8 {
                    return Err(Error::new(ErrorKind::IOError, "simple", "source ended"));
                }
                let bits = read_be(*r, 8);
                *r = slice_subrange(*r, 8, r.len());
                Ok((SimpleValue::F64(bits), 8))
            },
            Info::Reserved28 => Err(Error::new(ErrorKind::FailCbor, "simple", "simple-value-reserved")),
            Info::Reserved29 => Err(Error::new(ErrorKind::FailCbor, "simple", "simple-value-reserved")),
            Info::Reserved30 => Err(Error::new(ErrorKind::FailCbor, "simple", "simple-value-reserved")),
            Info::Indefinite => Ok((SimpleValue::Break, 0)),
        }
    }
}

} // verus!
