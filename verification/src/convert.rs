//! The two conversion traits, and the conversions of keys and simple values.

use crate::error::{Error, ErrorKind};
use crate::header::Info;
use crate::key::{Key, SpecKey};
use crate::simple::SimpleValue;
use crate::tree::{Cbor, SpecCbor};
use vstd::prelude::*;
use vstd::string::StrSliceExecFns;
use vstd::utf8::{decode_utf8, encode_utf8, valid_utf8};

verus! {

/// Whether a conversion's result is the one that its model gives: the tree
/// with that model, or an error of that class.
pub open spec fn yields(res: Result<Cbor, Error>, model: Result<SpecCbor, ErrorKind>) -> bool {
    match model {
        Ok(val) => res matches Ok(out) && out@ == val,
        Err(kind) => res matches Err(e) && e.kind() == kind,
    }
}

/// Convert a native value to [Cbor], which can then be encoded into bytes.
///
/// Refer to [FromCbor] for the reverse transformation.
pub trait IntoCbor: Sized {
    /// The tree that a value converts to, or the class of the failure.
    spec fn cbor_spec(self) -> Result<SpecCbor, ErrorKind>;

    /// Convert implementing type's value into [Cbor].
    fn into_cbor(self) -> (res: Result<Cbor, Error>)
        ensures
            yields(res, self.cbor_spec()),
    ;
}

/// Convert from Cbor, the cbor value is typically obtained by decoding it
/// from bytes.
///
/// Refer to [IntoCbor] for the reverse transformation.
pub trait FromCbor: Sized {
    /// The class of the failure on a tree that does not convert; none on a
    /// tree that does.
    spec fn from_err(val: SpecCbor) -> Option<ErrorKind>;

    /// Whether `out` is the value that the tree `val` converts to.
    spec fn from_ok(val: SpecCbor, out: Self) -> bool;

    /// Convert value from [Cbor] into type's value.
    fn from_cbor(val: Cbor) -> (res: Result<Self, Error>)
        ensures
            match res {
                Ok(out) => Self::from_err(val@) is None && Self::from_ok(val@, out),
                Err(e) => Self::from_err(val@) == Some(e.kind()),
            },
    ;
}

/// The text that a byte string spells in UTF-8, if it spells one.
///
/// Calls `String::from_utf8`. The contract claims that it succeeds exactly on
/// valid UTF-8, and that the string it returns is the one whose UTF-8 form is
/// the given bytes.
#[verifier::external_body]
pub(crate) fn text_from_utf8(bytes: Vec<u8>) -> (res: Option<String>)
    ensures
        res is Some <==> valid_utf8(bytes@),
        res matches Some(s) ==> s@ == decode_utf8(bytes@) && encode_utf8(s@) == bytes@,
{
    match String::from_utf8(bytes) {
        Ok(s) => Some(s),
        Err(_) => None,
    }
}

impl SimpleValue {
    /// The node of a simple value, under the descriptor it travels with;
    /// `FailConvert` for the values that this library does not write.
    pub open spec fn to_cbor(self) -> Result<SpecCbor, ErrorKind> {
        match self.info() {
            Some(info) => Ok(SpecCbor::Major7(info, self)),
            None => Err(ErrorKind::FailConvert),
        }
    }
}

impl IntoCbor for SimpleValue {
    open spec fn cbor_spec(self) -> Result<SpecCbor, ErrorKind> {
        self.to_cbor()
    }

    fn into_cbor(self) -> (res: Result<Cbor, Error>) {
        match self {
            SimpleValue::Unassigned => Err(
                Error::new(ErrorKind::FailConvert, "simple", "simple-value-unassigned"),
            ),
            SimpleValue::True => Ok(Cbor::Major7(Info::Tiny(20), self)),
            SimpleValue::False => Ok(Cbor::Major7(Info::Tiny(21), self)),
            SimpleValue::Null => Ok(Cbor::Major7(Info::Tiny(22), self)),
            SimpleValue::Undefined => Err(
                Error::new(ErrorKind::FailConvert, "simple", "simple-value-undefined"),
            ),
            SimpleValue::Reserved24(_) => Err(
                Error::new(ErrorKind::FailConvert, "simple", "simple-value-unassigned1"),
            ),
            SimpleValue::F16(_) => Err(
                Error::new(ErrorKind::FailConvert, "simple", "simple-value-f16"),
            ),
            SimpleValue::F32(_) => Ok(Cbor::Major7(Info::U32, self)),
            SimpleValue::F64(_) => Ok(Cbor::Major7(Info::U64, self)),
            SimpleValue::Break => Ok(Cbor::Major7(Info::Indefinite, self)),
        }
    }
}

impl SpecKey {
    /// The node that stands for a key: an unsigned integer as major type 0, a
    /// negative integer `n` as major type 1 holding `-n - 1`, the strings as
    /// major types 2 and 3, booleans and floats as simple values. A
    /// non-negative number in the negative variant is `FailConvert`.
    pub open spec fn to_cbor(self) -> Result<SpecCbor, ErrorKind> {
        match self {
            SpecKey::U64(key) => Ok(SpecCbor::Major0(Info::minimal(key), key)),
            SpecKey::N64(key) => if key >= 0 {
                Err(ErrorKind::FailConvert)
            } else {
                Ok(SpecCbor::Major1(Info::minimal((-key - 1) as u64), (-key - 1) as u64))
            },
            SpecKey::Bytes(key) => Ok(SpecCbor::Major2(Info::minimal(key.len() as u64), key)),
            SpecKey::Text(key) => Ok(
                SpecCbor::Major3(Info::minimal(encode_utf8(key).len() as u64), encode_utf8(key)),
            ),
            SpecKey::Bool(true) => Ok(SpecCbor::Major7(Info::Tiny(20), SimpleValue::True)),
            SpecKey::Bool(false) => Ok(SpecCbor::Major7(Info::Tiny(21), SimpleValue::False)),
            SpecKey::F32(bits) => Ok(SpecCbor::Major7(Info::U32, SimpleValue::F32(bits))),
            SpecKey::F64(bits) => Ok(SpecCbor::Major7(Info::U64, SimpleValue::F64(bits))),
        }
    }
}

impl SpecCbor {
    /// The key that a node stands for. A negative integer below the 64-bit
    /// range and a text that is not UTF-8 are `FailConvert`; a node of any
    /// other shape than the ones that stand for keys is `FailCbor`.
    pub open spec fn to_key(self) -> Result<SpecKey, ErrorKind> {
        match self {
            SpecCbor::Major0(_, key) => Ok(SpecKey::U64(key)),
            SpecCbor::Major1(_, key) => if key > i64::MAX {
                Err(ErrorKind::FailConvert)
            } else {
                Ok(SpecKey::N64((-key - 1) as i64))
            },
            SpecCbor::Major2(_, key) => Ok(SpecKey::Bytes(key)),
            SpecCbor::Major3(_, key) => if valid_utf8(key) {
                Ok(SpecKey::Text(decode_utf8(key)))
            } else {
                Err(ErrorKind::FailConvert)
            },
            SpecCbor::Major7(_, SimpleValue::True) => Ok(SpecKey::Bool(true)),
            SpecCbor::Major7(_, SimpleValue::False) => Ok(SpecKey::Bool(false)),
            SpecCbor::Major7(_, SimpleValue::F32(bits)) => Ok(SpecKey::F32(bits)),
            SpecCbor::Major7(_, SimpleValue::F64(bits)) => Ok(SpecKey::F64(bits)),
            _ => Err(ErrorKind::FailCbor),
        }
    }
}

impl IntoCbor for Key {
    open spec fn cbor_spec(self) -> Result<SpecCbor, ErrorKind> {
        self@.to_cbor()
    }

    fn into_cbor(self) -> (res: Result<Cbor, Error>) {
        let val = match self {
            Key::U64(key) => Cbor::Major0(Info::from(key), key),
            Key::N64(key) => {
                if key >= 0 {
                    return Err(
                        Error::new(ErrorKind::FailConvert, "types", "Key::N64 cannot be positive"),
                    );
                }
                let val: u64 = (-(key + 1)) as u64;
                Cbor::Major1(Info::from(val), val)
            },
            Key::Bytes(key) => Cbor::Major2(Info::from_len(key.len()), key),
            Key::Text(key) => {
                let text = key.as_str().as_bytes_vec();
                Cbor::Major3(Info::from_len(text.len()), text)
            },
            Key::Bool(true) => Cbor::Major7(Info::Tiny(20), SimpleValue::True),
            Key::Bool(false) => Cbor::Major7(Info::Tiny(21), SimpleValue::False),
            Key::F32(bits) => Cbor::Major7(Info::U32, SimpleValue::F32(bits)),
            Key::F64(bits) => Cbor::Major7(Info::U64, SimpleValue::F64(bits)),
        };
        Ok(val)
    }
}

impl FromCbor for Key {
    open spec fn from_err(val: SpecCbor) -> Option<ErrorKind> {
        match val.to_key() {
            Ok(_) => None,
            Err(kind) => Some(kind),
        }
    }

    open spec fn from_ok(val: SpecCbor, out: Key) -> bool {
        val.to_key() == Ok::<SpecKey, ErrorKind>(out@)
    }

    fn from_cbor(val: Cbor) -> (res: Result<Key, Error>) {
        let key = match val {
            Cbor::Major0(_, key) => Key::U64(key),
            Cbor::Major1(_, key) => {
                if key > i64::MAX as u64 {
                    return Err(
                        Error::new(ErrorKind::FailConvert, "types", "negative key out of range"),
                    );
                }
                Key::N64(-(key as i64) - 1)
            },
            Cbor::Major2(_, key) => Key::Bytes(key),
            Cbor::Major3(_, key) => {
                match text_from_utf8(key) {
                    Some(text) => Key::Text(text),
                    None => {
                        return Err(Error::new(ErrorKind::FailConvert, "types", "text is not utf8"));
                    },
                }
            },
            Cbor::Major7(_, SimpleValue::True) => Key::Bool(true),
            Cbor::Major7(_, SimpleValue::False) => Key::Bool(false),
            Cbor::Major7(_, SimpleValue::F32(bits)) => Key::F32(bits),
            Cbor::Major7(_, SimpleValue::F64(bits)) => Key::F64(bits),
            _ => {
                return Err(Error::new(ErrorKind::FailCbor, "types", "cbor not a valid key"));
            },
        };
        Ok(key)
    }
}

} // verus!
