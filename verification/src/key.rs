//! Map keys and their total order.

use crate::bytes::{
    compare_bytes, copy_bytes, lemma_lex_sign_chain, lemma_lex_sign_mirror, lemma_lex_sign_same,
    lex_sign, same_bytes,
};
use std::cmp::Ordering;
use vstd::pervasive::unreached;
use vstd::prelude::*;
use vstd::string::StringExecFns;
use vstd::std_specs::cmp::{PartialEqSpecImpl, PartialOrdSpecImpl};
use vstd::std_specs::convert::FromSpecImpl;
use vstd::utf8::encode_utf8;

verus! {

/// Possible types that can be used as a key in a map.
///
/// The floats are held by their IEEE-754 bit patterns.
#[derive(Debug)]
pub enum Key {
    Bool(bool),
    /// A negative integer.
    N64(i64),
    U64(u64),
    F32(u32),
    F64(u64),
    Bytes(Vec<u8>),
    Text(String),
}

/// A key as a mathematical value.
pub enum SpecKey {
    Bool(bool),
    N64(i64),
    U64(u64),
    F32(u32),
    F64(u64),
    Bytes(Seq<u8>),
    Text(Seq<char>),
}

impl View for Key {
    type V = SpecKey;

    open spec fn view(&self) -> SpecKey {
        match self {
            Key::Bool(b) => SpecKey::Bool(*b),
            Key::N64(n) => SpecKey::N64(*n),
            Key::U64(n) => SpecKey::U64(*n),
            Key::F32(bits) => SpecKey::F32(*bits),
            Key::F64(bits) => SpecKey::F64(*bits),
            Key::Bytes(b) => SpecKey::Bytes(b@),
            Key::Text(t) => SpecKey::Text(t@),
        }
    }
}

/// The place of a float in the total order of its bit patterns: the
/// non-negative ones ascend with their bits, the negative ones descend and all
/// lie below zero.
pub open spec fn float_rank(bits: int, sign_bit: int) -> int {
    if bits < sign_bit {
        bits
    } else {
        sign_bit - 1 - bits
    }
}

/// How two integers compare.
pub open spec fn int_order(a: int, b: int) -> Ordering {
    if a < b {
        Ordering::Less
    } else if a == b {
        Ordering::Equal
    } else {
        Ordering::Greater
    }
}

impl SpecKey {
    /// The rank of a key's type: keys of a lower rank sort first.
    pub open spec fn type_order(self) -> nat {
        match self {
            SpecKey::Bool(_) => 4,
            SpecKey::N64(_) => 8,
            SpecKey::U64(_) => 8,
            SpecKey::F32(_) => 12,
            SpecKey::F64(_) => 16,
            SpecKey::Bytes(_) => 20,
            SpecKey::Text(_) => 24,
        }
    }

    /// The bucket of a key: its type's rank, with the negative integers
    /// before the unsigned ones.
    pub open spec fn bucket(self) -> int {
        match self {
            SpecKey::Bool(_) => 0,
            SpecKey::N64(_) => 1,
            SpecKey::U64(_) => 2,
            SpecKey::F32(_) => 3,
            SpecKey::F64(_) => 4,
            SpecKey::Bytes(_) => 5,
            SpecKey::Text(_) => 6,
        }
    }

    /// The number by which a key sorts within its bucket; 0 for the strings.
    pub open spec fn number(self) -> int {
        match self {
            SpecKey::Bool(b) => if b {
                1
            } else {
                0
            },
            SpecKey::N64(n) => n as int,
            SpecKey::U64(n) => n as int,
            SpecKey::F32(bits) => float_rank(bits as int, 0x8000_0000),
            SpecKey::F64(bits) => float_rank(bits as int, 0x8000_0000_0000_0000),
            SpecKey::Bytes(_) => 0,
            SpecKey::Text(_) => 0,
        }
    }

    /// The bytes by which a string key sorts: its own, or its UTF-8 form.
    pub open spec fn string(self) -> Seq<u8> {
        match self {
            SpecKey::Bytes(b) => b,
            SpecKey::Text(t) => encode_utf8(t),
            _ => Seq::empty(),
        }
    }

    /// How `self` compares with `other`: by bucket, then by number, then by
    /// string, for which see [`lex_sign`].
    pub open spec fn order(self, other: SpecKey) -> Ordering {
        if self.bucket() != other.bucket() {
            int_order(self.bucket(), other.bucket())
        } else if self.number() != other.number() {
            int_order(self.number(), other.number())
        } else {
            int_order(lex_sign(self.string(), other.string()), 0)
        }
    }
}

/// Two keys compare as equal exactly when they are the same key.
pub proof fn lemma_order_equal(a: SpecKey, b: SpecKey)
    ensures
        a.order(b) == Ordering::Equal <==> a == b,
{
    lemma_lex_sign_same(a.string(), b.string());
    match (a, b) {
        (SpecKey::Text(s), SpecKey::Text(t)) => {
            vstd::utf8::encode_utf8_decode_utf8(s);
            vstd::utf8::encode_utf8_decode_utf8(t);
        },
        _ => {},
    }
}

/// Swapping two keys swaps the outcome of their comparison.
pub proof fn lemma_order_mirror(a: SpecKey, b: SpecKey)
    ensures
        a.order(b) == Ordering::Less <==> b.order(a) == Ordering::Greater,
        a.order(b) == Ordering::Equal <==> b.order(a) == Ordering::Equal,
        a.order(b) == Ordering::Greater <==> b.order(a) == Ordering::Less,
{
    lemma_lex_sign_mirror(a.string(), b.string());
}

/// The order of keys is antisymmetric: two keys of which neither sorts after
/// the other are the same key.
pub proof fn lemma_order_antisymmetric(a: SpecKey, b: SpecKey)
    requires
        a.order(b) != Ordering::Greater,
        b.order(a) != Ordering::Greater,
    ensures
        a == b,
{
    lemma_order_mirror(a, b);
    lemma_order_equal(a, b);
}

/// The order of keys is transitive: if `a` sorts no later than `b` and `b` no
/// later than `c`, then `a` sorts no later than `c`, and before it if one of
/// the two steps is strict.
pub proof fn lemma_order_transitive(a: SpecKey, b: SpecKey, c: SpecKey)
    requires
        a.order(b) != Ordering::Greater,
        b.order(c) != Ordering::Greater,
    ensures
        a.order(c) != Ordering::Greater,
        a.order(b) == Ordering::Less || b.order(c) == Ordering::Less ==> a.order(c)
            == Ordering::Less,
{
    if a.bucket() == b.bucket() && b.bucket() == c.bucket() && a.number() == b.number()
        && b.number() == c.number() {
        lemma_lex_sign_chain(a.string(), b.string(), c.string());
    }
}

/// A boolean key sorts before every key of another type, and a negative
/// integer key before every unsigned one.
pub proof fn lemma_order_of_types(a: SpecKey, b: SpecKey)
    ensures
        a is Bool && !(b is Bool) ==> a.order(b) == Ordering::Less,
        a is N64 && b is U64 ==> a.order(b) == Ordering::Less,
        a.type_order() < b.type_order() ==> a.order(b) == Ordering::Less,
{
}

/// The ordering that a sign stands for.
fn sign_to_ordering(sign: i8) -> (res: Ordering)
    ensures
        sign < 0 ==> res == Ordering::Less,
        sign == 0 ==> res == Ordering::Equal,
        sign > 0 ==> res == Ordering::Greater,
{
    if sign < 0 {
        Ordering::Less
    } else if sign == 0 {
        Ordering::Equal
    } else {
        Ordering::Greater
    }
}

impl Key {
    /// The rank of this key's type. Keys of a lower rank sort first:
    /// * Key::Bool, sort before every other key.
    /// * Key::N64, sort after boolean type.
    /// * Key::U64, sort after negative integers.
    /// * Key::F32, sort after positive integers.
    /// * Key::F64, sort after 32-bit floating point numbers.
    /// * Key::Bytes, sort after 64-bit floating point numbers.
    /// * Key::Text, sort after bytes.
    pub fn to_type_order(&self) -> (order: usize)
        ensures
            order == self@.type_order(),
    {
        match self {
            Key::Bool(_) => 4,
            Key::N64(_) => 8,
            Key::U64(_) => 8,
            Key::F32(_) => 12,
            Key::F64(_) => 16,
            Key::Bytes(_) => 20,
            Key::Text(_) => 24,
        }
    }

    /// The boolean that a boolean key holds.
    pub fn into_bool(self) -> (val: bool)
        requires
            self is Bool,
        ensures
            self == Key::Bool(val),
    {
        match self {
            Key::Bool(val) => val,
            _ => unreached(),
        }
    }

    /// The integer that a negative-integer key holds.
    pub fn into_i64(self) -> (val: i64)
        requires
            self is N64,
        ensures
            self == Key::N64(val),
    {
        match self {
            Key::N64(val) => val,
            _ => unreached(),
        }
    }

    /// The integer that an unsigned-integer key holds.
    pub fn into_u64(self) -> (val: u64)
        requires
            self is U64,
        ensures
            self == Key::U64(val),
    {
        match self {
            Key::U64(val) => val,
            _ => unreached(),
        }
    }

    /// The bits of the float that a 32-bit float key holds.
    pub fn into_f32_bits(self) -> (bits: u32)
        requires
            self is F32,
        ensures
            self == Key::F32(bits),
    {
        match self {
            Key::F32(bits) => bits,
            _ => unreached(),
        }
    }

    /// The bits of the float that a 64-bit float key holds.
    pub fn into_f64_bits(self) -> (bits: u64)
        requires
            self is F64,
        ensures
            self == Key::F64(bits),
    {
        match self {
            Key::F64(bits) => bits,
            _ => unreached(),
        }
    }

    /// The bytes that a byte-string key holds.
    pub fn into_bytes(self) -> (val: Vec<u8>)
        requires
            self is Bytes,
        ensures
            self == Key::Bytes(val),
    {
        match self {
            Key::Bytes(val) => val,
            _ => unreached(),
        }
    }

    /// The text that a text key holds.
    pub fn into_string(self) -> (val: String)
        requires
            self is Text,
        ensures
            self == Key::Text(val),
    {
        match self {
            Key::Text(val) => val,
            _ => unreached(),
        }
    }

    /// Compare two keys in the total order of keys.
    pub fn cmp(&self, other: &Key) -> (res: Ordering)
        ensures
            res == self@.order(other@),
    {
        match (self, other) {
            (Key::Bool(a), Key::Bool(b)) => {
                if *a == *b {
                    Ordering::Equal
                } else if *b {
                    Ordering::Less
                } else {
                    Ordering::Greater
                }
            },
            (Key::N64(a), Key::N64(b)) => {
                if *a < *b {
                    Ordering::Less
                } else if *a == *b {
                    Ordering::Equal
                } else {
                    Ordering::Greater
                }
            },
            (Key::U64(a), Key::U64(b)) => {
                if *a < *b {
                    Ordering::Less
                } else if *a == *b {
                    Ordering::Equal
                } else {
                    Ordering::Greater
                }
            },
            (Key::N64(_), Key::U64(_)) => Ordering::Less,
            (Key::U64(_), Key::N64(_)) => Ordering::Greater,
            (Key::F32(a), Key::F32(b)) => {
                let a_neg = *a >= 0x8000_0000;
                let b_neg = *b >= 0x8000_0000;
                if *a == *b {
                    Ordering::Equal
                } else if a_neg != b_neg {
                    if a_neg {
                        Ordering::Less
                    } else {
                        Ordering::Greater
                    }
                } else if (*a < *b) != a_neg {
                    Ordering::Less
                } else {
                    Ordering::Greater
                }
            },
            (Key::F64(a), Key::F64(b)) => {
                let a_neg = *a >= 0x8000_0000_0000_0000;
                let b_neg = *b >= 0x8000_0000_0000_0000;
                if *a == *b {
                    Ordering::Equal
                } else if a_neg != b_neg {
                    if a_neg {
                        Ordering::Less
                    } else {
                        Ordering::Greater
                    }
                } else if (*a < *b) != a_neg {
                    Ordering::Less
                } else {
                    Ordering::Greater
                }
            },
            (Key::Bytes(a), Key::Bytes(b)) => sign_to_ordering(
                compare_bytes(a.as_slice(), b.as_slice()),
            ),
            (Key::Text(a), Key::Text(b)) => sign_to_ordering(
                compare_bytes(a.as_str().as_bytes(), b.as_str().as_bytes()),
            ),
            _ => {
                if self.to_type_order() < other.to_type_order() {
                    Ordering::Less
                } else {
                    Ordering::Greater
                }
            },
        }
    }
}

impl Clone for Key {
    fn clone(&self) -> (res: Key)
        ensures
            res@ == self@,
    {
        match self {
            Key::Bool(b) => Key::Bool(*b),
            Key::N64(n) => Key::N64(*n),
            Key::U64(n) => Key::U64(*n),
            Key::F32(bits) => Key::F32(*bits),
            Key::F64(bits) => Key::F64(*bits),
            Key::Bytes(b) => Key::Bytes(copy_bytes(b.as_slice())),
            Key::Text(t) => Key::Text(t.clone()),
        }
    }
}

impl From<bool> for Key {
    fn from(val: bool) -> (key: Key) {
        Key::Bool(val)
    }
}

impl FromSpecImpl<bool> for Key {
    open spec fn obeys_from_spec() -> bool {
        true
    }

    open spec fn from_spec(val: bool) -> Key {
        Key::Bool(val)
    }
}

impl From<i64> for Key {
    fn from(val: i64) -> (key: Key) {
        Key::N64(val)
    }
}

impl FromSpecImpl<i64> for Key {
    open spec fn obeys_from_spec() -> bool {
        true
    }

    open spec fn from_spec(val: i64) -> Key {
        Key::N64(val)
    }
}

impl From<u64> for Key {
    fn from(val: u64) -> (key: Key) {
        Key::U64(val)
    }
}

impl FromSpecImpl<u64> for Key {
    open spec fn obeys_from_spec() -> bool {
        true
    }

    open spec fn from_spec(val: u64) -> Key {
        Key::U64(val)
    }
}

impl From<Vec<u8>> for Key {
    fn from(val: Vec<u8>) -> (key: Key) {
        Key::Bytes(val)
    }
}

impl FromSpecImpl<Vec<u8>> for Key {
    open spec fn obeys_from_spec() -> bool {
        true
    }

    open spec fn from_spec(val: Vec<u8>) -> Key {
        Key::Bytes(val)
    }
}

impl From<String> for Key {
    fn from(val: String) -> (key: Key) {
        Key::Text(val)
    }
}

impl FromSpecImpl<String> for Key {
    open spec fn obeys_from_spec() -> bool {
        true
    }

    open spec fn from_spec(val: String) -> Key {
        Key::Text(val)
    }
}

impl<'a> From<&'a str> for Key {
    fn from(val: &'a str) -> (key: Key)
        ensures
            key@ == SpecKey::Text(val@),
    {
        Key::Text(String::from_str(val))
    }
}

impl<'a> FromSpecImpl<&'a str> for Key {
    open spec fn obeys_from_spec() -> bool {
        false
    }

    open spec fn from_spec(val: &'a str) -> Key {
        Key::Text(choose|text: String| text@ == val@)
    }
}

impl PartialEq for Key {
    fn eq(&self, other: &Key) -> (res: bool) {
        match (self, other) {
            (Key::Bool(a), Key::Bool(b)) => *a == *b,
            (Key::N64(a), Key::N64(b)) => *a == *b,
            (Key::U64(a), Key::U64(b)) => *a == *b,
            (Key::F32(a), Key::F32(b)) => *a == *b,
            (Key::F64(a), Key::F64(b)) => *a == *b,
            (Key::Bytes(a), Key::Bytes(b)) => same_bytes(a.as_slice(), b.as_slice()),
            (Key::Text(a), Key::Text(b)) => *a == *b,
            _ => false,
        }
    }
}

impl PartialEqSpecImpl for Key {
    open spec fn obeys_eq_spec() -> bool {
        true
    }

    open spec fn eq_spec(&self, other: &Key) -> bool {
        self@ == other@
    }
}

impl Eq for Key {

}

impl PartialOrd for Key {
    fn partial_cmp(&self, other: &Key) -> (res: Option<Ordering>) {
        Some(self.cmp(other))
    }
}

impl PartialOrdSpecImpl for Key {
    open spec fn obeys_partial_cmp_spec() -> bool {
        true
    }

    open spec fn partial_cmp_spec(&self, other: &Key) -> Option<Ordering> {
        Some(self@.order(other@))
    }
}

} // verus!
