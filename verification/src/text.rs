//! Numbers and byte strings as text.

use vstd::prelude::*;
use vstd::string::StringExecFns;

verus! {

/// The character of one hexadecimal digit, in lower case.
pub open spec fn hex_digit(d: nat) -> Seq<char> {
    if d == 0 {
        "0"@
    } else if d == 1 {
        "1"@
    } else if d == 2 {
        "2"@
    } else if d == 3 {
        "3"@
    } else if d == 4 {
        "4"@
    } else if d == 5 {
        "5"@
    } else if d == 6 {
        "6"@
    } else if d == 7 {
        "7"@
    } else if d == 8 {
        "8"@
    } else if d == 9 {
        "9"@
    } else if d == 10 {
        "a"@
    } else if d == 11 {
        "b"@
    } else if d == 12 {
        "c"@
    } else if d == 13 {
        "d"@
    } else if d == 14 {
        "e"@
    } else {
        "f"@
    }
}

/// A number in hexadecimal, without leading zeros.
pub open spec fn hex_text(n: nat) -> Seq<char>
    decreases n,
{
    if n < 16 {
        hex_digit(n)
    } else {
        hex_text(n / 16) + hex_digit(n % 16)
    }
}

/// A number in decimal, without leading zeros.
pub open spec fn dec_text(n: nat) -> Seq<char>
    decreases n,
{
    if n < 10 {
        hex_digit(n)
    } else {
        dec_text(n / 10) + hex_digit(n % 10)
    }
}

/// The numbers of a byte string in decimal, with a comma and a blank between
/// two of them.
pub open spec fn bytes_text(bytes: Seq<u8>) -> Seq<char>
    decreases bytes.len(),
{
    if bytes.len() == 0 {
        Seq::empty()
    } else if bytes.len() == 1 {
        dec_text(bytes[0] as nat)
    } else {
        bytes_text(bytes.drop_last()) + ", "@ + dec_text(bytes.last() as nat)
    }
}

/// A byte string as a list in square brackets.
pub open spec fn bytes_debug(bytes: Seq<u8>) -> Seq<char> {
    "["@ + bytes_text(bytes) + "]"@
}

/// The text of one hexadecimal digit.
fn digit_str(d: u64) -> (s: &'static str)
    requires
        d < 16,
    ensures
        s@ == hex_digit(d as nat),
{
    if d == 0 {
        "0"
    } else if d == 1 {
        "1"
    } else if d == 2 {
        "2"
    } else if d == 3 {
        "3"
    } else if d == 4 {
        "4"
    } else if d == 5 {
        "5"
    } else if d == 6 {
        "6"
    } else if d == 7 {
        "7"
    } else if d == 8 {
        "8"
    } else if d == 9 {
        "9"
    } else if d == 10 {
        "a"
    } else if d == 11 {
        "b"
    } else if d == 12 {
        "c"
    } else if d == 13 {
        "d"
    } else if d == 14 {
        "e"
    } else {
        "f"
    }
}

/// Render a number in hexadecimal.
pub fn hex_string(n: u64) -> (s: String)
    ensures
        s@ == hex_text(n as nat),
    decreases n,
{
    if n < 16 {
        String::from_str(digit_str(n))
    } else {
        hex_string(n / 16).concat(digit_str(n % 16))
    }
}

/// Render a number in decimal.
pub fn dec_string(n: u64) -> (s: String)
    ensures
        s@ == dec_text(n as nat),
    decreases n,
{
    if n < 10 {
        String::from_str(digit_str(n))
    } else {
        dec_string(n / 10).concat(digit_str(n % 10))
    }
}

/// Render a byte string as a list in square brackets.
pub fn bytes_string(bytes: &[u8]) -> (s: String)
    ensures
        s@ == bytes_debug(bytes@),
{
    let mut s = String::from_str("[");
    let mut i: usize = 0;
    assert(bytes@.take(0) =~= Seq::<u8>::empty());
    assert("["@ + Seq::<char>::empty() =~= "["@);
    while i < bytes.len()
        invariant
            i <= bytes@.len(),
            s@ == "["@ + bytes_text(bytes@.take(i as int)),
        decreases bytes@.len() - i,
    {
        let ghost front = bytes@.take(i as int);
        let ghost next = bytes@.take(i + 1);
        proof {
            assert(next.drop_last() =~= front);
            assert(next.last() == bytes@[i as int]);
        }
        if i > 0 {
            s.append(", ");
        }
        let item = dec_string(bytes[i] as u64);
        s.append(item.as_str());
        proof {
            if i > 0 {
                assert(s@ =~= "["@ + (bytes_text(front) + ", "@ + dec_text(bytes@[i as int] as nat)));
            } else {
                assert(bytes_text(front) =~= Seq::<char>::empty());
                assert(s@ =~= "["@ + dec_text(bytes@[i as int] as nat));
            }
        }
        i += 1;
    }
    assert(bytes@.take(i as int) =~= bytes@);
    s.append("]");
    s
}

} // verus!
