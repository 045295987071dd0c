//! A renderer of value trees for diagnostics.
//!
//! Every node is rendered on a line of its own, behind a prefix that grows by
//! two blanks with each level of nesting. Floats are rendered by their bits.

use crate::bytes::be_value;
use crate::decode::decode_spec;
use crate::error::{Error, ErrorKind};
use crate::header::Info;
use crate::key::{Key, SpecKey};
use crate::simple::SimpleValue;
use crate::text::{bytes_debug, bytes_string, dec_string, dec_text, hex_string, hex_text};
use crate::tree::{
    lemma_view_major4, lemma_view_major5, lemma_view_major6, list_view, map_view, Cbor, SpecCbor,
    SpecTag, Tag,
};
use num_bigint::{BigInt, Sign};
use vstd::prelude::*;
use vstd::string::StringExecFns;
use vstd::utf8::{decode_utf8, valid_utf8};

verus! {

/// The form in which a text is shown for debugging: in double quotes, with
/// the characters that need it escaped.
pub uninterp spec fn debug_form(text: Seq<char>) -> Seq<char>;

/// A text in the form in which it is shown for debugging.
///
/// Formats the text with `{:?}`. The contract names the result.
#[verifier::external_body]
fn debug_string(text: &str) -> (s: String)
    ensures
        s@ == debug_form(text@),
{
    format!("{:?}", text)
}

/// A big integer in hexadecimal: a minus sign for a negative number other
/// than zero, then the digits of the magnitude without leading zeros.
pub open spec fn bignum_hex_text(negative: bool, magnitude: Seq<u8>) -> Seq<char> {
    if negative && be_value(magnitude) != 0 {
        "-"@ + hex_text(be_value(magnitude))
    } else {
        hex_text(be_value(magnitude))
    }
}

/// A big integer, given by sign and magnitude, in hexadecimal.
///
/// Calls `BigInt::from_bytes_be` of num-bigint and formats the result with
/// `{:x}`. The contract claims that the bytes are read as a number in base
/// 256, most significant byte first, and that the text is a minus sign for a
/// negative number, then the number's hexadecimal digits in lower case
/// without leading zeros.
#[verifier::external_body]
fn bignum_hex_string(negative: bool, magnitude: &[u8]) -> (s: String)
    ensures
        s@ == bignum_hex_text(negative, magnitude@),
{
    let sign = if negative {
        Sign::Minus
    } else {
        Sign::Plus
    };
    format!("{:x}", BigInt::from_bytes_be(sign, magnitude))
}

/// The text of a descriptor.
pub open spec fn info_text(info: Info) -> Seq<char> {
    match info {
        Info::Tiny(val) => "Tiny(0x"@ + hex_text(val as nat) + ")"@,
        Info::U8 => "U8"@,
        Info::U16 => "U16"@,
        Info::U32 => "U32"@,
        Info::U64 => "U64"@,
        Info::Reserved28 => "Reserved28"@,
        Info::Reserved29 => "Reserved29"@,
        Info::Reserved30 => "Reserved30"@,
        Info::Indefinite => "Indefinite"@,
    }
}

/// The text of a simple value; a float shows its bits in hexadecimal.
pub open spec fn simple_text(sval: SimpleValue) -> Seq<char> {
    match sval {
        SimpleValue::Unassigned => "Unassigned"@,
        SimpleValue::True => "True"@,
        SimpleValue::False => "False"@,
        SimpleValue::Null => "Null"@,
        SimpleValue::Undefined => "Undefined"@,
        SimpleValue::Reserved24(val) => "Reserved24(0x"@ + hex_text(val as nat) + ")"@,
        SimpleValue::F16(val) => "F16("@ + dec_text(val as nat) + ")"@,
        SimpleValue::F32(bits) => "F32(0x"@ + hex_text(bits as nat) + ")"@,
        SimpleValue::F64(bits) => "F64(0x"@ + hex_text(bits as nat) + ")"@,
        SimpleValue::Break => "Break"@,
    }
}

/// A signed 64-bit integer as the unsigned one with the same bits.
pub open spec fn bits_of(num: i64) -> nat {
    if num >= 0 {
        num as nat
    } else {
        (0x1_0000_0000_0000_0000 + num) as nat
    }
}

/// The text of a key; a float shows its bits in hexadecimal, a negative
/// integer its bits in two's complement.
pub open spec fn key_text(key: SpecKey) -> Seq<char> {
    match key {
        SpecKey::Bool(true) => "Key(B:true)"@,
        SpecKey::Bool(false) => "Key(B:false)"@,
        SpecKey::N64(val) => "Key(N:0x"@ + hex_text(bits_of(val)) + ")"@,
        SpecKey::U64(val) => "Key(P:0x"@ + hex_text(val as nat) + ")"@,
        SpecKey::F32(bits) => "Key(F:0x"@ + hex_text(bits as nat) + ")"@,
        SpecKey::F64(bits) => "Key(D:0x"@ + hex_text(bits as nat) + ")"@,
        SpecKey::Bytes(val) => "Key(B:"@ + bytes_debug(val) + ")"@,
        SpecKey::Text(val) => "Key(T:"@ + debug_form(val) + ")"@,
    }
}

/// Put `head` before the text of a result.
pub open spec fn after(head: Seq<char>, tail: Result<Seq<char>, ErrorKind>) -> Result<
    Seq<char>,
    ErrorKind,
> {
    match tail {
        Ok(text) => Ok(head + text),
        Err(kind) => Err(kind),
    }
}

/// The number that orders the two modes of rendering: an item in encoded
/// form is decoded in the first and refused in the second.
pub open spec fn mode(lazy: bool) -> nat {
    if lazy {
        1
    } else {
        0
    }
}

/// The text of a tree behind the prefix `p`.
///
/// A text node that is not UTF-8 and a big-integer tag on anything but a
/// byte string are `FailConvert`. An item in encoded form is decoded and the
/// tree rendered in its place, where `lazy` holds; a failure to decode it is
/// the failure of the rendering.
pub open spec fn render(val: SpecCbor, p: Seq<char>, lazy: bool) -> Result<Seq<char>, ErrorKind>
    decreases mode(lazy), val, 0nat,
{
    match val {
        SpecCbor::Major0(info, num) => Ok(
            p + "Maj0("@ + info_text(info) + ",0x"@ + hex_text(num as nat) + ")"@,
        ),
        SpecCbor::Major1(info, num) => Ok(
            p + "Maj1("@ + info_text(info) + ",0x"@ + hex_text(num as nat) + ")"@,
        ),
        SpecCbor::Major2(_, byts) => Ok(
            p + "Byts("@ + dec_text(byts.len()) + ","@ + bytes_debug(byts) + ")"@,
        ),
        SpecCbor::Major3(_, text) => if valid_utf8(text) {
            Ok(p + "Text("@ + dec_text(text.len()) + ","@ + debug_form(decode_utf8(text)) + ")"@)
        } else {
            Err(ErrorKind::FailConvert)
        },
        SpecCbor::Major4(_, list) => after(
            p + "List("@ + dec_text(list.len()) + ")"@,
            render_items(list, 0, p + "  "@, lazy),
        ),
        SpecCbor::Major5(_, map) => after(
            p + "Dict("@ + dec_text(map.len()) + ")"@,
            render_pairs(map, 0, p + "  "@, lazy),
        ),
        SpecCbor::Major6(_, tag) => after(p, render_tag(tag, p, lazy)),
        SpecCbor::Major7(info, sval) => Ok(
            p + "Maj7("@ + info_text(info) + ","@ + simple_text(sval) + ")"@,
        ),
        SpecCbor::Binary(data) => if lazy {
            match decode_spec(data, 1) {
                Ok((tree, _)) => render(tree, p, false),
                Err(kind) => Err(kind),
            }
        } else {
            Err(ErrorKind::Fatal)
        },
    }
}

/// The text of a tag; the tree under an identifier tag follows on the next
/// line, behind a longer prefix.
pub open spec fn render_tag(tag: SpecTag, p: Seq<char>, lazy: bool) -> Result<Seq<char>, ErrorKind>
    decreases mode(lazy), tag, 0nat,
{
    match tag {
        SpecTag::UBigNum(inner) => match *inner {
            SpecCbor::Major2(_, magnitude) => Ok(
                "Tag::UBigNum(0x"@ + bignum_hex_text(false, magnitude) + ")"@,
            ),
            _ => Err(ErrorKind::FailConvert),
        },
        SpecTag::SBigNum(inner) => match *inner {
            SpecCbor::Major2(_, magnitude) => Ok(
                "Tag::SBigNum(0x"@ + bignum_hex_text(true, magnitude) + ")"@,
            ),
            _ => Err(ErrorKind::FailConvert),
        },
        SpecTag::Identifier(inner) => after("Tag::Identifier\n"@, render(*inner, p + "  "@, lazy)),
        SpecTag::Value(val) => Ok("Tag::Value(0x"@ + hex_text(val as nat) + ")"@),
    }
}

/// The texts of the elements of an array from the index `from` on, each on a
/// new line.
pub open spec fn render_items(list: Seq<SpecCbor>, from: nat, p: Seq<char>, lazy: bool) -> Result<
    Seq<char>,
    ErrorKind,
>
    decreases mode(lazy), list, list.len() - from,
{
    if from >= list.len() {
        Ok(Seq::empty())
    } else {
        match render(list[from as int], p, lazy) {
            Ok(text) => after("\n"@ + text, render_items(list, from + 1, p, lazy)),
            Err(kind) => Err(kind),
        }
    }
}

/// The texts of the pairs of a map from the index `from` on, key and value
/// each on a new line.
pub open spec fn render_pairs(
    map: Seq<(SpecKey, SpecCbor)>,
    from: nat,
    p: Seq<char>,
    lazy: bool,
) -> Result<Seq<char>, ErrorKind>
    decreases mode(lazy), map, map.len() - from,
{
    if from >= map.len() {
        Ok(Seq::empty())
    } else {
        match render(map[from as int].1, p, lazy) {
            Ok(text) => after(
                "\n"@ + key_text(map[from as int].0) + "\n"@ + text,
                render_pairs(map, from + 1, p, lazy),
            ),
            Err(kind) => Err(kind),
        }
    }
}

/// Whether a rendering gave what the model `model` says: the model's text,
/// or an error of the model's class.
pub open spec fn rendered(res: Result<String, Error>, model: Result<Seq<char>, ErrorKind>) -> bool {
    match model {
        Ok(text) => res matches Ok(s) && s@ == text,
        Err(kind) => res matches Err(e) && e.kind() == kind,
    }
}

/// The line of a text node behind the prefix `p`: the number of its bytes and
/// the text in the form `shown`, in which it is shown for debugging.
pub fn text_line(p: &str, len: usize, shown: &str) -> (s: String)
    ensures
        s@ == p@ + "Text("@ + dec_text(len as nat) + ","@ + shown@ + ")"@,
{
    String::from_str(p).concat("Text(").concat(dec_string(len as u64).as_str()).concat(",").concat(
        shown,
    ).concat(")")
}

/// The text of a text key, given the form `shown` in which the text is shown
/// for debugging.
pub fn text_key(shown: &str) -> (s: String)
    ensures
        s@ == "Key(T:"@ + shown@ + ")"@,
{
    String::from_str("Key(T:").concat(shown).concat(")")
}

impl Info {
    /// Render the descriptor.
    pub fn pretty_print(&self) -> (res: Result<String, Error>)
        ensures
            res matches Ok(s) && s@ == info_text(*self),
    {
        let s = match self {
            Info::Tiny(val) => String::from_str("Tiny(0x").concat(
                hex_string(*val as u64).as_str(),
            ).concat(")"),
            Info::U8 => String::from_str("U8"),
            Info::U16 => String::from_str("U16"),
            Info::U32 => String::from_str("U32"),
            Info::U64 => String::from_str("U64"),
            Info::Reserved28 => String::from_str("Reserved28"),
            Info::Reserved29 => String::from_str("Reserved29"),
            Info::Reserved30 => String::from_str("Reserved30"),
            Info::Indefinite => String::from_str("Indefinite"),
        };
        Ok(s)
    }
}

impl SimpleValue {
    /// Render the simple value.
    pub fn pretty_print(&self) -> (res: Result<String, Error>)
        ensures
            res matches Ok(s) && s@ == simple_text(*self),
    {
        let s = match self {
            SimpleValue::Unassigned => String::from_str("Unassigned"),
            SimpleValue::True => String::from_str("True"),
            SimpleValue::False => String::from_str("False"),
            SimpleValue::Null => String::from_str("Null"),
            SimpleValue::Undefined => String::from_str("Undefined"),
            SimpleValue::Reserved24(val) => String::from_str("Reserved24(0x").concat(
                hex_string(*val as u64).as_str(),
            ).concat(")"),
            SimpleValue::F16(val) => String::from_str("F16(").concat(
                dec_string(*val as u64).as_str(),
            ).concat(")"),
            SimpleValue::F32(bits) => String::from_str("F32(0x").concat(
                hex_string(*bits as u64).as_str(),
            ).concat(")"),
            SimpleValue::F64(bits) => String::from_str("F64(0x").concat(
                hex_string(*bits).as_str(),
            ).concat(")"),
            SimpleValue::Break => String::from_str("Break"),
        };
        Ok(s)
    }
}

impl Key {
    /// Render the key.
    pub fn pretty_print(&self) -> (res: Result<String, Error>)
        ensures
            res matches Ok(s) && s@ == key_text(self@),
    {
        let s = match self {
            Key::Bool(true) => String::from_str("Key(B:true)"),
            Key::Bool(false) => String::from_str("Key(B:false)"),
            Key::N64(val) => {
                let bits: u64 = if *val >= 0 {
                    *val as u64
                } else {
                    u64::MAX - ((-(*val + 1)) as u64)
                };
                String::from_str("Key(N:0x").concat(hex_string(bits).as_str()).concat(")")
            },
            Key::U64(val) => String::from_str("Key(P:0x").concat(hex_string(*val).as_str()).concat(
                ")",
            ),
            Key::F32(bits) => String::from_str("Key(F:0x").concat(
                hex_string(*bits as u64).as_str(),
            ).concat(")"),
            Key::F64(bits) => String::from_str("Key(D:0x").concat(
                hex_string(*bits).as_str(),
            ).concat(")"),
            Key::Bytes(val) => String::from_str("Key(B:").concat(
                bytes_string(val.as_slice()).as_str(),
            ).concat(")"),
            Key::Text(val) => text_key(debug_string(val.as_str()).as_str()),
        };
        Ok(s)
    }
}

impl Tag {
    /// Render the tag, a tree under it behind the prefix `p` grown by two
    /// blanks.
    pub(crate) fn pretty_print(&self, p: &str, lazy: bool) -> (res: Result<String, Error>)
        ensures
            rendered(res, render_tag(self@, p@, lazy)),
        decreases mode(lazy), self,
    {
        proof {
            lemma_view_major6(Info::U8, *self);
        }
        match self {
            Tag::UBigNum(inner) => match &**inner {
                Cbor::Major2(_, magnitude) => Ok(
                    String::from_str("Tag::UBigNum(0x").concat(
                        bignum_hex_string(false, magnitude.as_slice()).as_str(),
                    ).concat(")"),
                ),
                _ => Err(Error::new(ErrorKind::FailConvert, "cbor", "not bytes")),
            },
            Tag::SBigNum(inner) => match &**inner {
                Cbor::Major2(_, magnitude) => Ok(
                    String::from_str("Tag::SBigNum(0x").concat(
                        bignum_hex_string(true, magnitude.as_slice()).as_str(),
                    ).concat(")"),
                ),
                _ => Err(Error::new(ErrorKind::FailConvert, "cbor", "not bytes")),
            },
            Tag::Identifier(inner) => {
                let deeper = String::from_str(p).concat("  ");
                match inner.pretty(deeper.as_str(), lazy) {
                    Ok(text) => Ok(String::from_str("Tag::Identifier\n").concat(text.as_str())),
                    Err(e) => Err(e),
                }
            },
            Tag::Value(val) => Ok(
                String::from_str("Tag::Value(0x").concat(hex_string(*val).as_str()).concat(")"),
            ),
        }
    }
}

impl Cbor {
    /// Render the tree behind the prefix `p`.
    pub(crate) fn pretty(&self, p: &str, lazy: bool) -> (res: Result<String, Error>)
        ensures
            rendered(res, render(self@, p@, lazy)),
        decreases mode(lazy), self,
    {
        match self {
            Cbor::Major0(info, val) => Ok(
                String::from_str(p).concat("Maj0(").concat(info.pretty_print()?.as_str()).concat(
                    ",0x",
                ).concat(hex_string(*val).as_str()).concat(")"),
            ),
            Cbor::Major1(info, val) => Ok(
                String::from_str(p).concat("Maj1(").concat(info.pretty_print()?.as_str()).concat(
                    ",0x",
                ).concat(hex_string(*val).as_str()).concat(")"),
            ),
            Cbor::Major2(_, val) => Ok(
                String::from_str(p).concat("Byts(").concat(
                    dec_string(val.len() as u64).as_str(),
                ).concat(",").concat(bytes_string(val.as_slice()).as_str()).concat(")"),
            ),
            Cbor::Major3(_, val) => {
                match crate::convert::text_from_utf8(crate::bytes::copy_bytes(val.as_slice())) {
                    Some(txt) => Ok(text_line(p, val.len(), debug_string(txt.as_str()).as_str())),
                    None => Err(Error::new(ErrorKind::FailConvert, "cbor", "text is not utf8")),
                }
            },
            Cbor::Major4(info, vals) => {
                proof {
                    lemma_view_major4(*info, *vals);
                }
                let head = String::from_str(p).concat("List(").concat(
                    dec_string(vals.len() as u64).as_str(),
                ).concat(")");
                let deeper = String::from_str(p).concat("  ");
                match Cbor::pretty_list(vals, deeper.as_str(), lazy) {
                    Ok(body) => Ok(head.concat(body.as_str())),
                    Err(e) => Err(e),
                }
            },
            Cbor::Major5(info, vals) => {
                proof {
                    lemma_view_major5(*info, *vals);
                }
                let head = String::from_str(p).concat("Dict(").concat(
                    dec_string(vals.len() as u64).as_str(),
                ).concat(")");
                let deeper = String::from_str(p).concat("  ");
                match Cbor::pretty_map(vals, deeper.as_str(), lazy) {
                    Ok(body) => Ok(head.concat(body.as_str())),
                    Err(e) => Err(e),
                }
            },
            Cbor::Major6(info, tag) => {
                proof {
                    lemma_view_major6(*info, *tag);
                }
                match tag.pretty_print(p, lazy) {
                    Ok(text) => Ok(String::from_str(p).concat(text.as_str())),
                    Err(e) => Err(e),
                }
            },
            Cbor::Major7(info, val) => Ok(
                String::from_str(p).concat("Maj7(").concat(info.pretty_print()?.as_str()).concat(
                    ",",
                ).concat(val.pretty_print()?.as_str()).concat(")"),
            ),
            Cbor::Binary(data) => {
                if !lazy {
                    return Err(Error::new(ErrorKind::Fatal, "cbor", "unreachable"));
                }
                match Cbor::do_decode(data.as_slice(), 1) {
                    Ok((tree, _)) => tree.pretty(p, false),
                    Err(e) => Err(e),
                }
            },
        }
    }

    /// Render the elements of an array, each on a new line behind `p`.
    #[verifier::loop_isolation(false)]
    fn pretty_list(list: &Vec<Cbor>, p: &str, lazy: bool) -> (res: Result<String, Error>)
        ensures
            rendered(res, render_items(list_view(list@), 0, p@, lazy)),
        decreases mode(lazy), list,
    {
        let ghost items = list_view(list@);
        let mut out = String::new();
        let mut i: usize = 0;
        proof {
            match render_items(items, 0, p@, lazy) {
                Ok(all) => {
                    assert(out@ + all =~= all);
                },
                Err(_) => {},
            }
        }
        while i < list.len()
            invariant
                i <= list.len(),
                render_items(items, 0, p@, lazy) == after(
                    out@,
                    render_items(items, i as nat, p@, lazy),
                ),
            decreases list.len() - i,
        {
            let ghost before = out@;
            match list[i].pretty(p, lazy) {
                Ok(text) => {
                    out.append("\n");
                    out.append(text.as_str());
                    proof {
                        match render_items(items, (i + 1) as nat, p@, lazy) {
                            Ok(rest) => {
                                assert(before + (("\n"@ + text@) + rest) =~= out@ + rest);
                            },
                            Err(_) => {},
                        }
                    }
                },
                Err(e) => {
                    return Err(e);
                },
            }
            i += 1;
        }
        assert(out@ + Seq::<char>::empty() =~= out@);
        Ok(out)
    }

    /// Render the pairs of a map, key and value each on a new line, the
    /// value behind `p`.
    #[verifier::loop_isolation(false)]
    fn pretty_map(map: &Vec<(Key, Cbor)>, p: &str, lazy: bool) -> (res: Result<String, Error>)
        ensures
            rendered(res, render_pairs(map_view(map@), 0, p@, lazy)),
        decreases mode(lazy), map,
    {
        let ghost pairs = map_view(map@);
        let mut out = String::new();
        let mut i: usize = 0;
        proof {
            match render_pairs(pairs, 0, p@, lazy) {
                Ok(all) => {
                    assert(out@ + all =~= all);
                },
                Err(_) => {},
            }
        }
        while i < map.len()
            invariant
                i <= map.len(),
                render_pairs(pairs, 0, p@, lazy) == after(
                    out@,
                    render_pairs(pairs, i as nat, p@, lazy),
                ),
            decreases map.len() - i,
        {
            let ghost before = out@;
            let key = map[i].0.pretty_print()?;
            match map[i].1.pretty(p, lazy) {
                Ok(text) => {
                    out.append("\n");
                    out.append(key.as_str());
                    out.append("\n");
                    out.append(text.as_str());
                    proof {
                        match render_pairs(pairs, (i + 1) as nat, p@, lazy) {
                            Ok(rest) => {
                                assert(before + (("\n"@ + key@ + "\n"@ + text@) + rest) =~= out@
                                    + rest);
                            },
                            Err(_) => {},
                        }
                    }
                },
                Err(e) => {
                    return Err(e);
                },
            }
            i += 1;
        }
        assert(out@ + Seq::<char>::empty() =~= out@);
        Ok(out)
    }
}

/// Return pretty formated string representing `val` that can be printed on
/// terminal, log-file for eye-ball verification.
pub fn pretty_print(val: &Cbor) -> (res: Result<String, Error>)
    ensures
        rendered(res, render(val@, Seq::empty(), true)),
{
    let p = String::new();
    val.pretty(p.as_str(), true)
}

} // verus!
