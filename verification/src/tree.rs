//! The value tree and its mathematical model.

use crate::bytes::copy_bytes;
use crate::error::{Error, ErrorKind};
use crate::header::Info;
use crate::key::{Key, SpecKey};
use crate::simple::SimpleValue;
use vstd::prelude::*;
use vstd::std_specs::convert::FromSpecImpl;

verus! {

/// Recursion limit for nested Cbor objects.
pub const RECURSION_LIMIT: u32 = 1000;

/// Cbor type enumerated over its major variants.
///
/// Use one of the conversion traits to convert a native value to a Cbor
/// variant. For lazy decoding, use the [Cbor::Binary] variant.
#[derive(Debug, PartialEq, Eq)]
pub enum Cbor {
    /// Unsigned integer.
    Major0(Info, u64),
    /// Negative integer `n`, held as `-n - 1`.
    Major1(Info, u64),
    /// Byte string.
    Major2(Info, Vec<u8>),
    /// Text string, as UTF-8 bytes.
    Major3(Info, Vec<u8>),
    /// Array.
    Major4(Info, Vec<Cbor>),
    /// Map, in insertion order.
    Major5(Info, Vec<(Key, Cbor)>),
    /// Tagged value.
    Major6(Info, Tag),
    /// Simple value.
    Major7(Info, SimpleValue),
    /// An item in its encoded form, for lazy decoding.
    Binary(Vec<u8>),
}

/// Major type 6, Tag values.
#[derive(Debug, PartialEq, Eq)]
pub enum Tag {
    /// Tag 2, arbitrarily sized positive integers, byte-string in network byte order.
    UBigNum(Box<Cbor>),
    /// Tag 3, arbitrarily sized signed integers, byte-string in network byte order.
    SBigNum(Box<Cbor>),
    /// Tag 39, used as identifier marker. This implementation shall
    /// treat them as literal values.
    Identifier(Box<Cbor>),
    /// Catch all tag-value.
    Value(u64),
}

/// A value tree as a mathematical value.
pub enum SpecCbor {
    Major0(Info, u64),
    Major1(Info, u64),
    Major2(Info, Seq<u8>),
    Major3(Info, Seq<u8>),
    Major4(Info, Seq<SpecCbor>),
    Major5(Info, Seq<(SpecKey, SpecCbor)>),
    Major6(Info, SpecTag),
    Major7(Info, SimpleValue),
    Binary(Seq<u8>),
}

/// A tag as a mathematical value.
pub enum SpecTag {
    UBigNum(Box<SpecCbor>),
    SBigNum(Box<SpecCbor>),
    Identifier(Box<SpecCbor>),
    Value(u64),
}

/// The mathematical value of a tree.
pub open spec fn cbor_model(val: &Cbor) -> SpecCbor
    decreases val,
{
    match val {
        Cbor::Major0(info, num) => SpecCbor::Major0(*info, *num),
        Cbor::Major1(info, num) => SpecCbor::Major1(*info, *num),
        Cbor::Major2(info, byts) => SpecCbor::Major2(*info, byts@),
        Cbor::Major3(info, text) => SpecCbor::Major3(*info, text@),
        Cbor::Major4(info, list) => SpecCbor::Major4(
            *info,
            Seq::new(
                list@.len(),
                |i: int|
                    if 0 <= i < list@.len() {
                        cbor_model(&list@[i])
                    } else {
                        arbitrary()
                    },
            ),
        ),
        Cbor::Major5(info, map) => SpecCbor::Major5(
            *info,
            Seq::new(
                map@.len(),
                |i: int|
                    if 0 <= i < map@.len() {
                        (map@[i].0@, cbor_model(&map@[i].1))
                    } else {
                        arbitrary()
                    },
            ),
        ),
        Cbor::Major6(info, tag) => SpecCbor::Major6(*info, tag_model(tag)),
        Cbor::Major7(info, sval) => SpecCbor::Major7(*info, *sval),
        Cbor::Binary(data) => SpecCbor::Binary(data@),
    }
}

/// The mathematical value of a tag.
pub open spec fn tag_model(tag: &Tag) -> SpecTag
    decreases tag,
{
    match tag {
        Tag::UBigNum(val) => SpecTag::UBigNum(Box::new(cbor_model(&**val))),
        Tag::SBigNum(val) => SpecTag::SBigNum(Box::new(cbor_model(&**val))),
        Tag::Identifier(val) => SpecTag::Identifier(Box::new(cbor_model(&**val))),
        Tag::Value(num) => SpecTag::Value(*num),
    }
}

impl View for Cbor {
    type V = SpecCbor;

    open spec fn view(&self) -> SpecCbor {
        cbor_model(self)
    }
}

impl View for Tag {
    type V = SpecTag;

    open spec fn view(&self) -> SpecTag {
        tag_model(self)
    }
}

/// The models of a list of trees, element by element.
pub open spec fn list_view(list: Seq<Cbor>) -> Seq<SpecCbor> {
    Seq::new(list.len(), |i: int| list[i]@)
}

/// The models of a list of pairs, element by element.
pub open spec fn map_view(map: Seq<(Key, Cbor)>) -> Seq<(SpecKey, SpecCbor)> {
    Seq::new(map.len(), |i: int| (map[i].0@, map[i].1@))
}

/// The model of an array is its descriptor and the models of its elements.
pub proof fn lemma_view_major4(info: Info, list: Vec<Cbor>)
    ensures
        Cbor::Major4(info, list)@ == SpecCbor::Major4(info, list_view(list@)),
{
    assert(Cbor::Major4(info, list)@->Major4_1 =~= list_view(list@));
}

/// The model of a map is its descriptor and the models of its pairs.
pub proof fn lemma_view_major5(info: Info, map: Vec<(Key, Cbor)>)
    ensures
        Cbor::Major5(info, map)@ == SpecCbor::Major5(info, map_view(map@)),
{
    assert(Cbor::Major5(info, map)@->Major5_1 =~= map_view(map@));
}

/// The model of a tagged value.
pub proof fn lemma_view_major6(info: Info, tag: Tag)
    ensures
        Cbor::Major6(info, tag)@ == SpecCbor::Major6(info, tag@),
        tag matches Tag::UBigNum(val) ==> tag@ == SpecTag::UBigNum(Box::new((*val)@)),
        tag matches Tag::SBigNum(val) ==> tag@ == SpecTag::SBigNum(Box::new((*val)@)),
        tag matches Tag::Identifier(val) ==> tag@ == SpecTag::Identifier(Box::new((*val)@)),
        tag matches Tag::Value(num) ==> tag@ == SpecTag::Value(num),
{
    reveal_with_fuel(cbor_model, 2);
    reveal_with_fuel(tag_model, 2);
}

impl SpecTag {
    /// The number that stands for a tag on the wire: 2 and 3 for the big
    /// integers, 39 for the identifier marker, else the number held.
    pub open spec fn tag_value(self) -> u64 {
        match self {
            SpecTag::UBigNum(_) => 2,
            SpecTag::SBigNum(_) => 3,
            SpecTag::Identifier(_) => 39,
            SpecTag::Value(val) => val,
        }
    }
}

impl SpecCbor {
    /// The major type of a tree node, 0 to 7; for an item in encoded form,
    /// the top three bits of its first byte.
    pub open spec fn major(self) -> u8 {
        match self {
            SpecCbor::Major0(_, _) => 0,
            SpecCbor::Major1(_, _) => 1,
            SpecCbor::Major2(_, _) => 2,
            SpecCbor::Major3(_, _) => 3,
            SpecCbor::Major4(_, _) => 4,
            SpecCbor::Major5(_, _) => 5,
            SpecCbor::Major6(_, _) => 6,
            SpecCbor::Major7(_, _) => 7,
            SpecCbor::Binary(data) => data[0] / 32,
        }
    }

    /// Whether a node is the stream terminator.
    pub open spec fn is_break(self) -> bool {
        self matches SpecCbor::Major7(_, SimpleValue::Break)
    }
}

impl Tag {
    /// Construct a Tag value from u64 type.
    pub fn from_value(value: u64) -> (tag: Tag)
        ensures
            tag == Tag::Value(value),
    {
        Tag::Value(value)
    }

    /// Wrap value with Identifier tag.
    pub fn from_identifier(value: Cbor) -> (tag: Tag)
        ensures
            tag == Tag::Identifier(Box::new(value)),
    {
        Tag::Identifier(Box::new(value))
    }

    /// Fetch the u64 type value for tag.
    pub fn to_tag_value(&self) -> (num: u64)
        ensures
            num == self@.tag_value(),
    {
        match self {
            Tag::UBigNum(_) => 2,
            Tag::SBigNum(_) => 3,
            Tag::Identifier(_) => 39,
            Tag::Value(val) => *val,
        }
    }
}

impl From<Tag> for Cbor {
    fn from(tag: Tag) -> (val: Cbor) {
        let num = tag.to_tag_value();
        Cbor::Major6(Info::from(num), tag)
    }
}

impl FromSpecImpl<Tag> for Cbor {
    open spec fn obeys_from_spec() -> bool {
        true
    }

    open spec fn from_spec(tag: Tag) -> Cbor {
        Cbor::Major6(Info::minimal(tag@.tag_value()), tag)
    }
}

impl Cbor {
    /// The major type of this node.
    pub fn to_major_val(&self) -> (major: u8)
        requires
            self matches Cbor::Binary(data) ==> data@.len() > 0,
        ensures
            major == self@.major(),
            major <= 7,
    {
        match self {
            Cbor::Major0(_, _) => 0,
            Cbor::Major1(_, _) => 1,
            Cbor::Major2(_, _) => 2,
            Cbor::Major3(_, _) => 3,
            Cbor::Major4(_, _) => 4,
            Cbor::Major5(_, _) => 5,
            Cbor::Major6(_, _) => 6,
            Cbor::Major7(_, _) => 7,
            Cbor::Binary(data) => data[0] / 32,
        }
    }

    /// Convert bytes into Cbor major type-2 value. A `Vec<u8>` can be read
    /// as a byte string or as a list of small integers; this is the first
    /// reading, the conversion trait gives the second.
    pub fn bytes_into_cbor(val: Vec<u8>) -> (res: Result<Cbor, Error>)
        ensures
            res == Ok::<Cbor, Error>(Cbor::Major2(Info::minimal(val@.len() as u64), val)),
    {
        let info = Info::from_len(val.len());
        Ok(Cbor::Major2(info, val))
    }

    /// This is converse of [Cbor::bytes_into_cbor].
    pub fn into_bytes(self) -> (res: Result<Vec<u8>, Error>)
        ensures
            match self {
                Cbor::Major2(_, val) => res == Ok::<Vec<u8>, Error>(val),
                _ => res matches Err(e) && e.kind() == ErrorKind::FailConvert,
            },
    {
        match self {
            Cbor::Major2(_, val) => Ok(val),
            _ => Err(Error::new(ErrorKind::FailConvert, "cbor", "not bytes")),
        }
    }
}

impl Clone for Cbor {
    /// A deep copy: a tree with the same model.
    #[verifier::loop_isolation(false)]
    fn clone(&self) -> (res: Cbor)
        ensures
            res@ == self@,
        decreases self,
    {
        match self {
            Cbor::Major0(info, num) => Cbor::Major0(*info, *num),
            Cbor::Major1(info, num) => Cbor::Major1(*info, *num),
            Cbor::Major2(info, byts) => Cbor::Major2(*info, copy_bytes(byts.as_slice())),
            Cbor::Major3(info, text) => Cbor::Major3(*info, copy_bytes(text.as_slice())),
            Cbor::Major4(info, list) => {
                let mut out: Vec<Cbor> = Vec::new();
                let mut i: usize = 0;
                while i < list.len()
                    invariant
                        i <= list.len(),
                        out@.len() == i,
                        forall|j: int| 0 <= j < i ==> out@[j]@ == list@[j]@,
                    decreases list.len() - i,
                {
                    let item = list[i].clone();
                    out.push(item);
                    i += 1;
                }
                proof {
                    lemma_view_major4(*info, out);
                    lemma_view_major4(*info, *list);
                    assert(list_view(out@) =~= list_view(list@));
                }
                Cbor::Major4(*info, out)
            },
            Cbor::Major5(info, map) => {
                let mut out: Vec<(Key, Cbor)> = Vec::new();
                let mut i: usize = 0;
                while i < map.len()
                    invariant
                        i <= map.len(),
                        out@.len() == i,
                        forall|j: int|
                            0 <= j < i ==> out@[j].0@ == map@[j].0@ && out@[j].1@ == map@[j].1@,
                    decreases map.len() - i,
                {
                    let key = map[i].0.clone();
                    let val = map[i].1.clone();
                    out.push((key, val));
                    i += 1;
                }
                proof {
                    lemma_view_major5(*info, out);
                    lemma_view_major5(*info, *map);
                    assert(map_view(out@) =~= map_view(map@));
                }
                Cbor::Major5(*info, out)
            },
            Cbor::Major6(info, tag) => {
                let copy = match tag {
                    Tag::UBigNum(val) => Tag::UBigNum(Box::new((**val).clone())),
                    Tag::SBigNum(val) => Tag::SBigNum(Box::new((**val).clone())),
                    Tag::Identifier(val) => Tag::Identifier(Box::new((**val).clone())),
                    Tag::Value(num) => Tag::Value(*num),
                };
                proof {
                    lemma_view_major6(*info, copy);
                    lemma_view_major6(*info, *tag);
                }
                Cbor::Major6(*info, copy)
            },
            Cbor::Major7(info, sval) => Cbor::Major7(*info, *sval),
            Cbor::Binary(data) => Cbor::Binary(copy_bytes(data.as_slice())),
        }
    }
}

impl Clone for Tag {
    /// A deep copy: a tag with the same model.
    fn clone(&self) -> (res: Tag)
        ensures
            res@ == self@,
    {
        let copy = match self {
            Tag::UBigNum(val) => Tag::UBigNum(Box::new((**val).clone())),
            Tag::SBigNum(val) => Tag::SBigNum(Box::new((**val).clone())),
            Tag::Identifier(val) => Tag::Identifier(Box::new((**val).clone())),
            Tag::Value(num) => Tag::Value(*num),
        };
        proof {
            lemma_view_major6(Info::U8, copy);
            lemma_view_major6(Info::U8, *self);
        }
        copy
    }
}

} // verus!
