//! Writing a value tree as bytes.

use crate::bytes::append_bytes;
use crate::convert::IntoCbor;
use crate::error::{Error, ErrorKind};
use crate::header::{addnl_bytes, encode_addnl, encode_hdr, hdr_spec, Info};
use crate::key::{Key, SpecKey};
use crate::simple::SimpleValue;
use crate::tree::{
    lemma_view_major4, lemma_view_major5, lemma_view_major6, list_view, map_view, Cbor, SpecCbor,
    SpecTag, Tag, RECURSION_LIMIT,
};
use vstd::prelude::*;

verus! {

/// Put `head` before the bytes of a result.
pub open spec fn prepend(head: Seq<u8>, tail: Result<Seq<u8>, ErrorKind>) -> Result<
    Seq<u8>,
    ErrorKind,
> {
    match tail {
        Ok(bytes) => Ok(head + bytes),
        Err(kind) => Err(kind),
    }
}

/// Put `tail` after the bytes of a result.
pub open spec fn followed_by(head: Result<Seq<u8>, ErrorKind>, tail: Seq<u8>) -> Result<
    Seq<u8>,
    ErrorKind,
> {
    match head {
        Ok(bytes) => Ok(bytes + tail),
        Err(kind) => Err(kind),
    }
}

/// The header byte of a node and the value field after it, given the value
/// that the field holds; `FailCbor` where the descriptor has no code.
pub open spec fn head_spec(major: u8, info: Info, num: u64) -> Result<Seq<u8>, ErrorKind> {
    match hdr_spec(major, info) {
        Some(b) => Ok(seq![b] + addnl_bytes(num)),
        None => Err(ErrorKind::FailCbor),
    }
}

/// The bytes of a tree that stands `depth` levels deep, the root at level 1.
///
/// A tree deeper than [`RECURSION_LIMIT`] is `FailCbor`, as is a node whose
/// descriptor is an inlined value over 23; a map key that does not convert
/// fails with the class of its conversion. The first failure in writing
/// order decides. An item in encoded form is written as it is.
pub open spec fn encode_spec(val: SpecCbor, depth: nat) -> Result<Seq<u8>, ErrorKind>
    decreases RECURSION_LIMIT + 1 - depth, 1nat, 0nat,
{
    if depth > RECURSION_LIMIT {
        Err(ErrorKind::FailCbor)
    } else {
        match val {
            SpecCbor::Major0(info, num) => head_spec(0, info, num),
            SpecCbor::Major1(info, num) => head_spec(1, info, num),
            SpecCbor::Major2(info, byts) => followed_by(
                head_spec(2, info, byts.len() as u64),
                byts,
            ),
            SpecCbor::Major3(info, text) => followed_by(
                head_spec(3, info, text.len() as u64),
                text,
            ),
            SpecCbor::Major4(info, list) => match head_spec(4, info, list.len() as u64) {
                Ok(head) => prepend(head, encode_items(list, depth + 1)),
                Err(kind) => Err(kind),
            },
            SpecCbor::Major5(info, map) => match head_spec(5, info, map.len() as u64) {
                Ok(head) => prepend(head, encode_pairs(map, depth + 1)),
                Err(kind) => Err(kind),
            },
            SpecCbor::Major6(info, tag) => match hdr_spec(6, info) {
                Some(b) => prepend(seq![b], encode_tag(tag, depth)),
                None => Err(ErrorKind::FailCbor),
            },
            SpecCbor::Major7(info, sval) => match hdr_spec(7, info) {
                Some(b) => Ok(seq![b] + sval.payload()),
                None => Err(ErrorKind::FailCbor),
            },
            SpecCbor::Binary(data) => Ok(data),
        }
    }
}

/// The bytes that follow the header of a tagged value at level `depth`: the
/// tag's number, then the payload's own encoding one level deeper.
pub open spec fn encode_tag(tag: SpecTag, depth: nat) -> Result<Seq<u8>, ErrorKind>
    decreases RECURSION_LIMIT + 1 - depth, 0nat, 0nat,
{
    if depth > RECURSION_LIMIT {
        Err(ErrorKind::FailCbor)
    } else {
        match tag {
            SpecTag::UBigNum(val) => prepend(addnl_bytes(2), encode_spec(*val, depth + 1)),
            SpecTag::SBigNum(val) => prepend(addnl_bytes(3), encode_spec(*val, depth + 1)),
            SpecTag::Identifier(val) => prepend(addnl_bytes(39), encode_spec(*val, depth + 1)),
            SpecTag::Value(num) => Ok(addnl_bytes(num)),
        }
    }
}

/// The bytes of the elements of an array, one after the other, each at level
/// `depth`.
pub open spec fn encode_items(list: Seq<SpecCbor>, depth: nat) -> Result<Seq<u8>, ErrorKind>
    decreases RECURSION_LIMIT + 1 - depth, 2nat, list.len(),
{
    if list.len() == 0 {
        Ok(Seq::empty())
    } else {
        match encode_spec(list[0], depth) {
            Ok(first) => prepend(first, encode_items(list.drop_first(), depth)),
            Err(kind) => Err(kind),
        }
    }
}

/// The bytes of one pair of a map: the key's node, then the value.
pub open spec fn encode_pair(key: SpecKey, val: SpecCbor, depth: nat) -> Result<Seq<u8>, ErrorKind>
    decreases RECURSION_LIMIT + 1 - depth, 2nat, 0nat,
{
    match key.to_cbor() {
        Ok(node) => match encode_spec(node, depth) {
            Ok(first) => prepend(first, encode_spec(val, depth)),
            Err(kind) => Err(kind),
        },
        Err(kind) => Err(kind),
    }
}

/// The bytes of the pairs of a map, one after the other, each at level
/// `depth`.
pub open spec fn encode_pairs(map: Seq<(SpecKey, SpecCbor)>, depth: nat) -> Result<
    Seq<u8>,
    ErrorKind,
>
    decreases RECURSION_LIMIT + 1 - depth, 3nat, map.len(),
{
    if map.len() == 0 {
        Ok(Seq::empty())
    } else {
        match encode_pair(map[0].0, map[0].1, depth) {
            Ok(first) => prepend(first, encode_pairs(map.drop_first(), depth)),
            Err(kind) => Err(kind),
        }
    }
}

/// Whether a call that wrote to `w` did what the model `model` says: on
/// success it appended exactly the model's bytes and returned their number,
/// on failure it returned the model's class of error and left what `w` held
/// before in place.
pub open spec fn wrote(
    before: Seq<u8>,
    after: Seq<u8>,
    res: Result<usize, Error>,
    model: Result<Seq<u8>, ErrorKind>,
) -> bool {
    match model {
        Ok(bytes) => res == Ok::<usize, Error>(bytes.len() as usize) && after == before + bytes,
        Err(kind) => res matches Err(e) && e.kind() == kind && before.is_prefix_of(after),
    }
}

/// What stands before a prefix of a string is a prefix of it too.
pub proof fn lemma_prefix_of_longer(a: Seq<u8>, b: Seq<u8>, c: Seq<u8>)
    requires
        (a + b).is_prefix_of(c),
    ensures
        a.is_prefix_of(c),
{
    assert(a =~= (a + b).subrange(0, a.len() as int));
    assert(a =~= c.subrange(0, a.len() as int));
}

/// Write the header of a node and the value field after it.
fn encode_head(major: u8, info: Info, num: u64, w: &mut Vec<u8>) -> (res: Result<usize, Error>)
    requires
        major <= 7,
    ensures
        wrote(old(w)@, final(w)@, res, head_spec(major, info, num)),
        head_spec(major, info, num) is Err ==> final(w)@ == old(w)@,
{
    let n = encode_hdr(major, info, w)?;
    let m = encode_addnl(num, w)?;
    proof {
        let b = hdr_spec(major, info)->0;
        assert(old(w)@.push(b) + addnl_bytes(num) =~= old(w)@ + (seq![b] + addnl_bytes(num)));
        crate::bytes::lemma_be_bytes_len(num as nat, crate::header::addnl_width(num));
    }
    Ok(n + m)
}

impl Tag {
    /// Write what follows the header of a tagged value at level `depth`. At
    /// a level over [`RECURSION_LIMIT`] nothing is written.
    #[verifier::rlimit(30)]
    pub(crate) fn encode(tag: &Tag, w: &mut Vec<u8>, depth: u32) -> (res: Result<usize, Error>)
        ensures
            wrote(old(w)@, final(w)@, res, encode_tag(tag@, depth as nat)),
            depth > RECURSION_LIMIT ==> final(w)@ == old(w)@,
        decreases RECURSION_LIMIT + 1 - depth, 1nat,
    {
        if depth > RECURSION_LIMIT {
            return Err(Error::new(ErrorKind::FailCbor, "cbor", "encode recursion limit exceeded"));
        }
        let ghost start = w@;
        let base = w.len();
        let num = tag.to_tag_value();
        let _ = encode_addnl(num, w)?;
        proof {
            lemma_view_major6(Info::U8, *tag);
        }
        let r = match tag {
            Tag::UBigNum(val) => val.do_encode(w, depth + 1),
            Tag::SBigNum(val) => val.do_encode(w, depth + 1),
            Tag::Identifier(val) => val.do_encode(w, depth + 1),
            Tag::Value(_) => {
                return Ok(w.len() - base);
            },
        };
        match r {
            Ok(_) => {
                proof {
                    let inner = match tag@ {
                        SpecTag::UBigNum(val) => *val,
                        SpecTag::SBigNum(val) => *val,
                        SpecTag::Identifier(val) => *val,
                        SpecTag::Value(_) => arbitrary(),
                    };
                    let item = encode_spec(inner, depth as nat + 1)->Ok_0;
                    assert(w@ =~= start + (addnl_bytes(num) + item));
                }
                Ok(w.len() - base)
            },
            Err(e) => {
                proof {
                    lemma_prefix_of_longer(start, addnl_bytes(num), w@);
                }
                Err(e)
            },
        }
    }
}

impl Cbor {
    /// Serialize this cbor value: append its bytes to `w` and return their
    /// number. On failure `w` is left as it was.
    pub fn encode(&self, w: &mut Vec<u8>) -> (res: Result<usize, Error>)
        ensures
            wrote(old(w)@, final(w)@, res, encode_spec(self@, 1)),
            res is Err ==> final(w)@ == old(w)@,
    {
        self.do_encode(w, 1)
    }

    /// Serialize this cbor value as a node at level `depth`: append its
    /// bytes to `w` and return their number. On failure, and so at every
    /// level over [`RECURSION_LIMIT`], `w` is left as it was.
    pub fn do_encode(&self, w: &mut Vec<u8>, depth: u32) -> (res: Result<usize, Error>)
        ensures
            wrote(old(w)@, final(w)@, res, encode_spec(self@, depth as nat)),
            res is Err ==> final(w)@ == old(w)@,
        decreases RECURSION_LIMIT + 1 - depth, 3nat,
    {
        if depth > RECURSION_LIMIT {
            return Err(Error::new(ErrorKind::FailCbor, "cbor", "encode recursion limit exceeded"));
        }
        let base = w.len();
        match self.encode_node(w, depth) {
            Ok(n) => Ok(n),
            Err(e) => {
                w.truncate(base);
                Err(e)
            },
        }
    }

    /// Write the header of this node at level `depth` and what follows it.
    #[verifier::rlimit(30)]
    fn encode_node(&self, w: &mut Vec<u8>, depth: u32) -> (res: Result<usize, Error>)
        requires
            depth <= RECURSION_LIMIT,
        ensures
            wrote(old(w)@, final(w)@, res, encode_spec(self@, depth as nat)),
        decreases RECURSION_LIMIT + 1 - depth, 2nat,
    {
        let ghost start = w@;
        let base = w.len();
        match self {
            Cbor::Major0(info, num) => encode_head(0, *info, *num, w),
            Cbor::Major1(info, num) => encode_head(1, *info, *num, w),
            Cbor::Major2(info, byts) => {
                let _ = encode_head(2, *info, byts.len() as u64, w)?;
                let ghost head = head_spec(2, *info, byts.len() as u64)->Ok_0;
                append_bytes(w, byts.as_slice());
                assert(w@ =~= start + (head + byts@));
                Ok(w.len() - base)
            },
            Cbor::Major3(info, text) => {
                let _ = encode_head(3, *info, text.len() as u64, w)?;
                let ghost head = head_spec(3, *info, text.len() as u64)->Ok_0;
                append_bytes(w, text.as_slice());
                assert(w@ =~= start + (head + text@));
                Ok(w.len() - base)
            },
            Cbor::Major4(info, list) => {
                proof {
                    lemma_view_major4(*info, *list);
                }
                let _ = encode_head(4, *info, list.len() as u64, w)?;
                let ghost head = head_spec(4, *info, list.len() as u64)->Ok_0;
                match Cbor::encode_list(list, w, depth + 1) {
                    Ok(_) => {
                        proof {
                            let body = encode_items(list_view(list@), depth as nat + 1)->Ok_0;
                            assert(w@ =~= start + (head + body));
                        }
                        Ok(w.len() - base)
                    },
                    Err(e) => {
                        proof {
                            lemma_prefix_of_longer(start, head, w@);
                        }
                        Err(e)
                    },
                }
            },
            Cbor::Major5(info, map) => {
                proof {
                    lemma_view_major5(*info, *map);
                }
                let _ = encode_head(5, *info, map.len() as u64, w)?;
                let ghost head = head_spec(5, *info, map.len() as u64)->Ok_0;
                match Cbor::encode_map(map, w, depth + 1) {
                    Ok(_) => {
                        proof {
                            let body = encode_pairs(map_view(map@), depth as nat + 1)->Ok_0;
                            assert(w@ =~= start + (head + body));
                        }
                        Ok(w.len() - base)
                    },
                    Err(e) => {
                        proof {
                            lemma_prefix_of_longer(start, head, w@);
                        }
                        Err(e)
                    },
                }
            },
            Cbor::Major6(info, tag) => {
                proof {
                    lemma_view_major6(*info, *tag);
                }
                let _ = encode_hdr(6, *info, w)?;
                let ghost b = hdr_spec(6, *info)->0;
                match Tag::encode(tag, w, depth) {
                    Ok(_) => {
                        proof {
                            let body = encode_tag(tag@, depth as nat)->Ok_0;
                            assert(w@ =~= start + (seq![b] + body));
                        }
                        Ok(w.len() - base)
                    },
                    Err(e) => {
                        proof {
                            assert(start.push(b) =~= start + seq![b]);
                            lemma_prefix_of_longer(start, seq![b], w@);
                        }
                        Err(e)
                    },
                }
            },
            Cbor::Major7(info, sval) => {
                let _ = encode_hdr(7, *info, w)?;
                let ghost b = hdr_spec(7, *info)->0;
                let _ = SimpleValue::encode(sval, w)?;
                assert(w@ =~= start + (seq![b] + sval.payload()));
                Ok(w.len() - base)
            },
            Cbor::Binary(data) => {
                append_bytes(w, data.as_slice());
                Ok(w.len() - base)
            },
        }
    }

    /// Serialize the elements of an array, each as a node at level `depth`.
    #[verifier::rlimit(30)]
    fn encode_list(list: &Vec<Cbor>, w: &mut Vec<u8>, depth: u32) -> (res: Result<usize, Error>)
        ensures
            wrote(old(w)@, final(w)@, res, encode_items(list_view(list@), depth as nat)),
        decreases RECURSION_LIMIT + 1 - depth, 4nat,
    {
        let ghost start = w@;
        let base = w.len();
        let ghost items = list_view(list@);
        let ghost mut done = Seq::<u8>::empty();
        let mut i: usize = 0;
        assert(items.skip(0) =~= items);
        assert(w@ =~= start + done);
        while i < list.len()
            invariant
                i <= list.len(),
                start == old(w)@,
                items == list_view(list@),
                w@ == start + done,
                base == start.len(),
                encode_items(items, depth as nat) == prepend(
                    done,
                    encode_items(items.skip(i as int), depth as nat),
                ),
            decreases list.len() - i,
        {
            let ghost rest = items.skip(i as int);
            proof {
                assert(rest[0] == list@[i as int]@);
                assert(rest.drop_first() =~= items.skip(i + 1));
            }
            match list[i].do_encode(w, depth) {
                Ok(_) => {
                    proof {
                        let item = encode_spec(rest[0], depth as nat)->Ok_0;
                        assert(w@ =~= start + (done + item));
                        match encode_items(items.skip(i + 1), depth as nat) {
                            Ok(tail) => {
                                assert(done + (item + tail) =~= (done + item) + tail);
                            },
                            Err(_) => {},
                        }
                        done = done + item;
                    }
                },
                Err(e) => {
                    proof {
                        lemma_prefix_of_longer(start, done, w@);
                    }
                    return Err(e);
                },
            }
            i += 1;
        }
        proof {
            assert(items.skip(i as int) =~= Seq::<SpecCbor>::empty());
            assert(done + Seq::<u8>::empty() =~= done);
        }
        Ok(w.len() - base)
    }

    /// Serialize the pairs of a map, key and value each as a node at level
    /// `depth`.
    #[verifier::rlimit(30)]
    fn encode_map(map: &Vec<(Key, Cbor)>, w: &mut Vec<u8>, depth: u32) -> (res: Result<
        usize,
        Error,
    >)
        ensures
            wrote(old(w)@, final(w)@, res, encode_pairs(map_view(map@), depth as nat)),
        decreases RECURSION_LIMIT + 1 - depth, 4nat,
    {
        let ghost start = w@;
        let base = w.len();
        let ghost pairs = map_view(map@);
        let ghost mut done = Seq::<u8>::empty();
        let mut i: usize = 0;
        assert(pairs.skip(0) =~= pairs);
        assert(w@ =~= start + done);
        while i < map.len()
            invariant
                i <= map.len(),
                start == old(w)@,
                pairs == map_view(map@),
                w@ == start + done,
                base == start.len(),
                encode_pairs(pairs, depth as nat) == prepend(
                    done,
                    encode_pairs(pairs.skip(i as int), depth as nat),
                ),
            decreases map.len() - i,
        {
            let ghost rest = pairs.skip(i as int);
            proof {
                assert(rest[0] == (map@[i as int].0@, map@[i as int].1@));
                assert(rest.drop_first() =~= pairs.skip(i + 1));
                assert(encode_pairs(rest, depth as nat) == match encode_pair(
                    rest[0].0,
                    rest[0].1,
                    depth as nat,
                ) {
                    Ok(first) => prepend(first, encode_pairs(rest.drop_first(), depth as nat)),
                    Err(kind) => Err(kind),
                });
            }
            let node = match map[i].0.clone().into_cbor() {
                Ok(node) => node,
                Err(e) => {
                    proof {
                        lemma_prefix_of_longer(start, done, w@);
                    }
                    return Err(e);
                },
            };
            match node.do_encode(w, depth) {
                Ok(_) => {},
                Err(e) => {
                    proof {
                        lemma_prefix_of_longer(start, done, w@);
                    }
                    return Err(e);
                },
            };
            let ghost first = encode_spec(node@, depth as nat)->Ok_0;
            assert(w@ =~= start + (done + first));
            match map[i].1.do_encode(w, depth) {
                Ok(_) => {},
                Err(e) => {
                    proof {
                        lemma_prefix_of_longer(start, done + first, w@);
                    }
                    return Err(e);
                },
            };
            proof {
                let second = encode_spec(rest[0].1, depth as nat)->Ok_0;
                let item = first + second;
                assert(w@ =~= start + (done + item));
                match encode_pairs(pairs.skip(i + 1), depth as nat) {
                    Ok(tail) => {
                        assert(done + (item + tail) =~= (done + item) + tail);
                    },
                    Err(_) => {},
                }
                done = done + item;
            }
            i += 1;
        }
        proof {
            assert(pairs.skip(i as int) =~= Seq::<(SpecKey, SpecCbor)>::empty());
            assert(done + Seq::<u8>::empty() =~= done);
        }
        Ok(w.len() - base)
    }
}

} // verus!
