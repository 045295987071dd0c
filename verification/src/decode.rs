//! Reading a value tree from bytes.

use crate::bytes::{append_bytes, copy_bytes, lemma_len_fits};
use crate::convert::FromCbor;
use crate::error::{Error, ErrorKind};
use crate::header::{decode_addnl, decode_addnl_spec, decode_hdr, decode_hdr_spec, Info};
use crate::key::{Key, SpecKey};
use crate::simple::SimpleValue;
use crate::tree::{
    lemma_view_major4, lemma_view_major5, lemma_view_major6, list_view, map_view, Cbor, SpecCbor,
    SpecTag, Tag, RECURSION_LIMIT,
};
use vstd::prelude::*;
use vstd::slice::slice_subrange;

verus! {

/// The bytes that a chunk of a streamed string carries; none for a node that
/// is no string.
pub open spec fn chunk_payload(val: SpecCbor) -> Seq<u8> {
    match val {
        SpecCbor::Major2(_, byts) => byts,
        SpecCbor::Major3(_, text) => text,
        _ => Seq::empty(),
    }
}

/// The payloads of the chunks of a streamed string, one after the other.
pub open spec fn concat_chunks(chunks: Seq<SpecCbor>) -> Seq<u8>
    decreases chunks.len(),
{
    if chunks.len() == 0 {
        Seq::empty()
    } else {
        concat_chunks(chunks.drop_last()) + chunk_payload(chunks.last())
    }
}

/// Whether a node may stand in a stream of major type `major`: in a streamed
/// byte string only byte strings, in a streamed text only texts, in an array
/// anything.
pub open spec fn fits_stream(major: u8, val: SpecCbor) -> bool {
    &&& major == 2 ==> val is Major2
    &&& major == 3 ==> val is Major3
}

/// What reading one item at level `depth` from `bytes` gives: the tree and
/// the number of bytes read, header and payload and the terminator of a
/// stream included.
///
/// * Major types 0 and 1 read the value field.
/// * Major types 2 and 3 read a length and that many bytes, or, streamed,
///   chunks of the same major type up to a terminator; a chunk of another
///   shape is `FailCbor`.
/// * Major type 4 reads a count and that many items one level deeper, or,
///   streamed, items up to a terminator.
/// * Major type 5 reads a count and that many pairs one level deeper, or,
///   streamed, pairs up to a terminator in value position.
/// * Major type 6 reads the tag's number and, for the numbers 2, 3 and 39,
///   one item one level deeper.
/// * Major type 7 reads a simple value.
///
/// A level over [`RECURSION_LIMIT`] is `FailCbor`; a source that ends too
/// early is `IOError`. The first failure in reading order decides.
pub open spec fn decode_spec(bytes: Seq<u8>, depth: nat) -> Result<(SpecCbor, nat), ErrorKind>
    decreases RECURSION_LIMIT + 1 - depth, 1nat, 0nat,
{
    if depth > RECURSION_LIMIT {
        Err(ErrorKind::FailCbor)
    } else {
        match decode_hdr_spec(bytes) {
            Err(kind) => Err(kind),
            Ok((major, info, _)) => {
                let body = bytes.skip(1);
                if major == 0 {
                    match decode_addnl_spec(info, body) {
                        Ok((num, m)) => Ok((SpecCbor::Major0(info, num), 1 + m)),
                        Err(kind) => Err(kind),
                    }
                } else if major == 1 {
                    match decode_addnl_spec(info, body) {
                        Ok((num, m)) => Ok((SpecCbor::Major1(info, num), 1 + m)),
                        Err(kind) => Err(kind),
                    }
                } else if major == 2 || major == 3 {
                    match decode_string(major, info, body, depth) {
                        Ok((data, m)) => Ok(
                            (
                                if major == 2 {
                                    SpecCbor::Major2(info, data)
                                } else {
                                    SpecCbor::Major3(info, data)
                                },
                                1 + m,
                            ),
                        ),
                        Err(kind) => Err(kind),
                    }
                } else if major == 4 {
                    match decode_counted(info, body) {
                        Err(kind) => Err(kind),
                        Ok((count, m)) => match decode_list(body.skip(m as int), count, 4, depth + 1) {
                            Ok((list, k)) => Ok((SpecCbor::Major4(info, list), 1 + m + k)),
                            Err(kind) => Err(kind),
                        },
                    }
                } else if major == 5 {
                    match decode_counted(info, body) {
                        Err(kind) => Err(kind),
                        Ok((count, m)) => match decode_pairs(body.skip(m as int), count, depth + 1) {
                            Ok((map, k)) => Ok((SpecCbor::Major5(info, map), 1 + m + k)),
                            Err(kind) => Err(kind),
                        },
                    }
                } else if major == 6 {
                    match decode_tag(info, body, depth) {
                        Ok((tag, m)) => Ok((SpecCbor::Major6(info, tag), 1 + m)),
                        Err(kind) => Err(kind),
                    }
                } else {
                    match SimpleValue::decode_spec(info, body) {
                        Ok((sval, m)) => Ok((SpecCbor::Major7(info, sval), 1 + m)),
                        Err(kind) => Err(kind),
                    }
                }
            },
        }
    }
}

/// The count that the header of an array or map announces, with the bytes of
/// its field: none for a stream.
pub open spec fn decode_counted(info: Info, body: Seq<u8>) -> Result<(Option<nat>, nat), ErrorKind> {
    if info is Indefinite {
        Ok((None, 0nat))
    } else {
        match decode_addnl_spec(info, body) {
            Ok((count, m)) => Ok((Some(count as nat), m)),
            Err(kind) => Err(kind),
        }
    }
}

/// What reading the payload of a string of major type `major` gives: its
/// bytes and the number of bytes read. A length beyond the machine's range is
/// `FailConvert`.
pub open spec fn decode_string(major: u8, info: Info, body: Seq<u8>, depth: nat) -> Result<
    (Seq<u8>, nat),
    ErrorKind,
>
    decreases RECURSION_LIMIT + 1 - depth, 0nat, 0nat,
{
    if depth > RECURSION_LIMIT {
        Err(ErrorKind::FailCbor)
    } else if info is Indefinite {
        match decode_list(body, None, major, depth + 1) {
            Ok((chunks, m)) => Ok((concat_chunks(chunks), m)),
            Err(kind) => Err(kind),
        }
    } else {
        match decode_addnl_spec(info, body) {
            Err(kind) => Err(kind),
            Ok((len, m)) => if len > usize::MAX {
                Err(ErrorKind::FailConvert)
            } else if body.len() - m < len {
                Err(ErrorKind::IOError)
            } else {
                Ok((body.subrange(m as int, m + len), m + len as nat))
            },
        }
    }
}

/// What reading what follows the header of a tagged value gives: the tag and
/// the number of bytes read.
pub open spec fn decode_tag(info: Info, body: Seq<u8>, depth: nat) -> Result<
    (SpecTag, nat),
    ErrorKind,
>
    decreases RECURSION_LIMIT + 1 - depth, 0nat, 0nat,
{
    if depth > RECURSION_LIMIT {
        Err(ErrorKind::FailCbor)
    } else {
        match decode_addnl_spec(info, body) {
            Err(kind) => Err(kind),
            Ok((num, m)) => if num == 2 || num == 3 || num == 39 {
                match decode_spec(body.skip(m as int), depth + 1) {
                    Err(kind) => Err(kind),
                    Ok((val, k)) => Ok(
                        (
                            if num == 2 {
                                SpecTag::UBigNum(Box::new(val))
                            } else if num == 3 {
                                SpecTag::SBigNum(Box::new(val))
                            } else {
                                SpecTag::Identifier(Box::new(val))
                            },
                            m + k,
                        ),
                    ),
                }
            } else {
                Ok((SpecTag::Value(num), m))
            },
        }
    }
}

/// What reading a run of items at level `depth` gives: the items and the
/// number of bytes read. With a count, that many items; without, the items up
/// to a terminator, which is read and left out, each of a shape that fits a
/// stream of major type `major`, else `FailCbor`.
pub open spec fn decode_list(bytes: Seq<u8>, count: Option<nat>, major: u8, depth: nat) -> Result<
    (Seq<SpecCbor>, nat),
    ErrorKind,
>
    decreases RECURSION_LIMIT + 1 - depth, 2nat, match count {
        Some(n) => n,
        None => bytes.len(),
    },
{
    if count == Some(0nat) {
        Ok((Seq::empty(), 0nat))
    } else {
        match decode_spec(bytes, depth) {
            Err(kind) => Err(kind),
            Ok((val, k)) => if count is None && val.is_break() {
                Ok((Seq::empty(), k))
            } else if count is None && !fits_stream(major, val) {
                Err(ErrorKind::FailCbor)
            } else if k == 0 || k > bytes.len() {
                Err(ErrorKind::Fatal)
            } else {
                let left = match count {
                    Some(n) => Some((n - 1) as nat),
                    None => None,
                };
                match decode_list(bytes.skip(k as int), left, major, depth) {
                    Err(kind) => Err(kind),
                    Ok((rest, m)) => Ok((seq![val] + rest, k + m)),
                }
            },
        }
    }
}

/// What reading a run of pairs at level `depth` gives: the pairs and the
/// number of bytes read. With a count, that many pairs; without, the pairs up
/// to a terminator in value position, which is read and left out together
/// with the key before it. A key node that stands for no key fails with the
/// class of its conversion, once its value has been read.
pub open spec fn decode_pairs(bytes: Seq<u8>, count: Option<nat>, depth: nat) -> Result<
    (Seq<(SpecKey, SpecCbor)>, nat),
    ErrorKind,
>
    decreases RECURSION_LIMIT + 1 - depth, 2nat, match count {
        Some(n) => n,
        None => bytes.len(),
    },
{
    if count == Some(0nat) {
        Ok((Seq::empty(), 0nat))
    } else {
        match decode_spec(bytes, depth) {
            Err(kind) => Err(kind),
            Ok((node, j)) => match decode_spec(bytes.skip(j as int), depth) {
                Err(kind) => Err(kind),
                Ok((val, k)) => if count is None && val.is_break() {
                    Ok((Seq::empty(), j + k))
                } else {
                    match node.to_key() {
                        Err(kind) => Err(kind),
                        Ok(key) => if j + k == 0 || j + k > bytes.len() {
                            Err(ErrorKind::Fatal)
                        } else {
                            let left = match count {
                                Some(n) => Some((n - 1) as nat),
                                None => None,
                            };
                            match decode_pairs(bytes.skip((j + k) as int), left, depth) {
                                Err(kind) => Err(kind),
                                Ok((rest, m)) => Ok((seq![(key, val)] + rest, j + k + m)),
                            }
                        },
                    }
                },
            },
        }
    }
}

/// Whether a call that read a tree did what the model `model` says: on
/// success it returned the model's tree and number of bytes, at least one and
/// no more than the `len` there were; on failure the model's class of error.
pub open spec fn read_tree(
    res: Result<(Cbor, usize), Error>,
    model: Result<(SpecCbor, nat), ErrorKind>,
    len: nat,
) -> bool {
    match model {
        Ok((val, n)) => res matches Ok((out, m)) && out@ == val && m == n && 1 <= n <= len,
        Err(kind) => res matches Err(e) && e.kind() == kind,
    }
}

/// The count of a run as a number without bound.
pub open spec fn run_count(count: Option<u64>) -> Option<nat> {
    match count {
        Some(n) => Some(n as nat),
        None => None,
    }
}

/// Put the items `done`, read from `used` bytes, before the result of
/// reading the rest of a run.
pub open spec fn join_list(
    done: Seq<SpecCbor>,
    used: nat,
    rest: Result<(Seq<SpecCbor>, nat), ErrorKind>,
) -> Result<(Seq<SpecCbor>, nat), ErrorKind> {
    match rest {
        Ok((list, n)) => Ok((done + list, used + n)),
        Err(kind) => Err(kind),
    }
}

/// Put the pairs `done`, read from `used` bytes, before the result of
/// reading the rest of a run.
pub open spec fn join_pairs(
    done: Seq<(SpecKey, SpecCbor)>,
    used: nat,
    rest: Result<(Seq<(SpecKey, SpecCbor)>, nat), ErrorKind>,
) -> Result<(Seq<(SpecKey, SpecCbor)>, nat), ErrorKind> {
    match rest {
        Ok((map, n)) => Ok((done + map, used + n)),
        Err(kind) => Err(kind),
    }
}

/// Whether a node is the stream terminator.
fn is_break(val: &Cbor) -> (res: bool)
    ensures
        res == val@.is_break(),
{
    match val {
        Cbor::Major7(_, SimpleValue::Break) => true,
        _ => false,
    }
}

/// Whether a node may stand in a stream of major type `major`.
fn fits(major: u8, val: &Cbor) -> (res: bool)
    ensures
        res == fits_stream(major, val@),
{
    if major == 2 {
        match val {
            Cbor::Major2(_, _) => true,
            _ => false,
        }
    } else if major == 3 {
        match val {
            Cbor::Major3(_, _) => true,
            _ => false,
        }
    } else {
        true
    }
}

/// The payloads of the chunks of a streamed string, one after the other.
fn join_chunks(chunks: &Vec<Cbor>) -> (data: Vec<u8>)
    ensures
        data@ == concat_chunks(list_view(chunks@)),
{
    let mut data: Vec<u8> = Vec::new();
    let mut i: usize = 0;
    let ghost all = list_view(chunks@);
    while i < chunks.len()
        invariant
            i <= chunks.len(),
            all == list_view(chunks@),
            data@ == concat_chunks(all.take(i as int)),
        decreases chunks.len() - i,
    {
        proof {
            assert(all.take(i + 1).drop_last() =~= all.take(i as int));
            assert(all.take(i + 1).last() == chunks@[i as int]@);
        }
        match &chunks[i] {
            Cbor::Major2(_, byts) => append_bytes(&mut data, byts.as_slice()),
            Cbor::Major3(_, text) => append_bytes(&mut data, text.as_slice()),
            _ => {
                assert(data@ + Seq::<u8>::empty() =~= data@);
            },
        }
        i += 1;
    }
    assert(all.take(i as int) =~= all);
    data
}

impl Tag {
    /// Read what follows the header of a tagged value at level `depth`.
    #[verifier::rlimit(30)]
    pub(crate) fn decode(info: Info, body: &[u8], depth: u32) -> (res: Result<(Tag, usize), Error>)
        ensures
            match decode_tag(info, body@, depth as nat) {
                Ok((tag, n)) => res matches Ok((out, m)) && out@ == tag && m == n && n
                    <= body@.len(),
                Err(kind) => res matches Err(e) && e.kind() == kind,
            },
        decreases RECURSION_LIMIT + 1 - depth, 0nat,
    {
        if depth > RECURSION_LIMIT {
            return Err(Error::new(ErrorKind::FailCbor, "cbor", "decode recursion limit exceeded"));
        }
        let mut cur: &[u8] = body;
        let (num, m) = decode_addnl(info, &mut cur)?;
        proof {
            lemma_len_fits(body);
        }
        if num == 2 || num == 3 || num == 39 {
            let (val, k) = match Cbor::do_decode(cur, depth + 1) {
                Ok(x) => x,
                Err(e) => {
                    return Err(e);
                },
            };
            let tag = if num == 2 {
                Tag::UBigNum(Box::new(val))
            } else if num == 3 {
                Tag::SBigNum(Box::new(val))
            } else {
                Tag::Identifier(Box::new(val))
            };
            proof {
                lemma_view_major6(info, tag);
            }
            Ok((tag, m + k))
        } else {
            proof {
                lemma_view_major6(info, Tag::Value(num));
            }
            Ok((Tag::Value(num), m))
        }
    }
}

impl Cbor {
    /// Deserialize bytes from reader `r` to Cbor value, return the cbor value
    /// and number of bytes read to construct the value. The reader moves past
    /// the bytes read; on failure it stays where it was.
    pub fn decode(r: &mut &[u8]) -> (res: Result<(Cbor, usize), Error>)
        ensures
            read_tree(res, decode_spec(old(r)@, 1), old(r)@.len()),
            match res {
                Ok((_, n)) => final(r)@ == old(r)@.skip(n as int),
                Err(_) => *final(r) == *old(r),
            },
    {
        let (val, n) = Cbor::do_decode(*r, 1)?;
        *r = slice_subrange(*r, n, r.len());
        Ok((val, n))
    }

    /// Read one item at level `depth`.
    #[verifier::rlimit(30)]
    pub fn do_decode(r: &[u8], depth: u32) -> (res: Result<(Cbor, usize), Error>)
        ensures
            read_tree(res, decode_spec(r@, depth as nat), r@.len()),
        decreases RECURSION_LIMIT + 1 - depth, 1nat,
    {
        if depth > RECURSION_LIMIT {
            return Err(Error::new(ErrorKind::FailCbor, "cbor", "decode recursion limit exceeded"));
        }
        let mut cur: &[u8] = r;
        let (major, info, _) = decode_hdr(&mut cur)?;
        proof {
            lemma_len_fits(r);
        }
        if major == 0 {
            let (num, m) = decode_addnl(info, &mut cur)?;
            Ok((Cbor::Major0(info, num), 1 + m))
        } else if major == 1 {
            let (num, m) = decode_addnl(info, &mut cur)?;
            Ok((Cbor::Major1(info, num), 1 + m))
        } else if major == 2 {
            let (data, m) = Cbor::decode_payload(2, info, cur, depth)?;
            Ok((Cbor::Major2(info, data), 1 + m))
        } else if major == 3 {
            let (text, m) = Cbor::decode_payload(3, info, cur, depth)?;
            Ok((Cbor::Major3(info, text), 1 + m))
        } else if major == 4 {
            let (count, m) = Cbor::decode_count(info, &mut cur)?;
            let (list, k) = Cbor::decode_items(cur, count, 4, depth + 1)?;
            proof {
                lemma_view_major4(info, list);
            }
            Ok((Cbor::Major4(info, list), 1 + m + k))
        } else if major == 5 {
            let (count, m) = Cbor::decode_count(info, &mut cur)?;
            let (map, k) = Cbor::decode_map(cur, count, depth + 1)?;
            proof {
                lemma_view_major5(info, map);
            }
            Ok((Cbor::Major5(info, map), 1 + m + k))
        } else if major == 6 {
            let (tag, m) = Tag::decode(info, cur, depth)?;
            proof {
                lemma_view_major6(info, tag);
            }
            Ok((Cbor::Major6(info, tag), 1 + m))
        } else {
            let (sval, m) = SimpleValue::decode(info, &mut cur)?;
            Ok((Cbor::Major7(info, sval), 1 + m))
        }
    }

    /// Read the count that the header of an array or map announces.
    fn decode_count(info: Info, r: &mut &[u8]) -> (res: Result<(Option<u64>, usize), Error>)
        ensures
            match decode_counted(info, old(r)@) {
                Ok((count, n)) => res == Ok::<(Option<u64>, usize), Error>(
                    (
                        match count {
                            Some(c) => Some(c as u64),
                            None => None,
                        },
                        n as usize,
                    ),
                ) && run_count(res->Ok_0.0) == count && final(r)@ == old(r)@.skip(n as int) && n
                    <= old(r)@.len(),
                Err(kind) => res matches Err(e) && e.kind() == kind && *final(r) == *old(r),
            },
    {
        match info {
            Info::Indefinite => {
                assert(r@.skip(0) =~= r@);
                Ok((None, 0))
            },
            _ => {
                let (count, m) = decode_addnl(info, r)?;
                Ok((Some(count), m))
            },
        }
    }

    /// Read the payload of a string of major type `major`.
    #[verifier::rlimit(30)]
    fn decode_payload(major: u8, info: Info, body: &[u8], depth: u32) -> (res: Result<
        (Vec<u8>, usize),
        Error,
    >)
        ensures
            match decode_string(major, info, body@, depth as nat) {
                Ok((data, n)) => res matches Ok((out, m)) && out@ == data && m == n && n
                    <= body@.len(),
                Err(kind) => res matches Err(e) && e.kind() == kind,
            },
        decreases RECURSION_LIMIT + 1 - depth, 0nat,
    {
        if depth > RECURSION_LIMIT {
            return Err(Error::new(ErrorKind::FailCbor, "cbor", "decode recursion limit exceeded"));
        }
        match info {
            Info::Indefinite => {
                let (chunks, m) = Cbor::decode_items(body, None, major, depth + 1)?;
                Ok((join_chunks(&chunks), m))
            },
            _ => {
                let mut cur: &[u8] = body;
                let (len, m) = decode_addnl(info, &mut cur)?;
                proof {
                    lemma_len_fits(body);
                }
                if len > usize::MAX as u64 {
                    return Err(Error::new(ErrorKind::FailConvert, "cbor", "length out of range"));
                }
                let n: usize = len as usize;
                if cur.len() < n {
                    return Err(Error::new(ErrorKind::IOError, "cbor", "source ended"));
                }
                let data = copy_bytes(slice_subrange(cur, 0, n));
                assert(cur@.subrange(0, n as int) =~= body@.subrange(m as int, m + len));
                Ok((data, m + n))
            },
        }
    }

    /// Read a run of items at level `depth`: `count` of them, or, without a
    /// count, up to a terminator.
    #[verifier::rlimit(30)]
    fn decode_items(r: &[u8], count: Option<u64>, major: u8, depth: u32) -> (res: Result<
        (Vec<Cbor>, usize),
        Error,
    >)
        ensures
            match decode_list(r@, run_count(count), major, depth as nat) {
                Ok((list, n)) => res matches Ok((out, m)) && list_view(out@) == list && m == n && n
                    <= r@.len(),
                Err(kind) => res matches Err(e) && e.kind() == kind,
            },
        decreases RECURSION_LIMIT + 1 - depth, 2nat,
    {
        let mut list: Vec<Cbor> = Vec::new();
        let mut cur: &[u8] = r;
        let mut used: usize = 0;
        let mut left: Option<u64> = count;
        let ghost whole = decode_list(r@, run_count(count), major, depth as nat);
        proof {
            lemma_len_fits(r);
            assert(r@.skip(0) =~= r@);
            assert(list_view(list@) =~= Seq::<SpecCbor>::empty());
            match whole {
                Ok((all, n)) => {
                    assert(Seq::<SpecCbor>::empty() + all =~= all);
                },
                Err(_) => {},
            }
        }
        loop
            invariant
                r@.len() <= usize::MAX,
                used <= r@.len(),
                cur@ == r@.skip(used as int),
                whole == decode_list(r@, run_count(count), major, depth as nat),
                whole == join_list(
                    list_view(list@),
                    used as nat,
                    decode_list(cur@, run_count(left), major, depth as nat),
                ),
            decreases cur@.len(),
        {
            let ghost done = list_view(list@);
            if let Some(n) = left {
                if n == 0 {
                    assert(done + Seq::<SpecCbor>::empty() =~= done);
                    return Ok((list, used));
                }
            }
            let (val, k) = match Cbor::do_decode(cur, depth) {
                Ok(x) => x,
                Err(e) => {
                    return Err(e);
                },
            };
            if left.is_none() {
                if is_break(&val) {
                    assert(done + Seq::<SpecCbor>::empty() =~= done);
                    return Ok((list, used + k));
                }
                if !fits(major, &val) {
                    return Err(Error::new(ErrorKind::FailCbor, "cbor", "expected chunk"));
                }
            }
            let ghost item = val@;
            let ghost old_cur = cur@;
            list.push(val);
            cur = slice_subrange(cur, k, cur.len());
            left = match left {
                Some(n) => Some(n - 1),
                None => None,
            };
            proof {
                assert(list_view(list@) =~= done.push(item));
                assert(cur@ =~= r@.skip(used + k));
                assert(cur@ =~= old_cur.skip(k as int));
                match decode_list(cur@, run_count(left), major, depth as nat) {
                    Ok((rest, m)) => {
                        assert(done + (seq![item] + rest) =~= done.push(item) + rest);
                    },
                    Err(_) => {},
                }
            }
            used = used + k;
        }
    }

    /// Read a run of pairs at level `depth`: `count` of them, or, without a
    /// count, up to a terminator in value position.
    #[verifier::rlimit(30)]
    fn decode_map(r: &[u8], count: Option<u64>, depth: u32) -> (res: Result<
        (Vec<(Key, Cbor)>, usize),
        Error,
    >)
        ensures
            match decode_pairs(r@, run_count(count), depth as nat) {
                Ok((map, n)) => res matches Ok((out, m)) && map_view(out@) == map && m == n && n
                    <= r@.len(),
                Err(kind) => res matches Err(e) && e.kind() == kind,
            },
        decreases RECURSION_LIMIT + 1 - depth, 2nat,
    {
        let mut map: Vec<(Key, Cbor)> = Vec::new();
        let mut cur: &[u8] = r;
        let mut used: usize = 0;
        let mut left: Option<u64> = count;
        let ghost whole = decode_pairs(r@, run_count(count), depth as nat);
        proof {
            lemma_len_fits(r);
            assert(r@.skip(0) =~= r@);
            assert(map_view(map@) =~= Seq::<(SpecKey, SpecCbor)>::empty());
            match whole {
                Ok((all, n)) => {
                    assert(Seq::<(SpecKey, SpecCbor)>::empty() + all =~= all);
                },
                Err(_) => {},
            }
        }
        loop
            invariant
                r@.len() <= usize::MAX,
                used <= r@.len(),
                cur@ == r@.skip(used as int),
                whole == decode_pairs(r@, run_count(count), depth as nat),
                whole == join_pairs(
                    map_view(map@),
                    used as nat,
                    decode_pairs(cur@, run_count(left), depth as nat),
                ),
            decreases cur@.len(),
        {
            let ghost done = map_view(map@);
            if let Some(n) = left {
                if n == 0 {
                    assert(done + Seq::<(SpecKey, SpecCbor)>::empty() =~= done);
                    return Ok((map, used));
                }
            }
            let (node, j) = match Cbor::do_decode(cur, depth) {
                Ok(x) => x,
                Err(e) => {
                    return Err(e);
                },
            };
            let after_key = slice_subrange(cur, j, cur.len());
            let (val, k) = match Cbor::do_decode(after_key, depth) {
                Ok(x) => x,
                Err(e) => {
                    return Err(e);
                },
            };
            if left.is_none() && is_break(&val) {
                assert(done + Seq::<(SpecKey, SpecCbor)>::empty() =~= done);
                return Ok((map, used + j + k));
            }
            let key = match Key::from_cbor(node) {
                Ok(key) => key,
                Err(e) => {
                    return Err(e);
                },
            };
            let ghost item = (key@, val@);
            let ghost old_cur = cur@;
            map.push((key, val));
            cur = slice_subrange(cur, j + k, cur.len());
            left = match left {
                Some(n) => Some(n - 1),
                None => None,
            };
            proof {
                assert(map_view(map@) =~= done.push(item));
                assert(cur@ =~= r@.skip(used + j + k));
                assert(cur@ =~= old_cur.skip(j + k));
                match decode_pairs(cur@, run_count(left), depth as nat) {
                    Ok((rest, m)) => {
                        assert(done + (seq![item] + rest) =~= done.push(item) + rest);
                    },
                    Err(_) => {},
                }
            }
            used = used + j + k;
        }
    }
}

} // verus!
