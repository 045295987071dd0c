//! What is written can be read back.

use crate::bytes::{lemma_be_bytes_len, lemma_be_value_of_bytes, lemma_pow256_values};
use crate::decode::{
    decode_counted, decode_list, decode_pairs, decode_spec, decode_string, decode_tag,
};
use crate::encode::{encode_items, encode_pair, encode_pairs, encode_spec, encode_tag, head_spec};
use crate::error::ErrorKind;
use crate::header::{
    addnl_bytes, addnl_width, decode_addnl_spec, decode_hdr_spec, hdr_byte, hdr_spec, Info,
};
use crate::key::SpecKey;
use crate::simple::SimpleValue;
use crate::tree::{SpecCbor, SpecTag, RECURSION_LIMIT};
use vstd::prelude::*;
use vstd::utf8::encode_utf8;

verus! {

/// Whether the descriptor `info` goes with a field that holds `num`: it is the
/// narrowest that holds it, or `num` is 0 under the indefinite descriptor,
/// which reads as 0 with no field.
pub open spec fn field_fits(info: Info, num: u64) -> bool {
    info == Info::minimal(num) || (info is Indefinite && num == 0)
}

/// Whether a key can stand in a map that is read back: it converts to a
/// node, it is no longer than the machine counts, and its level is within
/// the limit.
pub open spec fn key_reads_back(key: SpecKey, depth: nat) -> bool {
    &&& depth <= RECURSION_LIMIT
    &&& key matches SpecKey::N64(num) ==> num < 0
    &&& key matches SpecKey::Bytes(byts) ==> byts.len() <= usize::MAX
    &&& key matches SpecKey::Text(text) ==> encode_utf8(text).len() <= usize::MAX
}

/// Whether a tree at level `depth` is one that is read back as it was
/// written.
///
/// * Its nesting stays within [`RECURSION_LIMIT`].
/// * Every descriptor is the narrowest for the number, length or count beside
///   it (or the indefinite one beside the number 0).
/// * No string is longer than the machine counts, and no array or map longer
///   than a count of 64 bits tells.
/// * A simple value is one that this library writes, under its own
///   descriptor.
/// * A plain tag number is none of 2, 3 and 39.
/// * No node is an item in encoded form.
pub open spec fn reads_back(val: SpecCbor, depth: nat) -> bool
    decreases RECURSION_LIMIT + 1 - depth,
{
    if depth > RECURSION_LIMIT {
        false
    } else {
        match val {
            SpecCbor::Major0(info, num) => field_fits(info, num),
            SpecCbor::Major1(info, num) => field_fits(info, num),
            SpecCbor::Major2(info, byts) => byts.len() <= usize::MAX && info == Info::minimal(
                byts.len() as u64,
            ),
            SpecCbor::Major3(info, text) => text.len() <= usize::MAX && info == Info::minimal(
                text.len() as u64,
            ),
            SpecCbor::Major4(info, list) => {
                &&& list.len() <= u64::MAX
                &&& info == Info::minimal(list.len() as u64)
                &&& forall|i: int| 0 <= i < list.len() ==> reads_back(#[trigger] list[i], depth + 1)
            },
            SpecCbor::Major5(info, map) => {
                &&& map.len() <= u64::MAX
                &&& info == Info::minimal(map.len() as u64)
                &&& forall|i: int|
                    0 <= i < map.len() ==> key_reads_back((#[trigger] map[i]).0, depth + 1)
                        && reads_back(map[i].1, depth + 1)
            },
            SpecCbor::Major6(info, tag) => field_fits(info, tag.tag_value()) && match tag {
                SpecTag::UBigNum(val) => reads_back(*val, depth + 1),
                SpecTag::SBigNum(val) => reads_back(*val, depth + 1),
                SpecTag::Identifier(val) => reads_back(*val, depth + 1),
                SpecTag::Value(num) => num != 2 && num != 3 && num != 39,
            },
            SpecCbor::Major7(info, sval) => sval.info() == Some(info),
            SpecCbor::Binary(_) => false,
        }
    }
}

/// A header byte gives back the major type and the descriptor it was made of.
pub proof fn lemma_hdr_reads_back(major: u8, info: Info, rest: Seq<u8>)
    requires
        major <= 7,
        info.code() is Some,
    ensures
        hdr_spec(major, info) matches Some(b) && decode_hdr_spec(seq![b] + rest) == Ok::<
            (u8, Info, nat),
            ErrorKind,
        >((major, info, 1nat)),
{
    let code = info.code()->0;
    let b = hdr_byte(major, code);
    assert(b == major * 32 + code);
    assert(b / 32 == major && b % 32 == code);
    assert((seq![b] + rest)[0] == b);
}

/// The value field of `num` gives back `num`, under the narrowest descriptor
/// and, for 0, under the indefinite one.
pub proof fn lemma_addnl_reads_back(info: Info, num: u64, rest: Seq<u8>)
    requires
        field_fits(info, num),
    ensures
        decode_addnl_spec(info, addnl_bytes(num) + rest) == Ok::<(u64, nat), ErrorKind>(
            (num, addnl_width(num)),
        ),
        addnl_bytes(num).len() == addnl_width(num),
        info.code() is Some,
{
    let w = addnl_width(num);
    lemma_be_bytes_len(num as nat, w);
    lemma_pow256_values();
    if w > 0 {
        lemma_be_value_of_bytes(num as nat, w);
        assert((addnl_bytes(num) + rest).take(w as int) =~= addnl_bytes(num));
    }
}

/// The payload of a simple value gives back the value.
pub proof fn lemma_simple_reads_back(sval: SimpleValue, rest: Seq<u8>)
    requires
        sval.info() is Some,
    ensures
        SimpleValue::decode_spec(sval.info()->0, sval.payload() + rest) == Ok::<
            (SimpleValue, nat),
            ErrorKind,
        >((sval, sval.payload().len())),
        sval.info()->0.code() is Some,
{
    lemma_pow256_values();
    match sval {
        SimpleValue::F32(bits) => {
            lemma_be_bytes_len(bits as nat, 4);
            lemma_be_value_of_bytes(bits as nat, 4);
            assert((sval.payload() + rest).take(4) =~= sval.payload());
        },
        SimpleValue::F64(bits) => {
            lemma_be_bytes_len(bits as nat, 8);
            lemma_be_value_of_bytes(bits as nat, 8);
            assert((sval.payload() + rest).take(8) =~= sval.payload());
        },
        _ => {},
    }
}

/// The node of a key that can stand in a map is read back as it was
/// written, and stands for that key again.
pub proof fn lemma_key_node_reads_back(key: SpecKey, depth: nat)
    requires
        key_reads_back(key, depth),
    ensures
        key.to_cbor() matches Ok(node) && reads_back(node, depth) && node.to_key() == Ok::<
            SpecKey,
            ErrorKind,
        >(key),
{
    match key {
        SpecKey::Text(text) => {
            vstd::utf8::encode_utf8_valid_utf8(text);
            vstd::utf8::encode_utf8_decode_utf8(text);
        },
        _ => {},
    }
}

/// The integer node of major type 0 or 1.
pub open spec fn number_node(major: u8, info: Info, num: u64) -> SpecCbor {
    if major == 0 {
        SpecCbor::Major0(info, num)
    } else {
        SpecCbor::Major1(info, num)
    }
}

/// The string node of major type 2 or 3.
pub open spec fn string_node(major: u8, info: Info, data: Seq<u8>) -> SpecCbor {
    if major == 2 {
        SpecCbor::Major2(info, data)
    } else {
        SpecCbor::Major3(info, data)
    }
}

/// An integer node is read back as it was written.
#[verifier::rlimit(30)]
pub proof fn lemma_number_reads_back(major: u8, info: Info, num: u64, depth: nat, rest: Seq<u8>)
    requires
        major == 0 || major == 1,
        depth <= RECURSION_LIMIT,
        field_fits(info, num),
    ensures
        encode_spec(number_node(major, info, num), depth) matches Ok(bytes) && bytes.len() >= 1
            && decode_spec(bytes + rest, depth) == Ok::<(SpecCbor, nat), ErrorKind>(
            (number_node(major, info, num), bytes.len()),
        ),
{
    let body = addnl_bytes(num) + rest;
    lemma_addnl_reads_back(info, num, rest);
    lemma_hdr_reads_back(major, info, body);
    let b = hdr_spec(major, info)->0;
    let bytes = seq![b] + addnl_bytes(num);
    assert(bytes + rest =~= seq![b] + body);
    assert((bytes + rest).skip(1) =~= body);
}

/// The payload of a string is read back as it was written.
#[verifier::rlimit(30)]
pub proof fn lemma_string_field_reads_back(
    major: u8,
    info: Info,
    data: Seq<u8>,
    depth: nat,
    rest: Seq<u8>,
)
    requires
        depth <= RECURSION_LIMIT,
        data.len() <= usize::MAX,
        info == Info::minimal(data.len() as u64),
    ensures
        decode_string(major, info, addnl_bytes(data.len() as u64) + (data + rest), depth) == Ok::<
            (Seq<u8>, nat),
            ErrorKind,
        >((data, addnl_width(data.len() as u64) + data.len())),
        addnl_bytes(data.len() as u64).len() == addnl_width(data.len() as u64),
        info.code() is Some,
{
    let len = data.len() as u64;
    let body = addnl_bytes(len) + (data + rest);
    let w = addnl_width(len);
    lemma_addnl_reads_back(info, len, data + rest);
    assert(body.subrange(w as int, w + len) =~= data);
}

/// A string node is read back as it was written.
#[verifier::rlimit(30)]
pub proof fn lemma_string_reads_back(
    major: u8,
    info: Info,
    data: Seq<u8>,
    depth: nat,
    rest: Seq<u8>,
)
    requires
        major == 2 || major == 3,
        depth <= RECURSION_LIMIT,
        data.len() <= usize::MAX,
        info == Info::minimal(data.len() as u64),
    ensures
        encode_spec(string_node(major, info, data), depth) matches Ok(bytes) && bytes.len() >= 1
            && decode_spec(bytes + rest, depth) == Ok::<(SpecCbor, nat), ErrorKind>(
            (string_node(major, info, data), bytes.len()),
        ),
{
    let len = data.len() as u64;
    let body = addnl_bytes(len) + (data + rest);
    lemma_string_field_reads_back(major, info, data, depth, rest);
    lemma_hdr_reads_back(major, info, body);
    let b = hdr_spec(major, info)->0;
    let bytes = seq![b] + addnl_bytes(len) + data;
    assert(bytes + rest =~= seq![b] + body);
    assert((bytes + rest).skip(1) =~= body);
}

/// A simple-value node is read back as it was written.
#[verifier::rlimit(30)]
pub proof fn lemma_simple_node_reads_back(val: SpecCbor, depth: nat, rest: Seq<u8>)
    requires
        reads_back(val, depth),
        val is Major7,
    ensures
        encode_spec(val, depth) matches Ok(bytes) && bytes.len() >= 1 && decode_spec(
            bytes + rest,
            depth,
        ) == Ok::<(SpecCbor, nat), ErrorKind>((val, bytes.len())),
{
    let info = val->Major7_0;
    let sval = val->Major7_1;
    lemma_simple_reads_back(sval, rest);
    lemma_hdr_reads_back(7, info, sval.payload() + rest);
    let b = hdr_spec(7, info)->0;
    let bytes = seq![b] + sval.payload();
    assert(bytes + rest =~= seq![b] + (sval.payload() + rest));
    assert((bytes + rest).skip(1) =~= sval.payload() + rest);
}

/// An array node is read back as it was written, if its elements are.
#[verifier::rlimit(30)]
pub proof fn lemma_array_reads_back(
    info: Info,
    list: Seq<SpecCbor>,
    depth: nat,
    rest: Seq<u8>,
    items: Seq<u8>,
)
    requires
        depth <= RECURSION_LIMIT,
        list.len() <= u64::MAX,
        info == Info::minimal(list.len() as u64),
        encode_items(list, depth + 1) == Ok::<Seq<u8>, ErrorKind>(items),
        decode_list(items + rest, Some(list.len()), 4, depth + 1) == Ok::<
            (Seq<SpecCbor>, nat),
            ErrorKind,
        >((list, items.len())),
    ensures
        encode_spec(SpecCbor::Major4(info, list), depth) matches Ok(bytes) && bytes.len() >= 1
            && decode_spec(bytes + rest, depth) == Ok::<(SpecCbor, nat), ErrorKind>(
            (SpecCbor::Major4(info, list), bytes.len()),
        ),
{
    let len = list.len() as u64;
    lemma_addnl_reads_back(info, len, items + rest);
    lemma_hdr_reads_back(4, info, addnl_bytes(len) + (items + rest));
    let b = hdr_spec(4, info)->0;
    let bytes = seq![b] + addnl_bytes(len) + items;
    let body = addnl_bytes(len) + (items + rest);
    let w = addnl_width(len);
    assert(head_spec(4, info, len) == Ok::<Seq<u8>, ErrorKind>(seq![b] + addnl_bytes(len)));
    assert(encode_spec(SpecCbor::Major4(info, list), depth) == Ok::<Seq<u8>, ErrorKind>(bytes));
    assert(bytes + rest =~= seq![b] + body);
    assert((bytes + rest).skip(1) =~= body);
    assert(body.skip(w as int) =~= items + rest);
    assert(decode_counted(info, body) == Ok::<(Option<nat>, nat), ErrorKind>(
        (Some(len as nat), w),
    ));
}

/// A map node is read back as it was written, if its pairs are.
#[verifier::rlimit(30)]
pub proof fn lemma_map_reads_back(
    info: Info,
    map: Seq<(SpecKey, SpecCbor)>,
    depth: nat,
    rest: Seq<u8>,
    pairs: Seq<u8>,
)
    requires
        depth <= RECURSION_LIMIT,
        map.len() <= u64::MAX,
        info == Info::minimal(map.len() as u64),
        encode_pairs(map, depth + 1) == Ok::<Seq<u8>, ErrorKind>(pairs),
        decode_pairs(pairs + rest, Some(map.len()), depth + 1) == Ok::<
            (Seq<(SpecKey, SpecCbor)>, nat),
            ErrorKind,
        >((map, pairs.len())),
    ensures
        encode_spec(SpecCbor::Major5(info, map), depth) matches Ok(bytes) && bytes.len() >= 1
            && decode_spec(bytes + rest, depth) == Ok::<(SpecCbor, nat), ErrorKind>(
            (SpecCbor::Major5(info, map), bytes.len()),
        ),
{
    let len = map.len() as u64;
    lemma_addnl_reads_back(info, len, pairs + rest);
    lemma_hdr_reads_back(5, info, addnl_bytes(len) + (pairs + rest));
    let b = hdr_spec(5, info)->0;
    let bytes = seq![b] + addnl_bytes(len) + pairs;
    let body = addnl_bytes(len) + (pairs + rest);
    let w = addnl_width(len);
    assert(head_spec(5, info, len) == Ok::<Seq<u8>, ErrorKind>(seq![b] + addnl_bytes(len)));
    assert(encode_spec(SpecCbor::Major5(info, map), depth) == Ok::<Seq<u8>, ErrorKind>(bytes));
    assert(bytes + rest =~= seq![b] + body);
    assert((bytes + rest).skip(1) =~= body);
    assert(body.skip(w as int) =~= pairs + rest);
    assert(decode_counted(info, body) == Ok::<(Option<nat>, nat), ErrorKind>(
        (Some(len as nat), w),
    ));
}

/// The payload of a tag: the tree it wraps, if it wraps one.
pub open spec fn tag_payload(tag: SpecTag) -> Option<SpecCbor> {
    match tag {
        SpecTag::UBigNum(val) => Some(*val),
        SpecTag::SBigNum(val) => Some(*val),
        SpecTag::Identifier(val) => Some(*val),
        SpecTag::Value(_) => None,
    }
}

/// What follows the header of a tagged node is read back as it was written,
/// if its payload is.
#[verifier::rlimit(30)]
pub proof fn lemma_tag_field_reads_back(
    info: Info,
    tag: SpecTag,
    depth: nat,
    rest: Seq<u8>,
    payload: Seq<u8>,
)
    requires
        depth <= RECURSION_LIMIT,
        field_fits(info, tag.tag_value()),
        match tag_payload(tag) {
            Some(val) => encode_spec(val, depth + 1) == Ok::<Seq<u8>, ErrorKind>(payload)
                && decode_spec(payload + rest, depth + 1) == Ok::<(SpecCbor, nat), ErrorKind>(
                (val, payload.len()),
            ),
            None => payload == Seq::<u8>::empty() && tag.tag_value() != 2 && tag.tag_value() != 3
                && tag.tag_value() != 39,
        },
    ensures
        encode_tag(tag, depth) == Ok::<Seq<u8>, ErrorKind>(
            addnl_bytes(tag.tag_value()) + payload,
        ),
        decode_tag(info, addnl_bytes(tag.tag_value()) + (payload + rest), depth) == Ok::<
            (SpecTag, nat),
            ErrorKind,
        >((tag, addnl_width(tag.tag_value()) + payload.len())),
{
    let num = tag.tag_value();
    let w = addnl_width(num);
    let body = addnl_bytes(num) + (payload + rest);
    lemma_addnl_reads_back(info, num, payload + rest);
    assert(addnl_bytes(num) + Seq::<u8>::empty() =~= addnl_bytes(num));
    assert(body.skip(w as int) =~= payload + rest);
}

/// A tagged node is read back as it was written, if its payload is.
#[verifier::rlimit(30)]
pub proof fn lemma_tag_reads_back(
    info: Info,
    tag: SpecTag,
    depth: nat,
    rest: Seq<u8>,
    payload: Seq<u8>,
)
    requires
        depth <= RECURSION_LIMIT,
        info.code() is Some,
        encode_tag(tag, depth) == Ok::<Seq<u8>, ErrorKind>(
            addnl_bytes(tag.tag_value()) + payload,
        ),
        decode_tag(info, addnl_bytes(tag.tag_value()) + (payload + rest), depth) == Ok::<
            (SpecTag, nat),
            ErrorKind,
        >((tag, addnl_width(tag.tag_value()) + payload.len())),
        addnl_bytes(tag.tag_value()).len() == addnl_width(tag.tag_value()),
    ensures
        encode_spec(SpecCbor::Major6(info, tag), depth) matches Ok(bytes) && bytes.len() >= 1
            && decode_spec(bytes + rest, depth) == Ok::<(SpecCbor, nat), ErrorKind>(
            (SpecCbor::Major6(info, tag), bytes.len()),
        ),
{
    let num = tag.tag_value();
    let body = addnl_bytes(num) + (payload + rest);
    lemma_hdr_reads_back(6, info, body);
    let b = hdr_spec(6, info)->0;
    let bytes = seq![b] + (addnl_bytes(num) + payload);
    assert(bytes + rest =~= seq![b] + body);
    assert((bytes + rest).skip(1) =~= body);
}

/// A tree that [`reads_back`] is read back as it was written, whatever
/// follows it in the source, and reading takes as many bytes as writing gave.
pub proof fn lemma_reads_back_at(val: SpecCbor, depth: nat, rest: Seq<u8>)
    requires
        reads_back(val, depth),
    ensures
        encode_spec(val, depth) matches Ok(bytes) && bytes.len() >= 1 && decode_spec(
            bytes + rest,
            depth,
        ) == Ok::<(SpecCbor, nat), ErrorKind>((val, bytes.len())),
    decreases RECURSION_LIMIT + 1 - depth, 1nat, 0nat,
{
    match val {
        SpecCbor::Major0(info, num) => lemma_number_reads_back(0, info, num, depth, rest),
        SpecCbor::Major1(info, num) => lemma_number_reads_back(1, info, num, depth, rest),
        SpecCbor::Major2(info, byts) => lemma_string_reads_back(2, info, byts, depth, rest),
        SpecCbor::Major3(info, text) => lemma_string_reads_back(3, info, text, depth, rest),
        SpecCbor::Major4(info, list) => {
            lemma_items_read_back(list, 0, depth + 1, 4, rest);
            assert(list.skip(0) =~= list);
            let items = encode_items(list, depth + 1)->Ok_0;
            lemma_array_reads_back(info, list, depth, rest, items);
        },
        SpecCbor::Major5(info, map) => {
            lemma_pairs_read_back(map, 0, depth + 1, rest);
            assert(map.skip(0) =~= map);
            let pairs = encode_pairs(map, depth + 1)->Ok_0;
            lemma_map_reads_back(info, map, depth, rest, pairs);
        },
        SpecCbor::Major6(info, tag) => {
            let payload = match tag_payload(tag) {
                Some(inner) => {
                    lemma_reads_back_at(inner, depth + 1, rest);
                    encode_spec(inner, depth + 1)->Ok_0
                },
                None => Seq::empty(),
            };
            lemma_addnl_reads_back(info, tag.tag_value(), payload + rest);
            lemma_tag_field_reads_back(info, tag, depth, rest, payload);
            lemma_tag_reads_back(info, tag, depth, rest, payload);
        },
        SpecCbor::Major7(_, _) => lemma_simple_node_reads_back(val, depth, rest),
        SpecCbor::Binary(_) => {},
    }
}

/// A run of items is read back as it was written, if its first item and the
/// items after it are.
#[verifier::rlimit(30)]
pub proof fn lemma_run_reads_back(
    run: Seq<SpecCbor>,
    depth: nat,
    major: u8,
    rest: Seq<u8>,
    first: Seq<u8>,
    tail: Seq<u8>,
)
    requires
        run.len() > 0,
        first.len() >= 1,
        encode_spec(run[0], depth) == Ok::<Seq<u8>, ErrorKind>(first),
        decode_spec(first + (tail + rest), depth) == Ok::<(SpecCbor, nat), ErrorKind>(
            (run[0], first.len()),
        ),
        encode_items(run.drop_first(), depth) == Ok::<Seq<u8>, ErrorKind>(tail),
        decode_list(tail + rest, Some((run.len() - 1) as nat), major, depth) == Ok::<
            (Seq<SpecCbor>, nat),
            ErrorKind,
        >((run.drop_first(), tail.len())),
    ensures
        encode_items(run, depth) == Ok::<Seq<u8>, ErrorKind>(first + tail),
        decode_list(first + tail + rest, Some(run.len()), major, depth) == Ok::<
            (Seq<SpecCbor>, nat),
            ErrorKind,
        >((run, (first + tail).len())),
{
    let bytes = first + tail;
    assert(bytes + rest =~= first + (tail + rest));
    assert((bytes + rest).skip(first.len() as int) =~= tail + rest);
    assert(seq![run[0]] + run.drop_first() =~= run);
}

/// The elements of an array from the index `from` on are read back as they
/// were written.
pub proof fn lemma_items_read_back(
    list: Seq<SpecCbor>,
    from: nat,
    depth: nat,
    major: u8,
    rest: Seq<u8>,
)
    requires
        from <= list.len(),
        forall|i: int| from <= i < list.len() ==> reads_back(#[trigger] list[i], depth),
    ensures
        encode_items(list.skip(from as int), depth) matches Ok(bytes) && decode_list(
            bytes + rest,
            Some((list.len() - from) as nat),
            major,
            depth,
        ) == Ok::<(Seq<SpecCbor>, nat), ErrorKind>((list.skip(from as int), bytes.len())),
    decreases RECURSION_LIMIT + 1 - depth, 2nat, list.len() - from,
{
    let run = list.skip(from as int);
    if from < list.len() {
        lemma_items_read_back(list, from + 1, depth, major, rest);
        assert(run.drop_first() =~= list.skip(from as int + 1));
        let tail = encode_items(run.drop_first(), depth)->Ok_0;
        assert(run[0] == list[from as int]);
        lemma_reads_back_at(run[0], depth, tail + rest);
        let first = encode_spec(run[0], depth)->Ok_0;
        lemma_run_reads_back(run, depth, major, rest, first, tail);
    } else {
        assert(run =~= Seq::<SpecCbor>::empty());
        assert(Seq::<u8>::empty() + rest =~= rest);
    }
}

/// A run of pairs is read back as it was written, if its first pair and the
/// pairs after it are.
#[verifier::rlimit(30)]
pub proof fn lemma_pair_run_reads_back(
    run: Seq<(SpecKey, SpecCbor)>,
    depth: nat,
    rest: Seq<u8>,
    first: Seq<u8>,
    second: Seq<u8>,
    tail: Seq<u8>,
)
    requires
        run.len() > 0,
        first.len() >= 1,
        second.len() >= 1,
        run[0].0.to_cbor() matches Ok(node) && node.to_key() == Ok::<SpecKey, ErrorKind>(
            run[0].0,
        ) && encode_spec(node, depth) == Ok::<Seq<u8>, ErrorKind>(first) && decode_spec(
            first + (second + (tail + rest)),
            depth,
        ) == Ok::<(SpecCbor, nat), ErrorKind>((node, first.len())),
        encode_spec(run[0].1, depth) == Ok::<Seq<u8>, ErrorKind>(second),
        decode_spec(second + (tail + rest), depth) == Ok::<(SpecCbor, nat), ErrorKind>(
            (run[0].1, second.len()),
        ),
        encode_pairs(run.drop_first(), depth) == Ok::<Seq<u8>, ErrorKind>(tail),
        decode_pairs(tail + rest, Some((run.len() - 1) as nat), depth) == Ok::<
            (Seq<(SpecKey, SpecCbor)>, nat),
            ErrorKind,
        >((run.drop_first(), tail.len())),
    ensures
        encode_pairs(run, depth) == Ok::<Seq<u8>, ErrorKind>(first + second + tail),
        decode_pairs(first + second + tail + rest, Some(run.len()), depth) == Ok::<
            (Seq<(SpecKey, SpecCbor)>, nat),
            ErrorKind,
        >((run, (first + second + tail).len())),
{
    let bytes = first + second + tail;
    assert(encode_pair(run[0].0, run[0].1, depth) == Ok::<Seq<u8>, ErrorKind>(first + second));
    assert(bytes + rest =~= first + (second + (tail + rest)));
    assert((bytes + rest).skip(first.len() as int) =~= second + (tail + rest));
    assert((bytes + rest).skip((first.len() + second.len()) as int) =~= tail + rest);
    assert(seq![run[0]] + run.drop_first() =~= run);
}

/// The pairs of a map from the index `from` on are read back as they were
/// written.
pub proof fn lemma_pairs_read_back(
    map: Seq<(SpecKey, SpecCbor)>,
    from: nat,
    depth: nat,
    rest: Seq<u8>,
)
    requires
        from <= map.len(),
        forall|i: int|
            from <= i < map.len() ==> key_reads_back((#[trigger] map[i]).0, depth) && reads_back(
                map[i].1,
                depth,
            ),
    ensures
        encode_pairs(map.skip(from as int), depth) matches Ok(bytes) && decode_pairs(
            bytes + rest,
            Some((map.len() - from) as nat),
            depth,
        ) == Ok::<(Seq<(SpecKey, SpecCbor)>, nat), ErrorKind>(
            (map.skip(from as int), bytes.len()),
        ),
    decreases RECURSION_LIMIT + 1 - depth, 2nat, map.len() - from,
{
    let run = map.skip(from as int);
    if from < map.len() {
        lemma_pairs_read_back(map, from + 1, depth, rest);
        assert(run.drop_first() =~= map.skip(from as int + 1));
        let tail = encode_pairs(run.drop_first(), depth)->Ok_0;
        assert(run[0] == map[from as int]);
        let key = run[0].0;
        let val = run[0].1;
        lemma_key_node_reads_back(key, depth);
        let node = key.to_cbor()->Ok_0;
        lemma_reads_back_at(val, depth, tail + rest);
        let second = encode_spec(val, depth)->Ok_0;
        lemma_reads_back_at(node, depth, second + (tail + rest));
        let first = encode_spec(node, depth)->Ok_0;
        lemma_pair_run_reads_back(run, depth, rest, first, second, tail);
    } else {
        assert(run =~= Seq::<(SpecKey, SpecCbor)>::empty());
        assert(Seq::<u8>::empty() + rest =~= rest);
    }
}

/// Round trip: a tree that [`reads_back`] at the root is read back as it was
/// written, and reading takes as many bytes as writing gave.
pub proof fn lemma_round_trip(val: SpecCbor)
    requires
        reads_back(val, 1),
    ensures
        encode_spec(val, 1) matches Ok(bytes) && decode_spec(bytes, 1) == Ok::<
            (SpecCbor, nat),
            ErrorKind,
        >((val, bytes.len())),
{
    lemma_reads_back_at(val, 1, Seq::empty());
    let bytes = encode_spec(val, 1)->Ok_0;
    assert(bytes + Seq::<u8>::empty() =~= bytes);
}

} // verus!
