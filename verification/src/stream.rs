//! Streamed strings, arrays and maps read as their counted forms do.

use crate::decode::{concat_chunks, decode_list, decode_pairs, decode_spec, fits_stream};
use crate::encode::{encode_items, encode_pair, encode_pairs, encode_spec};
use crate::error::ErrorKind;
use crate::header::Info;
use crate::key::SpecKey;
use crate::roundtrip::{
    key_reads_back, lemma_key_node_reads_back, lemma_reads_back_at, reads_back,
};
use crate::simple::SimpleValue;
use crate::tree::{SpecCbor, RECURSION_LIMIT};
use vstd::prelude::*;

verus! {

/// The byte that ends a stream.
pub open spec fn break_byte() -> u8 {
    0xff
}

/// The header byte that opens a stream of major type `major`.
pub open spec fn stream_byte(major: u8) -> u8 {
    (major * 32 + 31) as u8
}

/// Whether a node can stand in a stream of major type `major` at level
/// `depth` and be read back: it reads back by itself, is of a shape that fits
/// the stream, and is not the terminator.
pub open spec fn streams(major: u8, val: SpecCbor, depth: nat) -> bool {
    &&& reads_back(val, depth)
    &&& fits_stream(major, val)
    &&& !val.is_break()
}

/// The terminator reads as such at any level within the limit.
#[verifier::rlimit(30)]
pub proof fn lemma_break_reads(depth: nat, rest: Seq<u8>)
    requires
        depth <= RECURSION_LIMIT,
    ensures
        decode_spec(seq![break_byte()] + rest, depth) == Ok::<(SpecCbor, nat), ErrorKind>(
            (SpecCbor::Major7(Info::Indefinite, SimpleValue::Break), 1nat),
        ),
{
    let bytes = seq![break_byte()] + rest;
    assert(bytes[0] == 0xff);
    assert(0xffu8 / 32 == 7 && 0xffu8 % 32 == 31);
}

/// A run of items that ends in a terminator reads as the items, from the
/// index `from` on.
#[verifier::rlimit(30)]
pub proof fn lemma_stream_reads_back(
    list: Seq<SpecCbor>,
    from: nat,
    depth: nat,
    major: u8,
    rest: Seq<u8>,
)
    requires
        depth <= RECURSION_LIMIT,
        from <= list.len(),
        forall|i: int| from <= i < list.len() ==> streams(major, #[trigger] list[i], depth),
    ensures
        encode_items(list.skip(from as int), depth) matches Ok(bytes) && decode_list(
            bytes + seq![break_byte()] + rest,
            None,
            major,
            depth,
        ) == Ok::<(Seq<SpecCbor>, nat), ErrorKind>((list.skip(from as int), bytes.len() + 1)),
    decreases list.len() - from,
{
    let run = list.skip(from as int);
    let end = seq![break_byte()] + rest;
    if from < list.len() {
        lemma_stream_reads_back(list, from + 1, depth, major, rest);
        assert(run.drop_first() =~= list.skip(from as int + 1));
        let tail = encode_items(run.drop_first(), depth)->Ok_0;
        assert(run[0] == list[from as int]);
        lemma_reads_back_at(run[0], depth, tail + end);
        let first = encode_spec(run[0], depth)->Ok_0;
        let bytes = first + tail;
        assert(bytes + seq![break_byte()] + rest =~= first + (tail + end));
        assert((first + (tail + end)).skip(first.len() as int) =~= tail + end);
        assert(tail + end =~= tail + seq![break_byte()] + rest);
        assert(seq![run[0]] + run.drop_first() =~= run);
    } else {
        assert(run =~= Seq::<SpecCbor>::empty());
        assert(Seq::<u8>::empty() + seq![break_byte()] + rest =~= end);
        lemma_break_reads(depth, rest);
    }
}

/// A pair before a run of pairs that reads to its end reads with it.
#[verifier::rlimit(30)]
pub proof fn lemma_pair_stream_step(
    run: Seq<(SpecKey, SpecCbor)>,
    depth: nat,
    first: Seq<u8>,
    second: Seq<u8>,
    after: Seq<u8>,
    used: nat,
)
    requires
        run.len() > 0,
        first.len() >= 1,
        second.len() >= 1,
        !run[0].1.is_break(),
        run[0].0.to_cbor() matches Ok(node) && node.to_key() == Ok::<SpecKey, ErrorKind>(
            run[0].0,
        ) && decode_spec(first + (second + after), depth) == Ok::<(SpecCbor, nat), ErrorKind>(
            (node, first.len()),
        ),
        decode_spec(second + after, depth) == Ok::<(SpecCbor, nat), ErrorKind>(
            (run[0].1, second.len()),
        ),
        decode_pairs(after, None, depth) == Ok::<(Seq<(SpecKey, SpecCbor)>, nat), ErrorKind>(
            (run.drop_first(), used),
        ),
    ensures
        decode_pairs(first + (second + after), None, depth) == Ok::<
            (Seq<(SpecKey, SpecCbor)>, nat),
            ErrorKind,
        >((run, first.len() + second.len() + used)),
{
    let all = first + (second + after);
    assert(all.skip(first.len() as int) =~= second + after);
    assert(all.skip((first.len() + second.len()) as int) =~= after);
    assert(seq![run[0]] + run.drop_first() =~= run);
}

/// An item in key position before a terminator in value position ends a run
/// of pairs.
#[verifier::rlimit(30)]
pub proof fn lemma_pair_stream_end(depth: nat, stray: SpecCbor, rest: Seq<u8>)
    requires
        depth <= RECURSION_LIMIT,
        reads_back(stray, depth),
    ensures
        encode_spec(stray, depth) matches Ok(last) && decode_pairs(
            last + (seq![break_byte()] + rest),
            None,
            depth,
        ) == Ok::<(Seq<(SpecKey, SpecCbor)>, nat), ErrorKind>((Seq::empty(), last.len() + 1)),
{
    let end = seq![break_byte()] + rest;
    lemma_reads_back_at(stray, depth, end);
    let last = encode_spec(stray, depth)->Ok_0;
    assert((last + end).skip(last.len() as int) =~= end);
    lemma_break_reads(depth, rest);
}

/// A run of pairs that ends in some item and a terminator reads as the
/// pairs, from the index `from` on; the item before the terminator is read
/// and left out.
pub proof fn lemma_pair_stream_reads_back(
    map: Seq<(SpecKey, SpecCbor)>,
    from: nat,
    depth: nat,
    stray: SpecCbor,
    rest: Seq<u8>,
)
    requires
        depth <= RECURSION_LIMIT,
        from <= map.len(),
        reads_back(stray, depth),
        forall|i: int|
            from <= i < map.len() ==> key_reads_back((#[trigger] map[i]).0, depth) && streams(
                5,
                map[i].1,
                depth,
            ),
    ensures
        encode_pairs(map.skip(from as int), depth) matches Ok(bytes) && encode_spec(stray, depth)
            matches Ok(last) && decode_pairs(
            bytes + (last + (seq![break_byte()] + rest)),
            None,
            depth,
        ) == Ok::<(Seq<(SpecKey, SpecCbor)>, nat), ErrorKind>(
            (map.skip(from as int), bytes.len() + last.len() + 1),
        ),
    decreases map.len() - from,
{
    let run = map.skip(from as int);
    lemma_pair_stream_end(depth, stray, rest);
    let last = encode_spec(stray, depth)->Ok_0;
    let end = last + (seq![break_byte()] + rest);
    if from < map.len() {
        lemma_pair_stream_reads_back(map, from + 1, depth, stray, rest);
        assert(run.drop_first() =~= map.skip(from as int + 1));
        let tail = encode_pairs(run.drop_first(), depth)->Ok_0;
        assert(run[0] == map[from as int]);
        let key = run[0].0;
        let val = run[0].1;
        let after = tail + end;
        lemma_key_node_reads_back(key, depth);
        let node = key.to_cbor()->Ok_0;
        lemma_reads_back_at(val, depth, after);
        let second = encode_spec(val, depth)->Ok_0;
        lemma_reads_back_at(node, depth, second + after);
        let first = encode_spec(node, depth)->Ok_0;
        assert(encode_pair(key, val, depth) == Ok::<Seq<u8>, ErrorKind>(first + second));
        lemma_pair_stream_step(run, depth, first, second, after, tail.len() + last.len() + 1);
        assert(first + second + tail + end =~= first + (second + after));
    } else {
        assert(run =~= Seq::<(SpecKey, SpecCbor)>::empty());
        assert(Seq::<u8>::empty() + end =~= end);
    }
}

/// Streamed strings: a byte string (major type 2) or text (major type 3)
/// written as a stream of chunks reads as the string that the chunks spell
/// together, under the indefinite descriptor.
#[verifier::rlimit(30)]
pub proof fn lemma_streamed_string(major: u8, chunks: Seq<SpecCbor>, depth: nat, rest: Seq<u8>)
    requires
        major == 2 || major == 3,
        depth < RECURSION_LIMIT,
        forall|i: int| 0 <= i < chunks.len() ==> streams(major, #[trigger] chunks[i], depth + 1),
    ensures
        encode_items(chunks, depth + 1) matches Ok(body) && decode_spec(
            seq![stream_byte(major)] + body + seq![break_byte()] + rest,
            depth,
        ) == Ok::<(SpecCbor, nat), ErrorKind>(
            (
                if major == 2 {
                    SpecCbor::Major2(Info::Indefinite, concat_chunks(chunks))
                } else {
                    SpecCbor::Major3(Info::Indefinite, concat_chunks(chunks))
                },
                body.len() + 2,
            ),
        ),
{
    lemma_stream_reads_back(chunks, 0, depth + 1, major, rest);
    assert(chunks.skip(0) =~= chunks);
    let body = encode_items(chunks, depth + 1)->Ok_0;
    let all = seq![stream_byte(major)] + body + seq![break_byte()] + rest;
    assert(all[0] == stream_byte(major));
    assert(stream_byte(major) / 32 == major && stream_byte(major) % 32 == 31);
    assert(all.skip(1) =~= body + seq![break_byte()] + rest);
}

/// Streamed arrays: an array written as a stream of items reads as the array
/// of those items, under the indefinite descriptor.
#[verifier::rlimit(30)]
pub proof fn lemma_streamed_array(list: Seq<SpecCbor>, depth: nat, rest: Seq<u8>)
    requires
        depth < RECURSION_LIMIT,
        forall|i: int| 0 <= i < list.len() ==> streams(4, #[trigger] list[i], depth + 1),
    ensures
        encode_items(list, depth + 1) matches Ok(body) && decode_spec(
            seq![stream_byte(4)] + body + seq![break_byte()] + rest,
            depth,
        ) == Ok::<(SpecCbor, nat), ErrorKind>(
            (SpecCbor::Major4(Info::Indefinite, list), body.len() + 2),
        ),
{
    lemma_stream_reads_back(list, 0, depth + 1, 4, rest);
    assert(list.skip(0) =~= list);
    let body = encode_items(list, depth + 1)->Ok_0;
    let all = seq![stream_byte(4)] + body + seq![break_byte()] + rest;
    assert(all[0] == stream_byte(4));
    assert(all.skip(1) =~= body + seq![break_byte()] + rest);
    assert(all.skip(1).skip(0) =~= all.skip(1));
}

/// Streamed maps: a map written as a stream of pairs, closed by some item in
/// key position and a terminator in value position, reads as the map of
/// those pairs, under the indefinite descriptor.
#[verifier::rlimit(30)]
pub proof fn lemma_streamed_map(
    map: Seq<(SpecKey, SpecCbor)>,
    depth: nat,
    stray: SpecCbor,
    rest: Seq<u8>,
)
    requires
        depth < RECURSION_LIMIT,
        reads_back(stray, depth + 1),
        forall|i: int|
            0 <= i < map.len() ==> key_reads_back((#[trigger] map[i]).0, depth + 1) && streams(
                5,
                map[i].1,
                depth + 1,
            ),
    ensures
        encode_pairs(map, depth + 1) matches Ok(body) && encode_spec(stray, depth + 1) matches Ok(
            last,
        ) && decode_spec(
            seq![stream_byte(5)] + body + last + seq![break_byte()] + rest,
            depth,
        ) == Ok::<(SpecCbor, nat), ErrorKind>(
            (SpecCbor::Major5(Info::Indefinite, map), body.len() + last.len() + 2),
        ),
{
    lemma_pair_stream_reads_back(map, 0, depth + 1, stray, rest);
    assert(map.skip(0) =~= map);
    let body = encode_pairs(map, depth + 1)->Ok_0;
    let last = encode_spec(stray, depth + 1)->Ok_0;
    let all = seq![stream_byte(5)] + body + last + seq![break_byte()] + rest;
    assert(all[0] == stream_byte(5));
    assert(all.skip(1) =~= body + (last + (seq![break_byte()] + rest)));
    assert(all.skip(1).skip(0) =~= all.skip(1));
}

} // verus!
