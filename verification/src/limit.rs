//! The limit on nesting.

use crate::decode::{decode_counted, decode_list, decode_spec};
use crate::encode::{encode_items, encode_spec};
use crate::error::ErrorKind;
use crate::header::{hdr_spec, Info};
use crate::tree::{SpecCbor, RECURSION_LIMIT};
use vstd::prelude::*;

verus! {

/// An empty array inside `levels` arrays of one element each.
pub open spec fn nested_arrays(levels: nat) -> SpecCbor
    decreases levels,
{
    if levels == 0 {
        SpecCbor::Major4(Info::Tiny(0), Seq::empty())
    } else {
        SpecCbor::Major4(Info::Tiny(1), seq![nested_arrays((levels - 1) as nat)])
    }
}

/// The bytes of an empty array inside `levels` arrays of one element each.
pub open spec fn nested_bytes(levels: nat) -> Seq<u8>
    decreases levels,
{
    if levels == 0 {
        seq![0x80u8]
    } else {
        seq![0x81u8] + nested_bytes((levels - 1) as nat)
    }
}

/// Recursion guard: arrays nested beyond the limit are neither written nor
/// read; both fail with `FailCbor`. At the root, 1000 arrays around an array
/// are one too many.
#[verifier::rlimit(30)]
pub proof fn lemma_nesting_limit(levels: nat, depth: nat, rest: Seq<u8>)
    requires
        depth + levels > RECURSION_LIMIT,
    ensures
        encode_spec(nested_arrays(levels), depth) == Err::<Seq<u8>, ErrorKind>(ErrorKind::FailCbor),
        decode_spec(nested_bytes(levels) + rest, depth) == Err::<(SpecCbor, nat), ErrorKind>(
            ErrorKind::FailCbor,
        ),
    decreases levels,
{
    if depth <= RECURSION_LIMIT {
        let inner = nested_arrays((levels - 1) as nat);
        let tail = nested_bytes((levels - 1) as nat) + rest;
        lemma_nesting_limit((levels - 1) as nat, depth + 1, rest);
        let list = seq![inner];
        assert(list[0] == inner);
        assert(hdr_spec(4, Info::Tiny(1)) == Some(0x81u8));
        assert(encode_items(list, depth + 1) == Err::<Seq<u8>, ErrorKind>(ErrorKind::FailCbor));
        let bytes = nested_bytes(levels) + rest;
        assert(bytes =~= seq![0x81u8] + tail);
        assert(bytes[0] == 0x81u8);
        assert(0x81u8 / 32 == 4 && 0x81u8 % 32 == 1);
        assert(bytes.skip(1) =~= tail);
        assert(tail.skip(0) =~= tail);
        assert(decode_counted(Info::Tiny(1), tail) == Ok::<(Option<nat>, nat), ErrorKind>(
            (Some(1nat), 0nat),
        ));
        assert(decode_list(tail, Some(1nat), 4, depth + 1) == Err::<
            (Seq<SpecCbor>, nat),
            ErrorKind,
        >(ErrorKind::FailCbor));
    }
}

} // verus!
