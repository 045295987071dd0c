//! Conversions of strings, sequences and optional values.

use crate::convert::{text_from_utf8, FromCbor, IntoCbor};
use crate::error::{Error, ErrorKind};
use crate::header::Info;
use crate::key::Key;
use crate::simple::SimpleValue;
use crate::tree::{
    lemma_view_major4, lemma_view_major5, list_view, map_view, Cbor, SpecCbor,
};
use std::sync::Arc;
use vstd::prelude::*;
use vstd::slice::slice_to_vec;
use vstd::string::StrSliceExecFns;
use vstd::utf8::{decode_utf8, encode_utf8, valid_utf8};

verus! {

/// The node of a text: major type 3, holding its UTF-8 form.
pub open spec fn text_node(text: Seq<char>) -> SpecCbor {
    SpecCbor::Major3(Info::minimal(encode_utf8(text).len() as u64), encode_utf8(text))
}

impl<'a> IntoCbor for &'a str {
    open spec fn cbor_spec(self) -> Result<SpecCbor, ErrorKind> {
        Ok(text_node(self@))
    }

    fn into_cbor(self) -> (res: Result<Cbor, Error>) {
        let text = self.as_bytes_vec();
        Ok(Cbor::Major3(Info::from_len(text.len()), text))
    }
}

impl IntoCbor for String {
    open spec fn cbor_spec(self) -> Result<SpecCbor, ErrorKind> {
        Ok(text_node(self@))
    }

    fn into_cbor(self) -> (res: Result<Cbor, Error>) {
        let text = self.as_str().as_bytes_vec();
        Ok(Cbor::Major3(Info::from_len(text.len()), text))
    }
}

impl FromCbor for String {
    open spec fn from_err(val: SpecCbor) -> Option<ErrorKind> {
        match val {
            SpecCbor::Major3(_, text) => if valid_utf8(text) {
                None
            } else {
                Some(ErrorKind::FailConvert)
            },
            _ => Some(ErrorKind::FailConvert),
        }
    }

    open spec fn from_ok(val: SpecCbor, out: String) -> bool {
        val matches SpecCbor::Major3(_, text) && out@ == decode_utf8(text)
    }

    fn from_cbor(val: Cbor) -> (res: Result<String, Error>) {
        match val {
            Cbor::Major3(_, text) => match text_from_utf8(text) {
                Some(out) => Ok(out),
                None => Err(Error::new(ErrorKind::FailConvert, "types", "text is not utf8")),
            },
            _ => Err(Error::new(ErrorKind::FailConvert, "types", "not utf8-string")),
        }
    }
}

impl<'a> IntoCbor for &'a [u8] {
    open spec fn cbor_spec(self) -> Result<SpecCbor, ErrorKind> {
        Ok(SpecCbor::Major2(Info::minimal(self@.len() as u64), self@))
    }

    fn into_cbor(self) -> (res: Result<Cbor, Error>) {
        let byts = slice_to_vec(self);
        Ok(Cbor::Major2(Info::from_len(byts.len()), byts))
    }
}

impl IntoCbor for Vec<Cbor> {
    open spec fn cbor_spec(self) -> Result<SpecCbor, ErrorKind> {
        Ok(SpecCbor::Major4(Info::minimal(self@.len() as u64), list_view(self@)))
    }

    fn into_cbor(self) -> (res: Result<Cbor, Error>) {
        let info = Info::from_len(self.len());
        proof {
            lemma_view_major4(info, self);
        }
        Ok(Cbor::Major4(info, self))
    }
}

impl FromCbor for Vec<Cbor> {
    open spec fn from_err(val: SpecCbor) -> Option<ErrorKind> {
        if val is Major4 {
            None
        } else {
            Some(ErrorKind::FailConvert)
        }
    }

    open spec fn from_ok(val: SpecCbor, out: Vec<Cbor>) -> bool {
        val matches SpecCbor::Major4(_, list) && list_view(out@) == list
    }

    fn from_cbor(val: Cbor) -> (res: Result<Vec<Cbor>, Error>) {
        match val {
            Cbor::Major4(info, data) => {
                proof {
                    lemma_view_major4(info, data);
                }
                Ok(data)
            },
            _ => Err(Error::new(ErrorKind::FailConvert, "types", "not a vector")),
        }
    }
}

impl IntoCbor for Vec<(Key, Cbor)> {
    open spec fn cbor_spec(self) -> Result<SpecCbor, ErrorKind> {
        Ok(SpecCbor::Major5(Info::minimal(self@.len() as u64), map_view(self@)))
    }

    fn into_cbor(self) -> (res: Result<Cbor, Error>) {
        let info = Info::from_len(self.len());
        proof {
            lemma_view_major5(info, self);
        }
        Ok(Cbor::Major5(info, self))
    }
}

impl FromCbor for Vec<(Key, Cbor)> {
    open spec fn from_err(val: SpecCbor) -> Option<ErrorKind> {
        if val is Major5 {
            None
        } else {
            Some(ErrorKind::FailConvert)
        }
    }

    open spec fn from_ok(val: SpecCbor, out: Vec<(Key, Cbor)>) -> bool {
        val matches SpecCbor::Major5(_, map) && map_view(out@) == map
    }

    fn from_cbor(val: Cbor) -> (res: Result<Vec<(Key, Cbor)>, Error>) {
        match val {
            Cbor::Major5(info, data) => {
                proof {
                    lemma_view_major5(info, data);
                }
                Ok(data)
            },
            _ => Err(Error::new(ErrorKind::FailConvert, "types", "not a map")),
        }
    }
}

/// Whether `i` is the least index at which `results` holds a failure.
pub open spec fn is_first_failure<T>(results: Seq<Result<T, ErrorKind>>, i: int) -> bool {
    &&& 0 <= i < results.len()
    &&& results[i] is Err
    &&& forall|j: int| 0 <= j < i ==> results[j] is Ok
}

/// The failure that `results` holds at the least index; none where it holds
/// no failure.
pub open spec fn first_failure<T>(results: Seq<Result<T, ErrorKind>>) -> Option<ErrorKind> {
    if exists|i: int| is_first_failure(results, i) {
        Some(results[choose|i: int| is_first_failure(results, i)]->Err_0)
    } else {
        None
    }
}

/// The failure at the least index is the first failure.
pub proof fn lemma_first_failure<T>(results: Seq<Result<T, ErrorKind>>, i: int)
    requires
        is_first_failure(results, i),
    ensures
        first_failure(results) == Some(results[i]->Err_0),
{
    let c = choose|k: int| is_first_failure(results, k);
    assert(c == i);
}

/// Where no index holds a failure, there is no first failure.
pub proof fn lemma_no_failure<T>(results: Seq<Result<T, ErrorKind>>)
    requires
        forall|j: int| 0 <= j < results.len() ==> results[j] is Ok,
    ensures
        first_failure(results) is None,
{
}

/// The conversions of the elements of a sequence, element by element.
pub open spec fn element_nodes<T: IntoCbor>(items: Seq<T>) -> Seq<Result<SpecCbor, ErrorKind>> {
    Seq::new(items.len(), |i: int| items[i].cbor_spec())
}

impl<T: IntoCbor> IntoCbor for Vec<T> {
    /// An array of the nodes of the elements, or the first failure among
    /// their conversions.
    open spec fn cbor_spec(self) -> Result<SpecCbor, ErrorKind> {
        let nodes = element_nodes(self@);
        match first_failure(nodes) {
            Some(kind) => Err(kind),
            None => Ok(
                SpecCbor::Major4(
                    Info::minimal(self@.len() as u64),
                    Seq::new(nodes.len(), |i: int| nodes[i]->Ok_0),
                ),
            ),
        }
    }

    fn into_cbor(self) -> (res: Result<Cbor, Error>) {
        let info = Info::from_len(self.len());
        let ghost items = self@;
        let ghost nodes = element_nodes(self@);
        let mut arr: Vec<Cbor> = Vec::new();
        for item in it: self.into_iter()
            invariant
                arr@.len() == it.index(),
                it.seq() == items,
                nodes == element_nodes(items),
                forall|j: int| 0 <= j < arr@.len() ==> nodes[j] == Ok::<SpecCbor, ErrorKind>(arr@[j]@),
        {
            match item.into_cbor() {
                Ok(node) => {
                    arr.push(node);
                },
                Err(e) => {
                    proof {
                        lemma_first_failure(nodes, arr@.len() as int);
                    }
                    return Err(e);
                },
            }
        }
        proof {
            lemma_no_failure(nodes);
            lemma_view_major4(info, arr);
            assert(list_view(arr@) =~= Seq::new(nodes.len(), |i: int| nodes[i]->Ok_0));
        }
        Ok(Cbor::Major4(info, arr))
    }
}

/// The outcomes of converting the elements of an array node, element by
/// element.
pub open spec fn element_outcomes<T: FromCbor>(list: Seq<SpecCbor>) -> Seq<Result<(), ErrorKind>> {
    Seq::new(
        list.len(),
        |i: int|
            match T::from_err(list[i]) {
                Some(kind) => Err(kind),
                None => Ok(()),
            },
    )
}

/// Whether `out` holds, element by element, the values that the nodes of
/// `list` convert to.
pub open spec fn elements_from<T: FromCbor>(list: Seq<SpecCbor>, out: Seq<T>) -> bool {
    &&& out.len() == list.len()
    &&& forall|i: int| 0 <= i < list.len() ==> T::from_ok(list[i], #[trigger] out[i])
}

/// Convert the elements of an array node, first to last.
fn elements_of<T: FromCbor>(data: Vec<Cbor>) -> (res: Result<Vec<T>, Error>)
    ensures
        match res {
            Ok(out) => first_failure(element_outcomes::<T>(list_view(data@))) is None
                && elements_from(list_view(data@), out@),
            Err(e) => first_failure(element_outcomes::<T>(list_view(data@))) == Some(e.kind()),
        },
{
    let ghost list = list_view(data@);
    let ghost outcomes = element_outcomes::<T>(list);
    let mut arr: Vec<T> = Vec::new();
    for item in it: data.into_iter()
        invariant
            arr@.len() == it.index(),
            list == list_view(it.seq()),
            outcomes == element_outcomes::<T>(list),
            forall|j: int| 0 <= j < arr@.len() ==> (#[trigger] outcomes[j]) is Ok,
            forall|j: int| 0 <= j < arr@.len() ==> T::from_ok(list[j], #[trigger] arr@[j]),
    {
        assert(item@ == list[arr@.len() as int]);
        match T::from_cbor(item) {
            Ok(out) => {
                arr.push(out);
            },
            Err(e) => {
                proof {
                    lemma_first_failure(outcomes, arr@.len() as int);
                }
                return Err(e);
            },
        }
    }
    proof {
        lemma_no_failure(outcomes);
    }
    Ok(arr)
}

impl<T: FromCbor + Sized> FromCbor for Vec<T> {
    /// `FailConvert` for a node that is no array, else the first failure
    /// among the conversions of its elements.
    open spec fn from_err(val: SpecCbor) -> Option<ErrorKind> {
        match val {
            SpecCbor::Major4(_, list) => first_failure(element_outcomes::<T>(list)),
            _ => Some(ErrorKind::FailConvert),
        }
    }

    open spec fn from_ok(val: SpecCbor, out: Vec<T>) -> bool {
        val matches SpecCbor::Major4(_, list) && elements_from(list, out@)
    }

    fn from_cbor(val: Cbor) -> (res: Result<Vec<T>, Error>) {
        match val {
            Cbor::Major4(info, data) => {
                proof {
                    lemma_view_major4(info, data);
                }
                elements_of(data)
            },
            _ => Err(Error::new(ErrorKind::FailConvert, "types", "not a vector")),
        }
    }
}

/// The elements of an array, moved into a vector.
///
/// Calls `Vec::from` on an array. The contract claims that the vector holds
/// the elements of the array in their order.
#[verifier::external_body]
fn vec_from_array<T, const N: usize>(arr: [T; N]) -> (out: Vec<T>)
    ensures
        out@ == arr@,
{
    Vec::from(arr)
}

impl<T, const N: usize> IntoCbor for [T; N] where T: Clone + IntoCbor {
    /// An array of the nodes of the elements, or the first failure among
    /// their conversions.
    open spec fn cbor_spec(self) -> Result<SpecCbor, ErrorKind> {
        let nodes = element_nodes(self@);
        match first_failure(nodes) {
            Some(kind) => Err(kind),
            None => Ok(
                SpecCbor::Major4(
                    Info::minimal(self@.len() as u64),
                    Seq::new(nodes.len(), |i: int| nodes[i]->Ok_0),
                ),
            ),
        }
    }

    fn into_cbor(self) -> (res: Result<Cbor, Error>) {
        vec_from_array(self).into_cbor()
    }
}

impl<T, const N: usize> FromCbor for [T; N] where T: Copy + Default + FromCbor {
    /// `FailConvert` for a node that is no array and for an array of another
    /// length than `N`, else the first failure among the conversions of its
    /// elements.
    open spec fn from_err(val: SpecCbor) -> Option<ErrorKind> {
        match val {
            SpecCbor::Major4(_, list) => if list.len() == N {
                first_failure(element_outcomes::<T>(list))
            } else {
                Some(ErrorKind::FailConvert)
            },
            _ => Some(ErrorKind::FailConvert),
        }
    }

    open spec fn from_ok(val: SpecCbor, out: [T; N]) -> bool {
        val matches SpecCbor::Major4(_, list) && elements_from(list, out@)
    }

    fn from_cbor(val: Cbor) -> (res: Result<[T; N], Error>) {
        match val {
            Cbor::Major4(info, data) => {
                proof {
                    lemma_view_major4(info, data);
                }
                if data.len() != N {
                    return Err(Error::new(ErrorKind::FailConvert, "types", "different array arity"));
                }
                let ghost list = list_view(data@);
                let items: Vec<T> = elements_of(data)?;
                let mut arr: [T; N] = [T::default();N];
                let mut i: usize = 0;
                while i < N
                    invariant
                        i <= N,
                        items@.len() == N,
                        forall|j: int| 0 <= j < i ==> arr@[j] == items@[j],
                    decreases N - i,
                {
                    arr[i] = items[i];
                    i += 1;
                }
                assert(arr@ =~= items@);
                Ok(arr)
            },
            _ => Err(Error::new(ErrorKind::FailConvert, "types", "not a list")),
        }
    }
}

impl<T: IntoCbor> IntoCbor for Option<T> {
    /// The node of the value inside; null for none.
    open spec fn cbor_spec(self) -> Result<SpecCbor, ErrorKind> {
        match self {
            Some(val) => val.cbor_spec(),
            None => SimpleValue::Null.to_cbor(),
        }
    }

    fn into_cbor(self) -> (res: Result<Cbor, Error>) {
        match self {
            Some(val) => val.into_cbor(),
            None => SimpleValue::Null.into_cbor(),
        }
    }
}

/// Whether a node is null.
pub open spec fn is_null(val: SpecCbor) -> bool {
    val matches SpecCbor::Major7(_, SimpleValue::Null)
}

impl<T: FromCbor + Sized> FromCbor for Option<T> {
    open spec fn from_err(val: SpecCbor) -> Option<ErrorKind> {
        if is_null(val) {
            None
        } else {
            T::from_err(val)
        }
    }

    /// None for null, else the value that the node converts to.
    open spec fn from_ok(val: SpecCbor, out: Option<T>) -> bool {
        if is_null(val) {
            out is None
        } else {
            out matches Some(inner) && T::from_ok(val, inner)
        }
    }

    fn from_cbor(val: Cbor) -> (res: Result<Option<T>, Error>) {
        match val {
            Cbor::Major7(_, SimpleValue::Null) => Ok(None),
            val => {
                let inner = T::from_cbor(val)?;
                Ok(Some(inner))
            },
        }
    }
}

impl<T: FromCbor> FromCbor for Arc<T> {
    open spec fn from_err(val: SpecCbor) -> Option<ErrorKind> {
        T::from_err(val)
    }

    /// A freshly allocated shared wrapper of the value that the node
    /// converts to.
    open spec fn from_ok(val: SpecCbor, out: Arc<T>) -> bool {
        T::from_ok(val, *out)
    }

    fn from_cbor(val: Cbor) -> (res: Result<Arc<T>, Error>) {
        let inner = T::from_cbor(val)?;
        Ok(Arc::new(inner))
    }
}

} // verus!
