//! Big-endian byte strings as numbers.

use vstd::prelude::*;

verus! {

/// The number that `bytes` spell in base 256, most significant byte first.
pub open spec fn be_value(bytes: Seq<u8>) -> nat
    decreases bytes.len(),
{
    if bytes.len() == 0 {
        0
    } else {
        be_value(bytes.drop_last()) * 256 + bytes.last() as nat
    }
}

/// The `width` low base-256 digits of `n`, most significant first.
pub open spec fn be_bytes(n: nat, width: nat) -> Seq<u8>
    decreases width,
{
    if width == 0 {
        Seq::empty()
    } else {
        be_bytes(n / 256, (width - 1) as nat).push((n % 256) as u8)
    }
}

/// 256 to the power `k`.
pub open spec fn pow256(k: nat) -> nat
    decreases k,
{
    if k == 0 {
        1
    } else {
        256 * pow256((k - 1) as nat)
    }
}

/// `be_bytes` yields exactly `width` bytes.
pub proof fn lemma_be_bytes_len(n: nat, width: nat)
    ensures
        be_bytes(n, width).len() == width,
    decreases width,
{
    if width > 0 {
        lemma_be_bytes_len(n / 256, (width - 1) as nat);
    }
}

/// A byte string of length `k` spells a number below `256^k`.
pub proof fn lemma_be_value_bound(bytes: Seq<u8>)
    ensures
        be_value(bytes) < pow256(bytes.len()),
    decreases bytes.len(),
{
    if bytes.len() > 0 {
        lemma_be_value_bound(bytes.drop_last());
        let hi = be_value(bytes.drop_last());
        let p = pow256((bytes.len() - 1) as nat);
        assert(hi * 256 + 255 < 256 * p) by (nonlinear_arith)
            requires
                hi < p,
        ;
    }
}

/// Reading back the digits of `n` gives `n` again, when `n` fits in `width` digits.
pub proof fn lemma_be_value_of_bytes(n: nat, width: nat)
    requires
        n < pow256(width),
    ensures
        be_value(be_bytes(n, width)) == n,
    decreases width,
{
    if width > 0 {
        let p = pow256((width - 1) as nat);
        assert(n / 256 < p) by (nonlinear_arith)
            requires
                n < 256 * p,
        ;
        lemma_be_value_of_bytes(n / 256, (width - 1) as nat);
        let s = be_bytes(n, width);
        assert(s.drop_last() =~= be_bytes(n / 256, (width - 1) as nat));
    }
}

/// The powers of 256 grow with the exponent.
pub proof fn lemma_pow256_mono(a: nat, b: nat)
    requires
        a <= b,
    ensures
        pow256(a) <= pow256(b),
    decreases b,
{
    if a < b {
        lemma_pow256_mono(a, (b - 1) as nat);
    }
}

/// The powers of 256 that bound the fixed-width integers.
pub proof fn lemma_pow256_values()
    ensures
        pow256(0) == 1,
        pow256(1) == 0x100,
        pow256(2) == 0x1_0000,
        pow256(4) == 0x1_0000_0000,
        pow256(6) == 0x1_0000_0000_0000,
        pow256(7) == 0x100_0000_0000_0000,
        pow256(8) == 0x1_0000_0000_0000_0000,
        pow256(16) == 0x1_0000_0000_0000_0000_0000_0000_0000_0000,
{
    reveal_with_fuel(pow256, 17);
}

/// How two byte strings compare, as a sign: by their first differing byte, a
/// proper prefix before the longer string. Negative where `a` sorts first,
/// zero where the two are the same, positive where `b` sorts first.
pub open spec fn lex_sign(a: Seq<u8>, b: Seq<u8>) -> int
    decreases a.len(),
{
    if a.len() == 0 {
        if b.len() == 0 {
            0
        } else {
            -1
        }
    } else if b.len() == 0 {
        1
    } else if a[0] < b[0] {
        -1
    } else if a[0] > b[0] {
        1
    } else {
        lex_sign(a.drop_first(), b.drop_first())
    }
}

/// Two byte strings compare as the same exactly when they are the same.
pub proof fn lemma_lex_sign_same(a: Seq<u8>, b: Seq<u8>)
    ensures
        lex_sign(a, b) == 0 <==> a == b,
        -1 <= lex_sign(a, b) <= 1,
    decreases a.len(),
{
    if a.len() > 0 && b.len() > 0 {
        lemma_lex_sign_same(a.drop_first(), b.drop_first());
        if a[0] == b[0] && a.drop_first() == b.drop_first() {
            assert(a =~= seq![a[0]] + a.drop_first());
            assert(b =~= seq![b[0]] + b.drop_first());
        }
    } else if a.len() == 0 && b.len() == 0 {
        assert(a =~= b);
    }
}

/// Swapping the two byte strings swaps the sign.
pub proof fn lemma_lex_sign_mirror(a: Seq<u8>, b: Seq<u8>)
    ensures
        lex_sign(b, a) == -lex_sign(a, b),
    decreases a.len(),
{
    if a.len() > 0 && b.len() > 0 {
        lemma_lex_sign_mirror(a.drop_first(), b.drop_first());
    }
}

/// If `a` sorts no later than `b` and `b` no later than `c`, then `a` sorts
/// no later than `c`, and before it if one of the two steps is strict.
pub proof fn lemma_lex_sign_chain(a: Seq<u8>, b: Seq<u8>, c: Seq<u8>)
    requires
        lex_sign(a, b) <= 0,
        lex_sign(b, c) <= 0,
    ensures
        lex_sign(a, c) <= 0,
        lex_sign(a, b) < 0 || lex_sign(b, c) < 0 ==> lex_sign(a, c) < 0,
    decreases a.len(),
{
    if a.len() > 0 && b.len() > 0 && c.len() > 0 {
        if a[0] == b[0] && b[0] == c[0] {
            lemma_lex_sign_chain(a.drop_first(), b.drop_first(), c.drop_first());
        }
    }
}

/// Compare two byte strings, first differing byte first.
pub fn compare_bytes(a: &[u8], b: &[u8]) -> (res: i8)
    ensures
        res == lex_sign(a@, b@),
{
    let mut i: usize = 0;
    assert(a@.skip(0) =~= a@ && b@.skip(0) =~= b@);
    while i < a.len() && i < b.len()
        invariant
            i <= a@.len(),
            i <= b@.len(),
            lex_sign(a@, b@) == lex_sign(a@.skip(i as int), b@.skip(i as int)),
        decreases a@.len() - i,
    {
        let ghost sa = a@.skip(i as int);
        let ghost sb = b@.skip(i as int);
        proof {
            assert(sa[0] == a@[i as int]);
            assert(sb[0] == b@[i as int]);
            assert(sa.drop_first() =~= a@.skip(i + 1));
            assert(sb.drop_first() =~= b@.skip(i + 1));
        }
        if a[i] < b[i] {
            return -1;
        }
        if a[i] > b[i] {
            return 1;
        }
        i += 1;
    }
    if i < b.len() {
        -1
    } else if i < a.len() {
        1
    } else {
        0
    }
}

/// Append a byte string to a buffer.
pub fn append_bytes(w: &mut Vec<u8>, bytes: &[u8])
    ensures
        final(w)@ == old(w)@ + bytes@,
{
    let mut i: usize = 0;
    while i < bytes.len()
        invariant
            i <= bytes@.len(),
            w@ == old(w)@ + bytes@.take(i as int),
        decreases bytes@.len() - i,
    {
        w.push(bytes[i]);
        assert(bytes@.take(i + 1) =~= bytes@.take(i as int).push(bytes@[i as int]));
        i += 1;
    }
    assert(bytes@.take(i as int) =~= bytes@);
}

/// A byte string in memory is no longer than the machine can count.
pub proof fn lemma_len_fits(r: &[u8])
    ensures
        r@.len() <= usize::MAX,
{
    let n = vstd::slice::spec_slice_len(r);
    assert(n == r@.len());
}

/// A copy of a byte string.
pub fn copy_bytes(a: &[u8]) -> (res: Vec<u8>)
    ensures
        res@ == a@,
{
    vstd::slice::slice_to_vec(a)
}

/// Whether two byte strings are the same.
pub fn same_bytes(a: &[u8], b: &[u8]) -> (res: bool)
    ensures
        res == (a@ == b@),
{
    if a.len() != b.len() {
        return false;
    }
    let mut i: usize = 0;
    while i < a.len()
        invariant
            i <= a@.len(),
            a@.len() == b@.len(),
            forall|j: int| 0 <= j < i ==> a@[j] == b@[j],
        decreases a@.len() - i,
    {
        if a[i] != b[i] {
            return false;
        }
        i += 1;
    }
    assert(a@ =~= b@);
    true
}

} // verus!
