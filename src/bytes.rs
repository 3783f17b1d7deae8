//! Little-endian byte strings read as natural numbers.
use vstd::prelude::*;

verus! {

/// The natural number that the bytes `s` encode, least significant byte first.
pub open spec fn le_nat(s: Seq<u8>) -> nat
    decreases s.len(),
{
    if s.len() == 0 {
        0
    } else {
        s[0] as nat + 256 * le_nat(s.drop_first())
    }
}

proof fn lemma_byte_split(x: int, y: int)
    requires
        0 <= x < 256,
        0 <= y,
    ensures
        (x + 256 * y) % 256 == x,
        (x + 256 * y) / 256 == y,
{
    assert((x + 256 * y) % 256 == x) by (nonlinear_arith)
        requires 0 <= x < 256, 0 <= y;
    assert((x + 256 * y) / 256 == y) by (nonlinear_arith)
        requires 0 <= x < 256, 0 <= y;
}

/// Two byte strings of one length that encode the same number are equal.
pub proof fn lemma_le_nat_injective(a: Seq<u8>, b: Seq<u8>)
    requires
        a.len() == b.len(),
        le_nat(a) == le_nat(b),
    ensures
        a == b,
    decreases a.len(),
{
    if a.len() > 0 {
        lemma_byte_split(a[0] as int, le_nat(a.drop_first()) as int);
        lemma_byte_split(b[0] as int, le_nat(b.drop_first()) as int);
        lemma_le_nat_injective(a.drop_first(), b.drop_first());
        assert(a =~= seq![a[0]] + a.drop_first());
        assert(b =~= seq![b[0]] + b.drop_first());
    } else {
        assert(a =~= b);
    }
}

/// Bytes that are all zero encode zero.
pub proof fn lemma_le_nat_zeros(s: Seq<u8>)
    requires
        forall|i: int| 0 <= i < s.len() ==> s[i] == 0,
    ensures
        le_nat(s) == 0,
    decreases s.len(),
{
    if s.len() > 0 {
        lemma_le_nat_zeros(s.drop_first());
    }
}

/// The bytes of `b` as an array of its length.
pub fn to_array<const N: usize>(b: &[u8]) -> (r: [u8; N])
    requires
        b@.len() == N,
    ensures
        r@ == b@,
{
    let mut a = [0u8; N];
    let mut i: usize = 0;
    while i < N
        invariant
            0 <= i <= N,
            b@.len() == N,
            a@.len() == N,
            forall|j: int| 0 <= j < i ==> a@[j] == b@[j],
        decreases N - i,
    {
        a[i] = b[i];
        i += 1;
    }
    assert(a@ =~= b@);
    a
}

} // verus!
