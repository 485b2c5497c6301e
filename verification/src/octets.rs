//! Byte strings: equality, the lexicographic order, bytewise XOR, and the
//! bytes of a number in either byte order.

use vstd::prelude::*;

verus! {

/// The eight bytes of `value`, most significant first.
pub open spec fn be_bytes(value: u64) -> Seq<u8> {
    seq![
        (value >> 56) as u8,
        (value >> 48) as u8,
        (value >> 40) as u8,
        (value >> 32) as u8,
        (value >> 24) as u8,
        (value >> 16) as u8,
        (value >> 8) as u8,
        value as u8,
    ]
}

/// The eight bytes of `value`, least significant first.
pub open spec fn le_bytes(value: u64) -> Seq<u8> {
    seq![
        value as u8,
        (value >> 8) as u8,
        (value >> 16) as u8,
        (value >> 24) as u8,
        (value >> 32) as u8,
        (value >> 40) as u8,
        (value >> 48) as u8,
        (value >> 56) as u8,
    ]
}

/// Whether `bytes` are the eight bytes of `value` in one of the two byte
/// orders.
pub open spec fn in_a_byte_order(value: u64, bytes: Seq<u8>) -> bool {
    bytes == le_bytes(value) || bytes == be_bytes(value)
}

/// Whether `a` comes before `b` in the lexicographic order of byte strings.
pub open spec fn lex_less(a: Seq<u8>, b: Seq<u8>) -> bool
    decreases a.len(),
{
    if b.len() == 0 {
        false
    } else if a.len() == 0 {
        true
    } else if a[0] != b[0] {
        a[0] < b[0]
    } else {
        lex_less(a.drop_first(), b.drop_first())
    }
}

/// Bytewise XOR of the first `n` bytes of two strings.
pub open spec fn xor_seq(n: nat, a: Seq<u8>, b: Seq<u8>) -> Seq<u8> {
    Seq::new(n, |i: int| a[i] ^ b[i])
}

/// The string of `n` zero bytes.
pub open spec fn zeros(n: nat) -> Seq<u8> {
    Seq::new(n, |i: int| 0u8)
}

/// No byte string comes before itself.
pub proof fn lemma_lex_irreflexive(a: Seq<u8>)
    ensures
        !lex_less(a, a),
    decreases a.len(),
{
    if a.len() > 0 {
        lemma_lex_irreflexive(a.drop_first());
    }
}

/// Of two different strings of one length, one comes before the other.
pub proof fn lemma_lex_total(a: Seq<u8>, b: Seq<u8>)
    requires
        a.len() == b.len(),
        a != b,
    ensures
        lex_less(a, b) || lex_less(b, a),
    decreases a.len(),
{
    if a.len() == 0 {
        assert(a =~= b);
    } else if a[0] == b[0] {
        if a.drop_first() == b.drop_first() {
            assert(a =~= seq![a[0]] + a.drop_first());
            assert(b =~= seq![b[0]] + b.drop_first());
        } else {
            lemma_lex_total(a.drop_first(), b.drop_first());
        }
    }
}

/// The lexicographic order has no two strings that precede each other.
pub proof fn lemma_lex_asymmetric(a: Seq<u8>, b: Seq<u8>)
    requires
        lex_less(a, b),
    ensures
        !lex_less(b, a),
    decreases a.len(),
{
    if a.len() > 0 && b.len() > 0 && a[0] == b[0] {
        lemma_lex_asymmetric(a.drop_first(), b.drop_first());
    }
}

/// The lexicographic order is transitive.
pub proof fn lemma_lex_transitive(a: Seq<u8>, b: Seq<u8>, c: Seq<u8>)
    requires
        lex_less(a, b),
        lex_less(b, c),
    ensures
        lex_less(a, c),
    decreases a.len(),
{
    if a.len() > 0 && b.len() > 0 && c.len() > 0 && a[0] == b[0] && b[0] == c[0] {
        lemma_lex_transitive(a.drop_first(), b.drop_first(), c.drop_first());
    }
}

/// XOR does not depend on the order of its operands.
pub proof fn lemma_xor_commutes(n: nat, a: Seq<u8>, b: Seq<u8>)
    ensures
        xor_seq(n, a, b) == xor_seq(n, b, a),
{
    assert forall|i: int| 0 <= i < n implies a[i] ^ b[i] == b[i] ^ a[i] by {
        let x = a[i];
        let y = b[i];
        assert(x ^ y == y ^ x) by (bit_vector);
    }
}

/// A string XORed with itself is all zero.
pub proof fn lemma_xor_self(n: nat, a: Seq<u8>)
    ensures
        xor_seq(n, a, a) == zeros(n),
{
    assert forall|i: int| 0 <= i < n implies a[i] ^ a[i] == 0u8 by {
        let x = a[i];
        assert(x ^ x == 0u8) by (bit_vector);
    }
}

/// Compares two byte arrays of one length for equality.
pub fn array_eq<const N: usize>(a: &[u8; N], b: &[u8; N]) -> (same: bool)
    ensures
        same == (a@ == b@),
        same == (*a == *b),
{
    let mut i: usize = 0;
    while i < N
        invariant
            i <= N,
            forall|j: int| 0 <= j < i ==> a@[j] == b@[j],
        decreases N - i,
    {
        if a[i] != b[i] {
            return false;
        }
        i += 1;
    }
    assert(*a =~= *b);
    true
}

/// Whether the array `a` comes before `b` in the lexicographic order.
pub fn array_less<const N: usize>(a: &[u8; N], b: &[u8; N]) -> (before: bool)
    ensures
        before == lex_less(a@, b@),
{
    let mut i: usize = 0;
    assert(a@.skip(0) =~= a@ && b@.skip(0) =~= b@);
    while i < N
        invariant
            i <= N,
            forall|j: int| 0 <= j < i ==> a@[j] == b@[j],
            lex_less(a@, b@) == lex_less(a@.skip(i as int), b@.skip(i as int)),
        decreases N - i,
    {
        let x: u8 = a[i];
        let y: u8 = b[i];
        proof {
            let sa = a@.skip(i as int);
            let sb = b@.skip(i as int);
            assert(sa.drop_first() =~= a@.skip(i + 1));
            assert(sb.drop_first() =~= b@.skip(i + 1));
        }
        if x != y {
            return x < y;
        }
        i += 1;
    }
    false
}

/// Compares two byte vectors for equality.
pub fn vec_eq(a: &Vec<u8>, b: &Vec<u8>) -> (same: bool)
    ensures
        same == (a@ == b@),
{
    if a.len() != b.len() {
        return false;
    }
    let mut i: usize = 0;
    while i < a.len()
        invariant
            i <= a.len(),
            a.len() == b.len(),
            forall|j: int| 0 <= j < i ==> a@[j] == b@[j],
        decreases a.len() - i,
    {
        if a[i] != b[i] {
            return false;
        }
        i += 1;
    }
    assert(a@ =~= b@);
    true
}

/// Puts the bytes of `a` behind those of `bytes`.
pub fn append_array<const N: usize>(bytes: &mut Vec<u8>, a: &[u8; N])
    ensures
        final(bytes)@ == old(bytes)@ + a@,
{
    let mut i: usize = 0;
    while i < N
        invariant
            i <= N,
            bytes@ == old(bytes)@ + a@.take(i as int),
        decreases N - i,
    {
        bytes.push(a[i]);
        assert(a@.take(i + 1) =~= a@.take(i as int).push(a@[i as int]));
        assert(bytes@ =~= old(bytes)@ + a@.take(i + 1));
        i += 1;
    }
    assert(a@.take(N as int) =~= a@);
}

/// A vector that holds the bytes of `a`.
pub fn array_to_vec<const N: usize>(a: &[u8; N]) -> (v: Vec<u8>)
    ensures
        v@ == a@,
{
    let mut v: Vec<u8> = Vec::new();
    let mut i: usize = 0;
    while i < N
        invariant
            i <= N,
            v@ == a@.take(i as int),
        decreases N - i,
    {
        v.push(a[i]);
        i += 1;
    }
    v
}

} // verus!
