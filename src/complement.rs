//! Base complement and in-place reverse complement of a byte range.
use vstd::prelude::*;

verus! {

/// The complement of one byte: A<->T, C<->G, N<->N in either case; any
/// other byte is its own complement.
pub open spec fn complement(b: u8) -> u8 {
    match b {
        65u8 => 84u8,    // A -> T
        67u8 => 71u8,    // C -> G
        71u8 => 67u8,    // G -> C
        84u8 => 65u8,    // T -> A
        97u8 => 116u8,   // a -> t
        99u8 => 103u8,   // c -> g
        103u8 => 99u8,   // g -> c
        116u8 => 97u8,   // t -> a
        _ => b,          // N, n and every other byte
    }
}

/// The reverse complement of a byte sequence: position `i` of the result is
/// the complement of position `len - 1 - i` of the input.
pub open spec fn reverse_complement(s: Seq<u8>) -> Seq<u8> {
    Seq::new(s.len(), |i: int| complement(s[s.len() - 1 - i]))
}

/// Complementing twice gives back the byte.
pub proof fn lemma_complement_involutive(b: u8)
    ensures
        complement(complement(b)) == b,
{
}

/// Reverse-complementing twice gives back the sequence, and the length is
/// kept.
pub proof fn lemma_reverse_complement_involutive(s: Seq<u8>)
    ensures
        reverse_complement(s).len() == s.len(),
        reverse_complement(reverse_complement(s)) == s,
{
    let r = reverse_complement(s);
    assert forall|i: int| 0 <= i < s.len() implies reverse_complement(r)[i] == s[i] by {
        lemma_complement_involutive(s[i]);
    }
    assert(reverse_complement(r) =~= s);
}

/// Returns the complement of a DNA base (A, C, G, T, N), preserving case.
/// Other bytes are returned unchanged.
pub fn complement_base(b: u8) -> (r: u8)
    ensures
        r == complement(b),
{
    match b {
        65u8 => 84u8,    // A -> T
        67u8 => 71u8,    // C -> G
        71u8 => 67u8,    // G -> C
        84u8 => 65u8,    // T -> A
        78u8 => 78u8,    // N -> N
        97u8 => 116u8,   // a -> t
        99u8 => 103u8,   // c -> g
        103u8 => 99u8,   // g -> c
        116u8 => 97u8,   // t -> a
        110u8 => 110u8,  // n -> n
        _ => b,
    }
}

/// Reverse-complements a DNA sequence in place, with two indices that meet
/// in the middle.
pub fn reverse_complement_in_place(buf: &mut [u8])
    ensures
        final(buf)@ == reverse_complement(old(buf)@),
{
    let ghost orig = buf@;
    let n: usize = buf.len();
    let mut i: usize = 0;
    let mut j: usize = n;
    while i < j
        invariant
            n == orig.len(),
            buf@.len() == n,
            i + j == n,
            i <= j + 1,
            forall|k: int| 0 <= k < i ==> buf@[k] == complement(orig[n - 1 - k]),
            forall|k: int| j <= k < n ==> buf@[k] == complement(orig[n - 1 - k]),
            forall|k: int| i <= k < j ==> buf@[k] == orig[k],
        decreases j + 1 - i,
    {
        j -= 1;
        let a = complement_base(buf[i]);
        let b = complement_base(buf[j]);
        buf[i] = b;
        buf[j] = a;
        i += 1;
    }
    assert(buf@ =~= reverse_complement(orig));
}

} // verus!
