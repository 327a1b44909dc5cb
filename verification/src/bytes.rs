//! Fixed-width byte strings and big-endian numbers.
use crate::sodium::memzero;
use vstd::prelude::*;

verus! {

/// The array of `N` bytes whose contents are `s`, for `s` of length `N`.
pub open spec fn array_of<const N: usize>(s: Seq<u8>) -> [u8; N] {
    choose|a: [u8; N]| a@ == s
}

spec fn filled<const N: usize>(s: Seq<u8>, n: nat) -> [u8; N]
    decreases n,
{
    if n == 0 {
        vstd::array::spec_array_fill_for_copy_type::<u8, N>(0u8)
    } else {
        vstd::array::spec_array_update(filled::<N>(s, (n - 1) as nat), n - 1, s[n - 1])
    }
}

proof fn lemma_filled<const N: usize>(s: Seq<u8>, n: nat)
    requires
        s.len() == N,
        n <= N,
    ensures
        forall|i: int| 0 <= i < n ==> filled::<N>(s, n)@[i] == s[i],
    decreases n,
{
    if n > 0 {
        lemma_filled::<N>(s, (n - 1) as nat);
    }
}

/// Every byte string of length `N` is the contents of exactly one array.
pub proof fn lemma_array_of<const N: usize>(s: Seq<u8>)
    requires
        s.len() == N,
    ensures
        array_of::<N>(s)@ == s,
        forall|a: [u8; N]| a@ == s ==> a == array_of::<N>(s),
{
    lemma_filled::<N>(s, N as nat);
    let w = filled::<N>(s, N as nat);
    assert(w@ =~= s);
    assert forall|a: [u8; N]| a@ == s implies a == array_of::<N>(s) by {
        assert(a =~= array_of::<N>(s));
    }
}

/// Copies `N` bytes of `bytes`, from `start` on, into an array.
pub fn copy_array<const N: usize>(bytes: &[u8], start: usize) -> (out: [u8; N])
    requires
        start + N <= bytes@.len(),
    ensures
        out@ == bytes@.subrange(start as int, start + N),
        out == array_of::<N>(bytes@.subrange(start as int, start + N)),
{
    let len: usize = bytes.len();
    let mut out: [u8; N] = [0u8; N];
    let mut i: usize = 0;
    while i < N
        invariant
            i <= N,
            start + N <= len,
            len == bytes@.len(),
            forall|j: int| 0 <= j < i ==> out@[j] == bytes@[start + j],
        decreases N - i,
    {
        out[i] = bytes[start + i];
        i += 1;
    }
    assert(out@ =~= bytes@.subrange(start as int, start + N));
    proof {
        lemma_array_of::<N>(out@);
    }
    out
}

/// Overwrites a secret with zeros, so that it does not linger in memory
/// after its use. The length stays as it is.
pub fn wipe(secret: &mut Vec<u8>)
    ensures
        final(secret)@ == Seq::new(old(secret)@.len(), |i: int| 0u8),
{
    memzero(secret);
    assert(secret@ =~= Seq::new(old(secret)@.len(), |i: int| 0u8));
}

/// Tells whether two byte strings have the same length and contents.
pub fn bytes_eq(x: &[u8], y: &[u8]) -> (same: bool)
    ensures
        same == (x@ == y@),
{
    if x.len() != y.len() {
        return false;
    }
    let mut i: usize = 0;
    while i < x.len()
        invariant
            i <= x@.len(),
            x@.len() == y@.len(),
            forall|j: int| 0 <= j < i ==> x@[j] == y@[j],
        decreases x@.len() - i,
    {
        if x[i] != y[i] {
            return false;
        }
        i += 1;
    }
    assert(x@ =~= y@);
    true
}

/// The two bytes of a 16-bit number, most significant first.
pub open spec fn spec_u16_to_bytes(n: u16) -> Seq<u8> {
    seq![(n / 256) as u8, (n % 256) as u8]
}

/// The 16-bit number that two bytes spell, most significant first.
pub open spec fn spec_two_bytes_to_u16(bytes: Seq<u8>) -> u16 {
    (bytes[0] * 256 + bytes[1]) as u16
}

/// Splits a 16-bit number into its two bytes, most significant first.
pub fn u16_to_bytes(n: u16) -> (bytes: [u8; 2])
    ensures
        bytes@ == spec_u16_to_bytes(n),
{
    let msb: u8 = (n / 256) as u8;
    let lsb: u8 = (n % 256) as u8;
    let bytes = [msb, lsb];
    assert(bytes@ =~= spec_u16_to_bytes(n));
    bytes
}

/// Reads two bytes as a 16-bit number, most significant first.
pub fn two_bytes_to_u16(bytes: &[u8]) -> (n: u16)
    requires
        bytes@.len() == 2,
    ensures
        n == spec_two_bytes_to_u16(bytes@),
{
    let msb: u16 = bytes[0] as u16;
    let lsb: u16 = bytes[1] as u16;
    msb * 256 + lsb
}

/// Writing a number as two bytes and reading them back gives the number.
pub proof fn lemma_u16_round_trip(n: u16)
    ensures
        spec_u16_to_bytes(n).len() == 2,
        spec_two_bytes_to_u16(spec_u16_to_bytes(n)) == n,
{
}

/// Reading two bytes as a number and writing it back gives the bytes.
pub proof fn lemma_bytes_round_trip(bytes: Seq<u8>)
    requires
        bytes.len() == 2,
    ensures
        spec_u16_to_bytes(spec_two_bytes_to_u16(bytes)) == bytes,
{
    assert(spec_u16_to_bytes(spec_two_bytes_to_u16(bytes)) =~= bytes);
}

} // verus!
