//! Little-endian reading and writing of fixed-width fields.
use vstd::prelude::*;
use crate::address::{Address, ADDRESS_LEN};

verus! {

/// Little-endian bytes of `n`, `len` of them.
pub open spec fn le_bytes(n: nat, len: nat) -> Seq<u8>
    decreases len,
{
    if len == 0 {
        Seq::empty()
    } else {
        seq![(n % 256) as u8] + le_bytes(n / 256, (len - 1) as nat)
    }
}

/// The eight little-endian bytes of a `u64`.
pub fn u64_to_le(n: u64) -> (r: Vec<u8>)
    ensures
        r@ == le_bytes(n as nat, 8),
{
    let mut out: Vec<u8> = Vec::new();
    let mut rest: u64 = n;
    let mut i: usize = 0;
    while i < 8
        invariant
            i <= 8,
            out@ + le_bytes(rest as nat, (8 - i) as nat) == le_bytes(n as nat, 8),
        decreases 8 - i,
    {
        let ghost before = out@;
        out.push((rest % 256) as u8);
        proof {
            assert(le_bytes(rest as nat, (8 - i) as nat) == seq![(rest % 256) as u8] + le_bytes(
                (rest / 256) as nat,
                (8 - i - 1) as nat,
            ));
            assert(out@ == before + seq![(rest % 256) as u8]);
            assert(out@ + le_bytes((rest / 256) as nat, (8 - i - 1) as nat) =~= before
                + le_bytes(rest as nat, (8 - i) as nat));
        }
        rest = rest / 256;
        i = i + 1;
    }
    assert(out@ + le_bytes(rest as nat, 0) =~= out@);
    out
}

/// The number whose little-endian bytes are `s`.
pub open spec fn le_value(s: Seq<u8>) -> nat
    decreases s.len(),
{
    if s.len() == 0 {
        0
    } else {
        s[0] as nat + 256 * le_value(s.drop_first())
    }
}

/// `256` to the power `n`.
pub open spec fn pow256(n: nat) -> nat
    decreases n,
{
    if n == 0 {
        1
    } else {
        256 * pow256((n - 1) as nat)
    }
}

/// The `u64` stored in the eight bytes of `s` from `at`.
pub open spec fn u64_at(s: Seq<u8>, at: int) -> u64 {
    le_value(s.subrange(at, at + 8)) as u64
}

/// The `i64` stored, in two's complement, in the eight bytes of `s` from `at`.
pub open spec fn i64_at(s: Seq<u8>, at: int) -> i64 {
    u64_at(s, at) as i64
}

proof fn lemma_le_value_bound(s: Seq<u8>)
    ensures
        le_value(s) < pow256(s.len()),
    decreases s.len(),
{
    if s.len() > 0 {
        lemma_le_value_bound(s.drop_first());
        let rest = le_value(s.drop_first());
        let p = pow256((s.len() - 1) as nat);
        assert(s[0] as nat + 256 * rest < 256 * p) by (nonlinear_arith)
            requires rest < p, s[0] < 256;
    }
}

/// Reads the `u64` stored little-endian in `data` from `at`.
pub fn read_u64(data: &[u8], at: usize) -> (r: u64)
    requires
        at + 8 <= data@.len(),
    ensures
        r == u64_at(data@, at as int),
        r as nat == le_value(data@.subrange(at as int, at + 8)),
{
    let mut acc: u64 = 0;
    let len = data.len();
    let mut i: usize = 8;
    proof {
        reveal_with_fuel(pow256, 9);
        assert(pow256(7) == 72057594037927936);
    }
    while i > 0
        invariant
            i <= 8,
            at + 8 <= data@.len(),
            len == data@.len(),
            acc as nat == le_value(data@.subrange(at + i, at + 8)),
            acc < pow256((8 - i) as nat),
            pow256(7) == 72057594037927936,
        decreases i,
    {
        let ghost s = data@.subrange(at + i - 1, at + 8);
        proof {
            assert(s.drop_first() =~= data@.subrange(at + i, at + 8));
            lemma_le_value_bound(data@.subrange(at + i, at + 8));
            if i < 8 {
                assert(pow256((8 - i) as nat) <= pow256(7)) by {
                    lemma_pow256_mono((8 - i) as nat, 7);
                }
            } else {
                assert(pow256(0) == 1);
            }
        }
        acc = acc * 256 + data[at + (i - 1)] as u64;
        i = i - 1;
        proof {
            assert(acc < pow256((8 - i) as nat)) by {
                lemma_le_value_bound(s);
            }
        }
    }
    acc
}

proof fn lemma_pow256_mono(a: nat, b: nat)
    requires
        a <= b,
    ensures
        pow256(a) <= pow256(b),
    decreases b,
{
    if a < b {
        lemma_pow256_mono(a, (b - 1) as nat);
        assert(pow256((b - 1) as nat) >= 1) by {
            lemma_pow256_positive((b - 1) as nat);
        }
    }
}

proof fn lemma_pow256_positive(n: nat)
    ensures
        pow256(n) >= 1,
    decreases n,
{
    if n > 0 {
        lemma_pow256_positive((n - 1) as nat);
    }
}

/// Reads the address stored in `data` from `at`.
pub fn read_address(data: &[u8], at: usize) -> (r: Address)
    requires
        at + 32 <= data@.len(),
    ensures
        r@ == data@.subrange(at as int, at + 32),
{
    let bytes = read_array(data, at);
    Address { bytes }
}

/// Reads the 32 bytes of `data` from `at`.
pub fn read_array(data: &[u8], at: usize) -> (r: [u8; 32])
    requires
        at + 32 <= data@.len(),
    ensures
        r@ == data@.subrange(at as int, at + 32),
{
    let mut bytes: [u8; 32] = [0u8; 32];
    let len = data.len();
    let mut i: usize = 0;
    while i < ADDRESS_LEN
        invariant
            i <= ADDRESS_LEN,
            at + 32 <= data@.len(),
            len == data@.len(),
            bytes@.len() == 32,
            forall|j: int| 0 <= j < i ==> bytes@[j] == data@[at + j],
        decreases ADDRESS_LEN - i,
    {
        bytes[i] = data[at + i];
        i = i + 1;
    }
    assert(bytes@ =~= data@.subrange(at as int, at + 32));
    bytes
}

/// Appends `bytes` to `out`.
pub fn push_all(out: &mut Vec<u8>, bytes: &[u8])
    ensures
        final(out)@ == old(out)@ + bytes@,
{
    let mut i: usize = 0;
    while i < bytes.len()
        invariant
            i <= bytes@.len(),
            out@ == old(out)@ + bytes@.subrange(0, i as int),
        decreases bytes@.len() - i,
    {
        out.push(bytes[i]);
        assert(bytes@.subrange(0, i + 1) =~= bytes@.subrange(0, i as int) + seq![bytes@[i as int]]);
        i = i + 1;
    }
    assert(bytes@.subrange(0, i as int) =~= bytes@);
}

/// Appends the little-endian bytes of `n` to `out`.
pub fn push_u64(out: &mut Vec<u8>, n: u64)
    ensures
        final(out)@ == old(out)@ + le_bytes(n as nat, 8),
{
    let b = u64_to_le(n);
    push_all(out, b.as_slice());
}

} // verus!

verus! {

/// Writing a number little-endian and reading it back gives the bytes again.
pub proof fn lemma_le_round_trip(s: Seq<u8>)
    ensures
        le_bytes(le_value(s), s.len()) == s,
    decreases s.len(),
{
    if s.len() > 0 {
        let r = le_value(s.drop_first());
        let s0 = s[0] as int;
        assert((s0 + 256 * r) % 256 == s0 && (s0 + 256 * r) / 256 == r) by (nonlinear_arith)
            requires 0 <= s0 < 256, r >= 0;
        lemma_le_round_trip(s.drop_first());
        assert(le_bytes(le_value(s), s.len()) =~= s);
    }
}

/// The eight bytes from `at` are the bytes of the `u64` read there.
pub proof fn lemma_u64_at_round_trip(s: Seq<u8>, at: int)
    requires
        0 <= at,
        at + 8 <= s.len(),
    ensures
        le_bytes(u64_at(s, at) as nat, 8) == s.subrange(at, at + 8),
{
    let w = s.subrange(at, at + 8);
    lemma_le_value_bound(w);
    assert(pow256(8) == 0x1_0000_0000_0000_0000) by {
        reveal_with_fuel(pow256, 9);
    }
    lemma_le_round_trip(w);
}

/// Unsigned values survive the trip through their signed reading.
pub proof fn lemma_cast_round_trip(u: u64, b: u8)
    ensures
        ((u as i64) as u64) == u,
        ((b as i8) as u8) == b,
{
    assert(((u as i64) as u64) == u) by (bit_vector);
    assert(((b as i8) as u8) == b) by (bit_vector);
}

/// Reading back the little-endian bytes of a number that fits gives the number.
pub proof fn lemma_le_value_of_bytes(n: nat, len: nat)
    requires
        n < pow256(len),
    ensures
        le_value(le_bytes(n, len)) == n,
    decreases len,
{
    if len == 0 {
        assert(n == 0);
    } else {
        let p = pow256((len - 1) as nat);
        assert(n / 256 < p && n == n % 256 + 256 * (n / 256)) by (nonlinear_arith)
            requires n < 256 * p, p >= 1;
        lemma_pow256_positive((len - 1) as nat);
        lemma_le_value_of_bytes(n / 256, (len - 1) as nat);
        assert(le_bytes(n, len).drop_first() =~= le_bytes(n / 256, (len - 1) as nat));
    }
}

/// The `u64` read from the eight bytes written for `n` is `n`.
pub proof fn lemma_u64_written_reads_back(s: Seq<u8>, at: int, n: u64)
    requires
        0 <= at,
        at + 8 <= s.len(),
        s.subrange(at, at + 8) == le_bytes(n as nat, 8),
    ensures
        u64_at(s, at) == n,
{
    assert(pow256(8) == 0x1_0000_0000_0000_0000) by {
        reveal_with_fuel(pow256, 9);
    }
    lemma_le_value_of_bytes(n as nat, 8);
}

/// Signed values survive the trip through their unsigned bits.
pub proof fn lemma_signed_round_trip(x: i64, d: i8)
    ensures
        ((x as u64) as i64) == x,
        ((d as u8) as i8) == d,
{
    assert(((x as u64) as i64) == x) by (bit_vector);
    assert(((d as u8) as i8) == d) by (bit_vector);
}

} // verus!
