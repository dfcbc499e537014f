//! Little-endian byte sequences.

use vstd::prelude::*;

verus! {

/// How many values `n` bytes can hold.
pub open spec fn capacity(n: nat) -> nat
    decreases n,
{
    if n == 0 {
        1
    } else {
        256 * capacity((n - 1) as nat)
    }
}

/// The `n` lowest bytes of `x`, lowest first.
pub open spec fn le_bytes(x: nat, n: nat) -> Seq<u8>
    decreases n,
{
    if n == 0 {
        seq![]
    } else {
        seq![(x % 256) as u8] + le_bytes(x / 256, (n - 1) as nat)
    }
}

/// The number that a byte sequence stands for, lowest byte first.
pub open spec fn le_value(s: Seq<u8>) -> nat
    decreases s.len(),
{
    if s.len() == 0 {
        0
    } else {
        s[0] as nat + 256 * le_value(s.drop_first())
    }
}

/// `n` bytes are written, and a number that fits in them reads back unchanged.
pub proof fn le_reads_back(x: nat, n: nat)
    ensures
        le_bytes(x, n).len() == n,
        x < capacity(n) ==> le_value(le_bytes(x, n)) == x,
    decreases n,
{
    if n > 0 {
        le_reads_back(x / 256, (n - 1) as nat);
        assert(le_bytes(x, n).drop_first() =~= le_bytes(x / 256, (n - 1) as nat));
    }
}

/// Any byte sequence is what its value is written as in that many bytes.
pub proof fn le_writes_back(s: Seq<u8>)
    ensures
        le_value(s) < capacity(s.len()),
        le_bytes(le_value(s), s.len()) == s,
    decreases s.len(),
{
    if s.len() > 0 {
        le_writes_back(s.drop_first());
        let rest = le_value(s.drop_first());
        assert(le_value(s) % 256 == s[0] as nat);
        assert(le_value(s) / 256 == rest);
        assert(seq![s[0]] + s.drop_first() =~= s);
    } else {
        assert(le_bytes(0, 0) =~= s);
    }
}

/// The two bytes of `x`, lowest first.
pub fn le16(x: u16) -> (b: [u8; 2])
    ensures
        b@ == le_bytes(x as nat, 2),
{
    reveal_with_fuel(le_bytes, 3);
    let b: [u8; 2] = [(x % 256) as u8, (x / 256) as u8];
    assert(b@ =~= le_bytes(x as nat, 2));
    b
}

/// The four bytes of `x`, lowest first.
pub fn le32(x: u32) -> (b: [u8; 4])
    ensures
        b@ == le_bytes(x as nat, 4),
{
    reveal_with_fuel(le_bytes, 5);
    let x1: u32 = x / 256;
    let x2: u32 = x1 / 256;
    let x3: u32 = x2 / 256;
    let b: [u8; 4] = [(x % 256) as u8, (x1 % 256) as u8, (x2 % 256) as u8, (x3 % 256) as u8];
    assert(b@ =~= le_bytes(x as nat, 4));
    b
}

/// The eight bytes of `x`, lowest first.
pub fn le64(x: u64) -> (b: [u8; 8])
    ensures
        b@ == le_bytes(x as nat, 8),
{
    reveal_with_fuel(le_bytes, 9);
    let x1: u64 = x / 256;
    let x2: u64 = x1 / 256;
    let x3: u64 = x2 / 256;
    let x4: u64 = x3 / 256;
    let x5: u64 = x4 / 256;
    let x6: u64 = x5 / 256;
    let x7: u64 = x6 / 256;
    let b: [u8; 8] = [
        (x % 256) as u8,
        (x1 % 256) as u8,
        (x2 % 256) as u8,
        (x3 % 256) as u8,
        (x4 % 256) as u8,
        (x5 % 256) as u8,
        (x6 % 256) as u8,
        (x7 % 256) as u8,
    ];
    assert(b@ =~= le_bytes(x as nat, 8));
    b
}

/// Reads `n` bytes of `s` starting at `at` as one number.
fn read_le(s: &[u8], at: usize, n: usize) -> (x: u64)
    requires
        n <= 8,
        at + n <= s@.len(),
    ensures
        x == le_value(s@.subrange(at as int, at + n)),
        x < capacity(n as nat),
    decreases n,
{
    proof {
        reveal_with_fuel(capacity, 9);
        le_writes_back(s@.subrange(at as int, at + n));
    }
    if n == 0 {
        0
    } else {
        assert(s@.len() == s.len());
        let rest = read_le(s, at + 1, n - 1);
        assert(s@.subrange(at as int, at + n).drop_first() =~= s@.subrange(at + 1, at + n));
        assert(le_value(s@.subrange(at as int, at + n)) == s@[at as int] as nat + 256 * rest as nat);
        s[at] as u64 + 256 * rest
    }
}

/// The number held by the two bytes from `at`.
pub fn read_u16(s: &[u8], at: usize) -> (x: u16)
    requires
        at + 2 <= s@.len(),
    ensures
        x == le_value(s@.subrange(at as int, at + 2)),
{
    reveal_with_fuel(capacity, 3);
    read_le(s, at, 2) as u16
}

/// The number held by the four bytes from `at`.
pub fn read_u32(s: &[u8], at: usize) -> (x: u32)
    requires
        at + 4 <= s@.len(),
    ensures
        x == le_value(s@.subrange(at as int, at + 4)),
{
    reveal_with_fuel(capacity, 5);
    read_le(s, at, 4) as u32
}

/// The number held by the eight bytes from `at`.
pub fn read_u64(s: &[u8], at: usize) -> (x: u64)
    requires
        at + 8 <= s@.len(),
    ensures
        x == le_value(s@.subrange(at as int, at + 8)),
{
    read_le(s, at, 8)
}

/// Appends a byte slice to a vector.
pub fn append_bytes(v: &mut Vec<u8>, s: &[u8])
    ensures
        final(v)@ == old(v)@ + s@,
{
    v.extend_from_slice(s);
    assert(v@ =~= old(v)@ + s@);
}

// ---------------------------------------------------------------------------
// Laws
// ---------------------------------------------------------------------------
/// Byte `i` of a number is its `i`-th digit in base 256.
pub proof fn le_bytes_are_digits(x: nat, n: nat, i: nat)
    requires
        i < n,
    ensures
        le_bytes(x, n).len() == n,
        le_bytes(x, n)[i as int] as int == (x as int / vstd::arithmetic::power::pow(256, i)) % 256,
    decreases n,
{
    le_reads_back(x, n);
    vstd::arithmetic::power::lemma_pow_positive(256, i);
    if i == 0 {
        vstd::arithmetic::power::lemma_pow0(256);
    } else {
        let j = (i - 1) as nat;
        le_bytes_are_digits(x / 256, (n - 1) as nat, j);
        vstd::arithmetic::power::lemma_pow_positive(256, j);
        vstd::arithmetic::div_mod::lemma_div_denominator(
            x as int,
            256,
            vstd::arithmetic::power::pow(256, j),
        );
        reveal(vstd::arithmetic::power::pow);
        assert(vstd::arithmetic::power::pow(256, i) == 256 * vstd::arithmetic::power::pow(256, j));
    }
}

/// A byte before others is worth itself, and makes the others worth 256 times as much.
pub proof fn le_value_is_positional(b: u8, s: Seq<u8>)
    ensures
        le_value(seq![]) == 0,
        le_value(seq![b] + s) == b + 256 * le_value(s),
{
    assert((seq![b] + s).drop_first() =~= s);
}

} // verus!
