//! Integers as sequences of bytes, most significant byte first (network
//! order) or least significant first (the order of the machines the kernel
//! runs on).
use vstd::prelude::*;

verus! {

/// One more than the largest number `n` bytes can hold.
pub open spec fn byte_cap(n: nat) -> nat
    decreases n,
{
    if n == 0 {
        1
    } else {
        byte_cap((n - 1) as nat) * 256
    }
}

/// The low `n` bytes of `x`, most significant first.
pub open spec fn be_bytes(x: nat, n: nat) -> Seq<u8>
    decreases n,
{
    if n == 0 {
        Seq::empty()
    } else {
        be_bytes(x / 256, (n - 1) as nat).push((x % 256) as u8)
    }
}

/// The number that bytes, most significant first, stand for.
pub open spec fn be_value(s: Seq<u8>) -> nat
    decreases s.len(),
{
    if s.len() == 0 {
        0
    } else {
        be_value(s.drop_last()) * 256 + s.last() as nat
    }
}

/// The low `n` bytes of `x`, least significant first.
pub open spec fn le_bytes(x: nat, n: nat) -> Seq<u8>
    decreases n,
{
    if n == 0 {
        Seq::empty()
    } else {
        seq![(x % 256) as u8] + le_bytes(x / 256, (n - 1) as nat)
    }
}

/// The number that bytes, least significant first, stand for.
pub open spec fn le_value(s: Seq<u8>) -> nat
    decreases s.len(),
{
    if s.len() == 0 {
        0
    } else {
        s[0] as nat + 256 * le_value(s.drop_first())
    }
}

pub proof fn lemma_byte_cap_values()
    ensures
        byte_cap(0) == 1,
        byte_cap(1) == 0x100,
        byte_cap(2) == 0x1_0000,
        byte_cap(4) == 0x1_0000_0000,
        byte_cap(8) == 0x1_0000_0000_0000_0000,
        byte_cap(16) == 0x1_0000_0000_0000_0000_0000_0000_0000_0000,
{
    reveal_with_fuel(byte_cap, 17);
}

proof fn lemma_div_below_cap(x: nat, n: nat)
    requires
        n > 0,
        x < byte_cap(n),
    ensures
        x / 256 < byte_cap((n - 1) as nat),
{
    let c = byte_cap((n - 1) as nat);
    assert(x < c * 256);
    assert(x / 256 < c) by (nonlinear_arith)
        requires
            x < c * 256,
    ;
}

/// Bytes written most significant first read back as the number.
pub proof fn lemma_be_roundtrip(x: nat, n: nat)
    requires
        x < byte_cap(n),
    ensures
        be_bytes(x, n).len() == n,
        be_value(be_bytes(x, n)) == x,
    decreases n,
{
    if n > 0 {
        lemma_div_below_cap(x, n);
        lemma_be_roundtrip(x / 256, (n - 1) as nat);
        let s = be_bytes(x / 256, (n - 1) as nat);
        assert(be_bytes(x, n).drop_last() =~= s);
        assert(x == (x / 256) * 256 + x % 256) by (nonlinear_arith);
    }
}

/// Bytes written least significant first read back as the number.
pub proof fn lemma_le_roundtrip(x: nat, n: nat)
    requires
        x < byte_cap(n),
    ensures
        le_bytes(x, n).len() == n,
        le_value(le_bytes(x, n)) == x,
    decreases n,
{
    if n > 0 {
        lemma_div_below_cap(x, n);
        lemma_le_roundtrip(x / 256, (n - 1) as nat);
        let s = le_bytes(x / 256, (n - 1) as nat);
        assert(le_bytes(x, n).drop_first() =~= s);
        assert(x == x % 256 + 256 * (x / 256)) by (nonlinear_arith);
    }
}

/// Any bytes stand for a number the same count of bytes can hold.
pub proof fn lemma_be_value_bound(s: Seq<u8>)
    ensures
        be_value(s) < byte_cap(s.len()),
    decreases s.len(),
{
    if s.len() > 0 {
        lemma_be_value_bound(s.drop_last());
        let v = be_value(s.drop_last());
        let c = byte_cap((s.len() - 1) as nat);
        let b = s.last() as nat;
        assert(v * 256 + b < c * 256) by (nonlinear_arith)
            requires
                v < c,
                b < 256,
        ;
    }
}

/// Any bytes stand for a number the same count of bytes can hold.
pub proof fn lemma_le_value_bound(s: Seq<u8>)
    ensures
        le_value(s) < byte_cap(s.len()),
    decreases s.len(),
{
    if s.len() > 0 {
        lemma_le_value_bound(s.drop_first());
        let v = le_value(s.drop_first());
        let c = byte_cap((s.len() - 1) as nat);
        let b = s[0] as nat;
        assert(b + 256 * v < c * 256) by (nonlinear_arith)
            requires
                v < c,
                b < 256,
        ;
        assert(byte_cap(s.len()) == c * 256);
    }
}

/// Appends the low `n` bytes of `x`, most significant first.
pub fn push_be(out: &mut Vec<u8>, x: u128, n: usize)
    ensures
        final(out)@ == old(out)@ + be_bytes(x as nat, n as nat),
    decreases n,
{
    if n > 0 {
        push_be(out, x / 256, n - 1);
        out.push((x % 256) as u8);
        assert(final(out)@ =~= old(out)@ + be_bytes(x as nat, n as nat));
    } else {
        assert(final(out)@ =~= old(out)@ + be_bytes(x as nat, n as nat));
    }
}

/// Appends the low `n` bytes of `x`, least significant first.
pub fn push_le(out: &mut Vec<u8>, x: u128, n: usize)
    ensures
        final(out)@ == old(out)@ + le_bytes(x as nat, n as nat),
    decreases n,
{
    if n > 0 {
        out.push((x % 256) as u8);
        push_le(out, x / 256, n - 1);
        assert(final(out)@ =~= old(out)@ + le_bytes(x as nat, n as nat));
    } else {
        assert(final(out)@ =~= old(out)@ + le_bytes(x as nat, n as nat));
    }
}

/// The number that `n` bytes of `s` from `start` stand for, most
/// significant first.
pub fn read_be(s: &[u8], start: usize, n: usize) -> (v: u128)
    requires
        start + n <= s@.len(),
        n <= 16,
    ensures
        v == be_value(s@.subrange(start as int, start + n)),
{
    proof { lemma_byte_cap_values(); }
    let len = s.len();
    let mut v: u128 = 0;
    let mut i: usize = 0;
    while i < n
        invariant
            len == s@.len(),
            i <= n,
            n <= 16,
            start + n <= s@.len(),
            v == be_value(s@.subrange(start as int, start + i)),
            byte_cap(16) == 0x1_0000_0000_0000_0000_0000_0000_0000_0000,
        decreases n - i,
    {
        let ghost part = s@.subrange(start as int, start + i);
        proof {
            lemma_be_value_bound(part);
            lemma_byte_cap_mono(i as nat, 15);
        }
        let b = s[start + i];
        assert(v * 256 + b < byte_cap(16)) by (nonlinear_arith)
            requires
                v < byte_cap(i as nat),
                byte_cap(i as nat) <= byte_cap(15),
                byte_cap(16) == byte_cap(15) * 256,
                b < 256,
        ;
        v = v * 256 + b as u128;
        i = i + 1;
        assert(s@.subrange(start as int, start + i).drop_last() =~= part);
    }
    v
}

/// The number that `n` bytes of `s` from `start` stand for, least
/// significant first.
pub fn read_le(s: &[u8], start: usize, n: usize) -> (v: u128)
    requires
        start + n <= s@.len(),
        n <= 16,
    ensures
        v == le_value(s@.subrange(start as int, start + n)),
{
    proof { lemma_byte_cap_values(); }
    let len = s.len();
    let mut v: u128 = 0;
    let mut i: usize = n;
    while i > 0
        invariant
            len == s@.len(),
            i <= n,
            n <= 16,
            start + n <= s@.len(),
            v == le_value(s@.subrange(start + i, start + n)),
            byte_cap(16) == 0x1_0000_0000_0000_0000_0000_0000_0000_0000,
        decreases i,
    {
        let ghost part = s@.subrange(start + i, start + n);
        proof {
            lemma_le_value_bound(part);
            lemma_byte_cap_mono(part.len(), 15);
        }
        let b = s[start + i - 1];
        assert(b + 256 * v < byte_cap(16)) by (nonlinear_arith)
            requires
                v < byte_cap(part.len()),
                byte_cap(part.len()) <= byte_cap(15),
                byte_cap(16) == byte_cap(15) * 256,
                b < 256,
        ;
        v = b as u128 + 256 * v;
        i = i - 1;
        assert(s@.subrange(start + i, start + n).drop_first() =~= part);
    }
    v
}

proof fn lemma_byte_cap_mono(a: nat, b: nat)
    requires
        a <= b,
    ensures
        byte_cap(a) <= byte_cap(b),
        byte_cap(b + 1) == byte_cap(b) * 256,
    decreases b,
{
    if a < b {
        lemma_byte_cap_mono(a, (b - 1) as nat);
    }
}

} // verus!
