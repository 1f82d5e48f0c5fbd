//! Fixed-size byte forms of tick counts, in big-endian and little-endian order.
use vstd::prelude::*;

verus! {

/// Two hundred fifty-six to the power of `n`.
pub open spec fn pow256(n: nat) -> int
    decreases n,
{
    if n == 0 {
        1
    } else {
        256 * pow256((n - 1) as nat)
    }
}

/// The `n` bytes of `u`, most significant first.
pub open spec fn be_bytes(u: int, n: nat) -> Seq<u8>
    decreases n,
{
    if n == 0 {
        Seq::<u8>::empty()
    } else {
        be_bytes(u / 256, (n - 1) as nat).push((u % 256) as u8)
    }
}

/// The `n` bytes of `u`, least significant first.
pub open spec fn le_bytes(u: int, n: nat) -> Seq<u8>
    decreases n,
{
    if n == 0 {
        Seq::<u8>::empty()
    } else {
        seq![(u % 256) as u8] + le_bytes(u / 256, (n - 1) as nat)
    }
}

/// The number that bytes stand for, most significant first.
pub open spec fn be_value(s: Seq<u8>) -> int
    decreases s.len(),
{
    if s.len() == 0 {
        0
    } else {
        be_value(s.drop_last()) * 256 + s.last()
    }
}

/// The number that bytes stand for, least significant first.
pub open spec fn le_value(s: Seq<u8>) -> int
    decreases s.len(),
{
    if s.len() == 0 {
        0
    } else {
        s[0] + 256 * le_value(s.drop_first())
    }
}

/// `v` in two's complement modulo `modulus`.
pub open spec fn to_unsigned(v: int, modulus: int) -> int {
    if v < 0 {
        v + modulus
    } else {
        v
    }
}

/// The two's complement `u` modulo `modulus` as a signed number.
pub open spec fn to_signed(u: int, modulus: int) -> int {
    if u >= modulus / 2 {
        u - modulus
    } else {
        u
    }
}

/// Bytes written in one order read back as the same number.
pub proof fn lemma_bytes_value(u: int, n: nat)
    requires
        0 <= u < pow256(n),
    ensures
        be_value(be_bytes(u, n)) == u,
        le_value(le_bytes(u, n)) == u,
        be_bytes(u, n).len() == n,
        le_bytes(u, n).len() == n,
    decreases n,
{
    if n > 0 {
        assert(u / 256 < pow256((n - 1) as nat)) by {
            vstd::arithmetic::div_mod::lemma_div_by_multiple_is_strongly_ordered(
                u,
                pow256(n),
                pow256((n - 1) as nat),
                256,
            );
            vstd::arithmetic::div_mod::lemma_div_multiples_vanish(pow256((n - 1) as nat), 256);
            assert(pow256(n) == pow256((n - 1) as nat) * 256);
        }
        lemma_bytes_value(u / 256, (n - 1) as nat);
        let b = be_bytes(u, n);
        assert(b.drop_last() =~= be_bytes(u / 256, (n - 1) as nat));
        let l = le_bytes(u, n);
        assert(l.drop_first() =~= le_bytes(u / 256, (n - 1) as nat));
        assert(u == (u / 256) * 256 + u % 256);
    } else {
        assert(be_bytes(u, n) =~= Seq::<u8>::empty());
    }
}

/// Appends the `n` bytes of `u`, most significant first.
pub fn push_be(out: &mut Vec<u8>, u: u64, n: usize)
    ensures
        final(out)@ == old(out)@ + be_bytes(u as int, n as nat),
    decreases n,
{
    if n > 0 {
        push_be(out, u / 256, n - 1);
        out.push((u % 256) as u8);
    }
    assert(final(out)@ =~= old(out)@ + be_bytes(u as int, n as nat));
}

/// Appends the `n` bytes of `u`, least significant first.
pub fn push_le(out: &mut Vec<u8>, u: u64, n: usize)
    ensures
        final(out)@ == old(out)@ + le_bytes(u as int, n as nat),
    decreases n,
{
    if n > 0 {
        out.push((u % 256) as u8);
        push_le(out, u / 256, n - 1);
    }
    assert(final(out)@ =~= old(out)@ + le_bytes(u as int, n as nat));
}

proof fn lemma_pow256_8()
    ensures
        pow256(8) == 0x1_0000_0000_0000_0000,
        pow256(4) == 0x1_0000_0000,
        pow256(2) == 0x1_0000,
{
    reveal_with_fuel(pow256, 9);
}

/// The number that the `n <= 8` bytes of `b` from `from` stand for, most significant first.
pub fn read_be(b: &[u8], from: usize, n: usize) -> (r: u64)
    requires
        n <= 8,
        from + n <= b@.len(),
    ensures
        r == be_value(b@.subrange(from as int, from + n)),
{
    let len = b.len();
    let mut acc: u128 = 0;
    let mut i: usize = 0;
    proof {
        lemma_pow256_8();
        assert(b@.subrange(from as int, from as int) =~= Seq::<u8>::empty());
    }
    while i < n
        invariant
            n <= 8,
            len == b@.len(),
            from + n <= b@.len(),
            i <= n,
            acc == be_value(b@.subrange(from as int, from + i)),
            acc < pow256(i as nat),
        decreases n - i,
    {
        assert(b@.subrange(from as int, from + i + 1).drop_last() =~= b@.subrange(
            from as int,
            from + i,
        ));
        proof {
            lemma_pow256_mono(i as nat, 7);
            lemma_pow256_8();
        }
        acc = acc * 256 + b[from + i] as u128;
        i = i + 1;
    }
    proof {
        lemma_pow256_mono(n as nat, 8);
        lemma_pow256_8();
    }
    acc as u64
}

/// The number that the `n <= 8` bytes of `b` from `from` stand for, least significant first.
pub fn read_le(b: &[u8], from: usize, n: usize) -> (r: u64)
    requires
        n <= 8,
        from + n <= b@.len(),
    ensures
        r == le_value(b@.subrange(from as int, from + n)),
{
    let len = b.len();
    let mut acc: u128 = 0;
    let mut i: usize = n;
    proof {
        lemma_pow256_8();
        assert(b@.subrange(from + n, from + n) =~= Seq::<u8>::empty());
    }
    while i > 0
        invariant
            n <= 8,
            len == b@.len(),
            from + n <= b@.len(),
            i <= n,
            acc == le_value(b@.subrange(from + i, from + n)),
            acc < pow256((n - i) as nat),
        decreases i,
    {
        assert(b@.subrange(from + i - 1, from + n).drop_first() =~= b@.subrange(
            from + i,
            from + n,
        ));
        proof {
            lemma_pow256_mono((n - i) as nat, 7);
            lemma_pow256_8();
        }
        acc = b[from + i - 1] as u128 + 256 * acc;
        i = i - 1;
    }
    proof {
        lemma_pow256_mono(n as nat, 8);
        lemma_pow256_8();
    }
    acc as u64
}

proof fn lemma_pow256_mono(a: nat, b: nat)
    requires
        a <= b,
    ensures
        1 <= pow256(a) <= pow256(b),
    decreases b,
{
    lemma_pow256_pos(b);
    if a < b {
        lemma_pow256_mono(a, (b - 1) as nat);
    }
}

proof fn lemma_pow256_pos(n: nat)
    ensures
        pow256(n) >= 1,
    decreases n,
{
    if n > 0 {
        lemma_pow256_pos((n - 1) as nat);
    }
}

/// `n` bytes stand for less than `256` to the power of `n`.
pub proof fn lemma_value_bound(s: Seq<u8>)
    ensures
        0 <= be_value(s) < pow256(s.len()),
        0 <= le_value(s) < pow256(s.len()),
    decreases s.len(),
{
    if s.len() > 0 {
        lemma_value_bound(s.drop_last());
        lemma_value_bound(s.drop_first());
        assert(s.drop_last().len() == s.len() - 1);
        assert(pow256(s.len()) == 256 * pow256((s.len() - 1) as nat));
    }
}

/// Relies on `u16::from_ne_bytes`: `1` on a machine that stores the least significant byte
/// first, `256` on one that stores the most significant byte first.
#[verifier::external_body]
pub fn native_probe() -> (r: u16)
    ensures
        r == 1 || r == 256,
{
    u16::from_ne_bytes([1, 0])
}

/// Whether this machine stores the least significant byte first.
pub fn native_is_little() -> bool {
    native_probe() == 1
}

} // verus!
