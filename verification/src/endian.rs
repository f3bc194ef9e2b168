//! Little-endian encoding of unsigned integers in a fixed number of bytes.

use vstd::prelude::*;

verus! {

/// `256` to the power of `n`: the number of values that `n` bytes can hold.
pub open spec fn pow256(n: nat) -> nat
    decreases n,
{
    if n == 0 {
        1
    } else {
        256 * pow256((n - 1) as nat)
    }
}

/// The `width` low-order bytes of `v`, least significant byte first.
pub open spec fn le_bytes(v: nat, width: nat) -> Seq<u8>
    decreases width,
{
    if width == 0 {
        Seq::empty()
    } else {
        seq![(v % 256) as u8] + le_bytes(v / 256, (width - 1) as nat)
    }
}

/// The number whose little-endian digits are `bytes`.
pub open spec fn le_value(bytes: Seq<u8>) -> nat
    decreases bytes.len(),
{
    if bytes.len() == 0 {
        0
    } else {
        bytes[0] as nat + 256 * le_value(bytes.drop_first())
    }
}

/// `n` zero bytes.
pub open spec fn zeros(n: nat) -> Seq<u8> {
    Seq::new(n, |i: int| 0u8)
}

/// The values of `pow256` at the field widths of the format.
pub proof fn lemma_pow256_values()
    ensures
        pow256(0) == 1,
        pow256(1) == 0x100,
        pow256(2) == 0x1_0000,
        pow256(4) == 0x1_0000_0000,
        pow256(8) == 0x1_0000_0000_0000_0000,
{
    reveal_with_fuel(pow256, 9);
}

/// An encoding has exactly the requested number of bytes.
pub proof fn lemma_le_bytes_len(v: nat, width: nat)
    ensures
        le_bytes(v, width).len() == width,
    decreases width,
{
    if width > 0 {
        lemma_le_bytes_len(v / 256, (width - 1) as nat);
    }
}

/// Decoding an encoding gives the number back, provided the number fits the width.
pub proof fn lemma_le_round_trip(v: nat, width: nat)
    requires
        v < pow256(width),
    ensures
        le_value(le_bytes(v, width)) == v,
    decreases width,
{
    if width > 0 {
        let rest = (width - 1) as nat;
        let bytes = le_bytes(v, width);
        assert(bytes.drop_first() =~= le_bytes(v / 256, rest));
        assert(v / 256 < pow256(rest)) by (nonlinear_arith)
            requires
                v < 256 * pow256(rest),
        ;
        lemma_le_round_trip(v / 256, rest);
        assert(v == v % 256 + 256 * (v / 256)) by (nonlinear_arith);
    }
}

/// Zero is encoded as zero bytes only.
pub proof fn lemma_le_bytes_zero(width: nat)
    ensures
        le_bytes(0, width) == zeros(width),
    decreases width,
{
    if width > 0 {
        lemma_le_bytes_zero((width - 1) as nat);
        lemma_le_bytes_len(0, (width - 1) as nat);
        assert(le_bytes(0, width) =~= zeros(width));
    } else {
        assert(le_bytes(0, width) =~= zeros(width));
    }
}

/// Appends the `width` low-order bytes of `v` to `out`, least significant byte first.
pub fn push_le(out: &mut Vec<u8>, v: u64, width: usize)
    requires
        width <= 8,
    ensures
        final(out)@ == old(out)@ + le_bytes(v as nat, width as nat),
{
    let mut rest: u64 = v;
    let mut i: usize = 0;
    proof {
        assert(out@ =~= old(out)@ + le_bytes(v as nat, 0));
    }
    while i < width
        invariant
            i <= width,
            width <= 8,
            le_bytes(v as nat, width as nat) == le_bytes(v as nat, i as nat) + le_bytes(
                rest as nat,
                (width - i) as nat,
            ),
            out@ == old(out)@ + le_bytes(v as nat, i as nat),
        decreases width - i,
    {
        let byte: u8 = (rest % 256) as u8;
        out.push(byte);
        proof {
            let head = le_bytes(v as nat, i as nat);
            let tail = le_bytes(rest as nat, (width - i) as nat);
            let next = le_bytes((rest / 256) as nat, (width - i - 1) as nat);
            assert(tail =~= seq![byte] + next);
            lemma_le_bytes_split(v as nat, i as nat, width as nat);
            lemma_le_bytes_split(v as nat, (i + 1) as nat, width as nat);
            lemma_le_bytes_len(v as nat, i as nat);
            lemma_le_bytes_len(v as nat, (i + 1) as nat);
            let whole = le_bytes(v as nat, width as nat);
            assert(le_bytes(v as nat, (i + 1) as nat) =~= head.push(byte)) by {
                assert(whole.subrange(0, i as int) =~= head);
                assert(whole.subrange(0, i + 1) =~= le_bytes(v as nat, (i + 1) as nat));
                assert(whole[i as int] == byte);
            }
            assert(whole =~= le_bytes(v as nat, (i + 1) as nat) + next);
        }
        rest = rest / 256;
        i += 1;
    }
    proof {
        assert(le_bytes(rest as nat, 0) =~= Seq::<u8>::empty());
    }
}

/// The first `k` bytes of an encoding are the encoding in `k` bytes.
pub proof fn lemma_le_bytes_split(v: nat, k: nat, width: nat)
    requires
        k <= width,
    ensures
        le_bytes(v, width).subrange(0, k as int) == le_bytes(v, k),
    decreases k,
{
    lemma_le_bytes_len(v, width);
    if k == 0 {
        assert(le_bytes(v, width).subrange(0, 0) =~= le_bytes(v, 0));
    } else {
        lemma_le_bytes_split(v / 256, (k - 1) as nat, (width - 1) as nat);
        lemma_le_bytes_len(v / 256, (width - 1) as nat);
        lemma_le_bytes_len(v / 256, (k - 1) as nat);
        assert(le_bytes(v, width).subrange(0, k as int) =~= le_bytes(v, k));
    }
}

/// Appends `n` zero bytes to `out`.
pub fn push_zeros(out: &mut Vec<u8>, n: usize)
    ensures
        final(out)@ == old(out)@ + zeros(n as nat),
{
    let mut i: usize = 0;
    proof {
        assert(out@ =~= old(out)@ + zeros(0));
    }
    while i < n
        invariant
            i <= n,
            out@ == old(out)@ + zeros(i as nat),
        decreases n - i,
    {
        out.push(0);
        i += 1;
        proof {
            assert(out@ =~= old(out)@ + zeros(i as nat));
        }
    }
}

/// Appends the bytes `src` to `out`.
pub fn push_all(out: &mut Vec<u8>, src: &[u8])
    ensures
        final(out)@ == old(out)@ + src@,
{
    let mut i: usize = 0;
    proof {
        assert(out@ =~= old(out)@ + src@.subrange(0, 0));
    }
    while i < src.len()
        invariant
            i <= src.len(),
            out@ == old(out)@ + src@.subrange(0, i as int),
        decreases src.len() - i,
    {
        out.push(src[i]);
        i += 1;
        proof {
            assert(out@ =~= old(out)@ + src@.subrange(0, i as int));
        }
    }
    proof {
        assert(src@.subrange(0, src@.len() as int) =~= src@);
    }
}

/// Every power of 256 is positive.
pub proof fn lemma_pow256_positive(n: nat)
    ensures
        pow256(n) > 0,
    decreases n,
{
    if n > 0 {
        lemma_pow256_positive((n - 1) as nat);
    }
}

/// More bytes hold more values.
pub proof fn lemma_pow256_monotonic(a: nat, b: nat)
    requires
        a <= b,
    ensures
        pow256(a) <= pow256(b),
    decreases b,
{
    if a < b {
        lemma_pow256_monotonic(a, (b - 1) as nat);
        lemma_pow256_positive((b - 1) as nat);
    }
}

/// The encoding of `v` in `width` bytes.
pub fn le_encode(v: u64, width: usize) -> (r: Vec<u8>)
    requires
        width <= 8,
    ensures
        r@ == le_bytes(v as nat, width as nat),
{
    let mut out: Vec<u8> = Vec::new();
    push_le(&mut out, v, width);
    proof {
        assert(Seq::<u8>::empty() + le_bytes(v as nat, width as nat) =~= le_bytes(
            v as nat,
            width as nat,
        ));
    }
    out
}

} // verus!
