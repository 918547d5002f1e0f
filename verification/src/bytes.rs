//! Little-endian reading of bytes into machine words.
use vstd::prelude::*;

verus! {

/// `256^n`.
pub open spec fn pow256(n: nat) -> nat
    decreases n,
{
    if n == 0 {
        1
    } else {
        256 * pow256((n - 1) as nat)
    }
}

/// The number whose little-endian base-256 digits are `s`.
pub open spec fn le_value(s: Seq<u8>) -> nat
    decreases s.len(),
{
    if s.len() == 0 {
        0
    } else {
        s[0] as nat + 256 * le_value(s.drop_first())
    }
}

/// A little-endian number of `n` digits is below `256^n`.
pub proof fn lemma_le_value_bound(s: Seq<u8>)
    ensures
        le_value(s) < pow256(s.len()),
    decreases s.len(),
{
    if s.len() > 0 {
        lemma_le_value_bound(s.drop_first());
    }
}

/// Prepending a digit: `le(b :: s) == b + 256 * le(s)`.
pub proof fn lemma_le_value_prepend(b: u8, s: Seq<u8>)
    ensures
        le_value(seq![b] + s) == b + 256 * le_value(s),
{
    assert((seq![b] + s).drop_first() =~= s);
}

/// The words of eight bytes are exactly the values below `2^64`.
pub proof fn lemma_pow256_8()
    ensures
        pow256(8) == 0x1_0000_0000_0000_0000,
        pow256(7) == 0x100_0000_0000_0000,
{
    reveal_with_fuel(pow256, 9);
}

/// The little-endian value of `bytes[start..end]`, for a range of at most eight
/// bytes: the word that `u64::from_le_bytes` gives for that range padded with
/// zeros to eight bytes.
pub fn le_word(bytes: &[u8], start: usize, end: usize) -> (r: u64)
    requires
        start <= end <= bytes@.len(),
        end - start <= 8,
    ensures
        r == le_value(bytes@.subrange(start as int, end as int)),
{
    let mut acc: u64 = 0;
    let mut k: usize = end;
    proof {
        assert(bytes@.subrange(end as int, end as int) =~= Seq::<u8>::empty());
    }
    while k > start
        invariant
            start <= k <= end <= bytes@.len(),
            end - start <= 8,
            acc == le_value(bytes@.subrange(k as int, end as int)),
        decreases k - start,
    {
        let ghost old_k = k;
        k = k - 1;
        proof {
            let tail = bytes@.subrange(old_k as int, end as int);
            lemma_le_value_bound(tail);
            assert(tail.len() <= 7);
            lemma_pow256_monotone(tail.len(), 7);
            lemma_pow256_8();
            assert(bytes@.subrange(k as int, end as int) =~= seq![bytes@[k as int]] + tail);
            lemma_le_value_prepend(bytes@[k as int], tail);
        }
        acc = bytes[k] as u64 + 256 * acc;
    }
    acc
}

/// `256^m <= 256^n` when `m <= n`.
pub proof fn lemma_pow256_monotone(m: nat, n: nat)
    requires
        m <= n,
    ensures
        pow256(m) <= pow256(n),
    decreases n,
{
    if m < n {
        lemma_pow256_monotone(m, (n - 1) as nat);
    }
}

/// The number of eight-byte chunks that `n` bytes fall into, the last one
/// possibly short.
pub open spec fn chunk_count(n: nat) -> nat {
    (n + 7) / 8
}

/// The `i`-th chunk of at most eight bytes of `s`.
pub open spec fn chunk(s: Seq<u8>, i: int) -> Seq<u8> {
    let end = if 8 * i + 8 <= s.len() { 8 * i + 8 } else { s.len() as int };
    s.subrange(8 * i, end)
}

/// `c` followed by zeros up to eight bytes.
pub open spec fn pad8(c: Seq<u8>) -> Seq<u8> {
    c + Seq::new((8 - c.len()) as nat, |j: int| 0u8)
}

/// Zeros appended at the high end leave a little-endian number unchanged.
pub proof fn lemma_le_value_zero_extend(c: Seq<u8>, n: nat)
    ensures
        le_value(c + Seq::new(n, |j: int| 0u8)) == le_value(c),
    decreases c.len() + n,
{
    let z = Seq::new(n, |j: int| 0u8);
    if c.len() == 0 {
        assert(c + z =~= z);
        if n > 0 {
            let z1 = Seq::new((n - 1) as nat, |j: int| 0u8);
            assert(z.drop_first() =~= Seq::<u8>::empty() + z1);
            lemma_le_value_zero_extend(Seq::<u8>::empty(), (n - 1) as nat);
        }
    } else {
        assert((c + z).drop_first() =~= c.drop_first() + z);
        lemma_le_value_zero_extend(c.drop_first(), n);
    }
}

/// Padding keeps the chunk's bytes in front and fills the rest of the eight
/// bytes with zeros, whatever the chunk's bytes are; so the padded chunk reads
/// as the same little-endian number as the chunk itself.
pub proof fn law_pad8_fills_with_zeros(c: Seq<u8>)
    requires
        c.len() <= 8,
    ensures
        pad8(c).len() == 8,
        forall|j: int| 0 <= j < c.len() ==> #[trigger] pad8(c)[j] == c[j],
        forall|j: int| c.len() <= j < 8 ==> #[trigger] pad8(c)[j] == 0u8,
        le_value(pad8(c)) == le_value(c),
{
    lemma_le_value_zero_extend(c, (8 - c.len()) as nat);
}

/// Chunking is compositional: when `a` is a whole number of chunks, the chunks
/// of `a + b` are the chunks of `a` followed by the chunks of `b`.
pub proof fn law_chunks_of_concat(a: Seq<u8>, b: Seq<u8>)
    requires
        a.len() % 8 == 0,
    ensures
        chunk_count((a + b).len()) == chunk_count(a.len()) + chunk_count(b.len()),
        forall|i: int| 0 <= i < chunk_count(a.len()) ==> #[trigger] chunk(a + b, i) == chunk(a, i),
        forall|i: int|
            chunk_count(a.len()) <= i < chunk_count((a + b).len()) ==> #[trigger] chunk(a + b, i)
                == chunk(b, i - chunk_count(a.len())),
{
    let ca = chunk_count(a.len());
    assert(ca * 8 == a.len());
    assert forall|i: int| 0 <= i < ca implies #[trigger] chunk(a + b, i) == chunk(a, i) by {
        assert(chunk(a + b, i) =~= chunk(a, i));
    }
    assert forall|i: int| ca <= i < chunk_count((a + b).len()) implies #[trigger] chunk(a + b, i)
        == chunk(b, i - ca) by {
        assert(chunk(a + b, i) =~= chunk(b, i - ca));
    }
}

} // verus!
