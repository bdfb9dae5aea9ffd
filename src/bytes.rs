use vstd::prelude::*;

verus! {

/// `256^i`, the weight of the byte at offset `i` in a little-endian number.
pub open spec fn pow256(i: nat) -> nat
    decreases i,
{
    if i == 0 {
        1
    } else {
        256 * pow256((i - 1) as nat)
    }
}

/// The `n` low bytes of `v`, least significant first.
pub open spec fn le_bytes(v: nat, n: nat) -> Seq<u8>
    decreases n,
{
    if n == 0 {
        Seq::empty()
    } else {
        seq![(v % 256) as u8] + le_bytes(v / 256, (n - 1) as nat)
    }
}

/// The number that the bytes `s` stand for, least significant first.
pub open spec fn le_value(s: Seq<u8>) -> nat
    decreases s.len(),
{
    if s.len() == 0 {
        0
    } else {
        s[0] as nat + 256 * le_value(s.drop_first())
    }
}

pub proof fn lemma_pow256_positive(i: nat)
    ensures
        pow256(i) >= 1,
    decreases i,
{
    if i > 0 {
        lemma_pow256_positive((i - 1) as nat);
    }
}

pub proof fn lemma_le_bytes_len(v: nat, n: nat)
    ensures
        le_bytes(v, n).len() == n,
    decreases n,
{
    if n > 0 {
        lemma_le_bytes_len(v / 256, (n - 1) as nat);
    }
}

/// Appending one more byte to the encoding of `v`.
pub proof fn lemma_le_bytes_snoc(v: nat, i: nat)
    ensures
        le_bytes(v, i + 1) == le_bytes(v, i) + seq![((v / pow256(i)) % 256) as u8],
    decreases i,
{
    if i == 0 {
        assert(pow256(0) == 1);
        assert(le_bytes(v, 0) + seq![((v / pow256(0)) % 256) as u8] =~= seq![(v % 256) as u8]);
        assert(le_bytes(v / 256, 0) =~= Seq::<u8>::empty());
        assert(le_bytes(v, 1) =~= seq![(v % 256) as u8]);
    } else {
        lemma_le_bytes_snoc(v / 256, (i - 1) as nat);
        lemma_pow256_positive((i - 1) as nat);
        vstd::arithmetic::div_mod::lemma_div_denominator(v as int, 256, pow256((i - 1) as nat) as int);
        assert(le_bytes(v, i + 1) =~= le_bytes(v, i) + seq![((v / pow256(i)) % 256) as u8]);
    }
}

/// A value below `256^n` is read back from its `n` bytes.
pub proof fn lemma_le_round_trip(v: nat, n: nat)
    requires
        v < pow256(n),
    ensures
        le_value(le_bytes(v, n)) == v,
    decreases n,
{
    lemma_le_bytes_len(v, n);
    if n > 0 {
        let s = le_bytes(v, n);
        assert(s.drop_first() =~= le_bytes(v / 256, (n - 1) as nat));
        lemma_le_round_trip(v / 256, (n - 1) as nat);
    }
}

/// Appends the `n` low bytes of `v` to `buf`, least significant first.
pub fn push_le(buf: &mut Vec<u8>, v: u64, n: usize)
    ensures
        final(buf)@ == old(buf)@ + le_bytes(v as nat, n as nat),
{
    let mut x: u64 = v;
    let mut i: usize = 0;
    proof {
        assert(pow256(0) == 1);
        assert(le_bytes(v as nat, 0) =~= Seq::<u8>::empty());
        assert(buf@ =~= old(buf)@ + le_bytes(v as nat, 0));
    }
    while i < n
        invariant
            i <= n,
            x as nat == v as nat / pow256(i as nat),
            buf@ == old(buf)@ + le_bytes(v as nat, i as nat),
        decreases n - i,
    {
        proof {
            lemma_le_bytes_snoc(v as nat, i as nat);
            lemma_pow256_positive(i as nat);
            vstd::arithmetic::div_mod::lemma_div_denominator(v as int, pow256(i as nat) as int, 256);
            assert(pow256((i + 1) as nat) == 256 * pow256(i as nat));
        }
        buf.push((x % 256) as u8);
        x = x / 256;
        i = i + 1;
        proof {
            assert(buf@ =~= old(buf)@ + le_bytes(v as nat, i as nat));
        }
    }
}

/// Reads the little-endian number held by `s[start..start + n]`.
pub fn read_le(s: &[u8], start: usize, n: usize) -> (r: u64)
    requires
        n <= 8,
        start + n <= s@.len(),
    ensures
        r as nat == le_value(s@.subrange(start as int, start + n)),
{
    let len = s.len();
    let mut acc: u64 = 0;
    let mut i: usize = n;
    proof {
        assert(s@.subrange(start + n, start + n) =~= Seq::<u8>::empty());
    }
    while i > 0
        invariant
            i <= n <= 8,
            start + n <= s@.len(),
            len == s@.len(),
            acc as nat == le_value(s@.subrange(start + i, start + n)),
            (acc as nat) < pow256((n - i) as nat),
        decreases i,
    {
        let ghost old_acc = acc;
        let ghost tail = s@.subrange(start + i, start + n);
        let ghost sub = s@.subrange(start + i - 1, start + n);
        proof {
            assert(sub.drop_first() =~= tail);
            assert(pow256((n - i + 1) as nat) == 256 * pow256((n - i) as nat));
            lemma_pow256_le_8((n - i) as nat);
        }
        acc = (s[start + (i - 1)] as u64) + 256 * acc;
        i = i - 1;
    }
    proof {
        assert(s@.subrange(start as int, start + n) =~= s@.subrange(start + 0, start + n));
    }
    acc
}

proof fn lemma_pow256_le_8(i: nat)
    requires
        i < 8,
    ensures
        256 * pow256(i) <= 0x1_0000_0000_0000_0000,
{
    reveal_with_fuel(pow256, 9);
}

} // verus!
