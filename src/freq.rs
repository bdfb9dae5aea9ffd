use vstd::prelude::*;
use vstd::arithmetic::power2::{pow2, lemma_pow2_unfold, lemma_pow2_adds, lemma_pow2_pos, lemma2_to64};

verus! {

/// `floor(log2(n))` for a positive `n` (and 0 for 0 and 1).
pub open spec fn log2_floor(n: nat) -> nat
    decreases n,
{
    if n < 2 {
        0
    } else {
        1 + log2_floor(n / 2)
    }
}

/// The IEEE 754 double-precision bit pattern of the integer `n`, rounded to
/// the nearest representable value, ties to an even significand.
pub open spec fn f64_bits(n: nat) -> int {
    if n == 0 {
        0
    } else {
        let e = log2_floor(n);
        if e <= 52 {
            (1023 + e) * pow2(52) + (n * pow2((52 - e) as nat) - pow2(52))
        } else {
            let d = pow2((e - 52) as nat);
            let m = n / d;
            let r = n % d;
            let h = d / 2;
            let m2 = if r > h || (r == h && m % 2 == 1) {
                m + 1
            } else {
                m
            };
            if m2 == pow2(53) {
                ((1024 + e) * pow2(52)) as int
            } else {
                (1023 + e) * pow2(52) + (m2 - pow2(52))
            }
        }
    }
}

proof fn lemma_log2_floor(n: nat, e: nat)
    requires
        pow2(e) <= n < 2 * pow2(e),
    ensures
        log2_floor(n) == e,
    decreases e,
{
    if e == 0 {
        lemma2_to64();
    } else {
        lemma_pow2_unfold(e);
        lemma_log2_floor(n / 2, (e - 1) as nat);
    }
}

/// The bit pattern of `n` read as a double-precision float.
pub fn f64_bits_of_u64(n: u64) -> (r: u64)
    ensures
        r as int == f64_bits(n as nat),
{
    if n == 0 {
        return 0;
    }
    // the exponent: 2^e <= n < 2^(e + 1)
    let mut p: u64 = 1;
    let mut e: u64 = 0;
    proof {
        lemma2_to64();
    }
    while p <= n / 2
        invariant
            1 <= p <= n,
            p as nat == pow2(e as nat),
            e < 64,
        decreases n - p,
    {
        proof {
            lemma_pow2_unfold((e + 1) as nat);
            if e + 1 >= 64 {
                vstd::arithmetic::power2::lemma_pow2_strictly_increases(63, (e + 1) as nat);
                vstd::arithmetic::power2::lemma2_to64_rest();
            }
        }
        p = p * 2;
        e = e + 1;
    }
    proof {
        lemma_log2_floor(n as nat, e as nat);
        lemma2_to64();
        vstd::arithmetic::power2::lemma2_to64_rest();
        lemma_pow2_pos(e as nat);
    }
    let two52: u64 = 0x10_0000_0000_0000;
    if e <= 52 {
        // exact: shift the significand up to 53 bits
        let mut q: u64 = 1;
        let mut k: u64 = 0;
        proof {
            lemma_pow2_adds(0, e as nat);
        }
        while k < 52 - e
            invariant
                k <= 52 - e,
                e <= 52,
                two52 as nat == pow2(52),
                q as nat == pow2(k as nat),
                q >= 1,
                p as nat == pow2(e as nat),
                q * p == pow2((k + e) as nat),
            decreases 52 - e - k,
        {
            proof {
                lemma_pow2_unfold((k + 1) as nat);
                lemma_pow2_adds((k + 1) as nat, e as nat);
                lemma_pow2_pos((k + 1) as nat);
                if k + 1 < 52 {
                    vstd::arithmetic::power2::lemma_pow2_strictly_increases((k + 1) as nat, 52);
                }
                assert(q * 2 <= two52);
            }
            q = q * 2;
            k = k + 1;
        }
        proof {
            assert(q * p == two52);
            assert(n * q < 2 * two52) by (nonlinear_arith)
                requires
                    n < 2 * p,
                    q * p == two52,
                    q >= 1,
            ;
            assert(n * q >= two52) by (nonlinear_arith)
                requires
                    n >= p,
                    q * p == two52,
                    q >= 1,
            ;
        }
        (1023 + e) * two52 + (n * q - two52)
    } else {
        // drop e - 52 low bits, rounding to nearest, ties to even
        let d: u64 = p / two52;
        proof {
            lemma_pow2_adds(52, (e - 52) as nat);
            lemma_pow2_pos((e - 52) as nat);
            assert(two52 == pow2(52));
            assert(d as nat == pow2((e - 52) as nat)) by {
                vstd::arithmetic::div_mod::lemma_div_multiples_vanish(
                    pow2((e - 52) as nat) as int,
                    two52 as int,
                );
            };
        }
        let m: u64 = n / d;
        let r: u64 = n % d;
        let h: u64 = d / 2;
        proof {
            assert(p == two52 * d);
            vstd::arithmetic::div_mod::lemma_fundamental_div_mod(n as int, d as int);
            assert(m >= two52 && m < 2 * two52) by (nonlinear_arith)
                requires
                    n == d * m + r,
                    0 <= r < d,
                    two52 * d <= n,
                    n < 2 * (two52 * d),
            ;
        }
        let m2: u64 = if r > h || (r == h && m % 2 == 1) {
            m + 1
        } else {
            m
        };
        if m2 == 2 * two52 {
            (1024 + e) * two52
        } else {
            (1023 + e) * two52 + (m2 - two52)
        }
    }
}

} // verus!
