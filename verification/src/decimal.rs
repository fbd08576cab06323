//! A quotient of two integers as a double-precision number would hold it,
//! printed with one decimal as `{:.1}` prints it: the quotient is rounded to
//! 53 significant bits (to nearest, ties to even), and that binary value is
//! rounded to tenths (to nearest, ties to even). Computed with integers only.
use vstd::prelude::*;
use crate::num::{dec, digit, digit_char, push_dec_u128};
use crate::text::push_char;

verus! {

pub open spec fn pow2(k: nat) -> nat
    decreases k,
{
    if k == 0 {
        1
    } else {
        2 * pow2((k - 1) as nat)
    }
}

/// `x / y` rounded to the nearest integer, ties to even.
pub open spec fn round_even(x: nat, y: nat) -> nat {
    let q = x / y;
    let r = x % y;
    if 2 * r > y || (2 * r == y && q % 2 == 1) {
        q + 1
    } else {
        q
    }
}

/// The number of bits by which `a / b` is scaled so that its integer part
/// has 53 bits: the least `k` from `j` on with `a * 2^k >= 2^52 * b`.
pub open spec fn scale_from(a: nat, b: nat, j: nat) -> nat
    decreases 128 - j,
{
    if j >= 128 || a * pow2(j) >= pow2(52) * b {
        j
    } else {
        scale_from(a, b, j + 1)
    }
}

/// `a / b` as a double: `q / 2^k` with `q` its rounded 53-bit significand.
pub open spec fn double_div(a: nat, b: nat) -> (nat, nat) {
    if a == 0 {
        (0, 0)
    } else {
        let k = scale_from(a, b, 0);
        (round_even(a * pow2(k), b), k)
    }
}

/// `a / b` as a double, in tenths, rounded as `{:.1}` rounds.
pub open spec fn tenths(a: nat, b: nat) -> nat {
    let (q, k) = double_div(a, b);
    round_even(10 * q, pow2(k))
}

/// `{:.1}` of `a / b` computed in double precision (`b` not 0).
pub open spec fn fixed1(a: nat, b: nat) -> Seq<char> {
    let n = tenths(a, b);
    dec(n / 10) + seq!['.', digit(n % 10)]
}

/// `{:.1}` of `s / 100` computed in double precision.
pub open spec fn fixed1_hundredths(s: int) -> Seq<char> {
    if s < 0 {
        seq!['-'] + fixed1((-s) as nat, 100)
    } else {
        fixed1(s as nat, 100)
    }
}

proof fn lemma_pow2_pos(k: nat)
    ensures
        pow2(k) >= 1,
    decreases k,
{
    if k > 0 {
        lemma_pow2_pos((k - 1) as nat);
    }
}

proof fn lemma_pow2_mono(j: nat, k: nat)
    requires
        j <= k,
    ensures
        pow2(j) <= pow2(k),
    decreases k,
{
    if j < k {
        lemma_pow2_mono(j, (k - 1) as nat);
    }
}

proof fn lemma_pow2_add(a: nat, b: nat)
    ensures
        pow2(a + b) == pow2(a) * pow2(b),
    decreases b,
{
    if b == 0 {
        assert(pow2(0) == 1);
        assert(a + b == a);
    } else {
        let b1: nat = (b - 1) as nat;
        let s1: nat = a + b1;
        lemma_pow2_add(a, b1);
        assert(a + b == s1 + 1);
        assert(pow2(s1 + 1) == 2 * pow2(s1));
        assert(pow2(b1 + 1) == 2 * pow2(b1));
        assert(b == b1 + 1);
        assert(pow2(a) * (2 * pow2(b1)) == 2 * (pow2(a) * pow2(b1))) by (nonlinear_arith);
    }
}

/// The powers of two that bound the computations below.
proof fn lemma_pow2_values()
    ensures
        pow2(52) == 0x10000000000000,
        pow2(120) == 0x1000000000000000000000000000000,
        pow2(121) == 0x2000000000000000000000000000000,
{
    assert(pow2(4) == 16) by {
        reveal_with_fuel(pow2, 5);
    }
    lemma_pow2_add(4, 4);
    assert(pow2(8) == 256);
    lemma_pow2_add(8, 8);
    assert(pow2(16) == 65536);
    lemma_pow2_add(16, 16);
    assert(pow2(32) == 0x100000000);
    lemma_pow2_add(32, 16);
    assert(pow2(48) == 0x1000000000000);
    lemma_pow2_add(48, 4);
    assert(pow2(52) == 0x10000000000000);
    lemma_pow2_add(32, 32);
    assert(pow2(64) == 0x10000000000000000);
    lemma_pow2_add(64, 52);
    assert(pow2(116) == 0x100000000000000000000000000000);
    lemma_pow2_add(116, 4);
    assert(pow2(120) == 0x1000000000000000000000000000000);
    lemma_pow2_add(120, 1);
    assert(pow2(1) == 2) by {
        reveal_with_fuel(pow2, 2);
    }
}

fn pow2_exec(k: u32) -> (p: u128)
    requires
        k <= 120,
    ensures
        p == pow2(k as nat),
{
    let mut p: u128 = 1;
    let mut i: u32 = 0;
    proof {
        lemma_pow2_values();
    }
    while i < k
        invariant
            i <= k <= 120,
            p == pow2(i as nat),
            pow2(120) == 0x1000000000000000000000000000000,
        decreases k - i,
    {
        proof {
            lemma_pow2_mono((i + 1) as nat, 120);
        }
        p = p * 2;
        i = i + 1;
    }
    p
}

fn round_even_exec(x: u128, y: u128) -> (r: u128)
    requires
        y > 0,
        x < 0x80000000000000000000000000000000,
    ensures
        r == round_even(x as nat, y as nat),
        r <= x + 1,
{
    let q = x / y;
    let r = x % y;
    assert(q <= x) by (nonlinear_arith)
        requires
            y > 0,
            q == x / y,
    ;
    if r > y - r || (r == y - r && q % 2 == 1) {
        q + 1
    } else {
        q
    }
}

/// `{:.1}` of `a / b` computed in double precision, appended to `s`.
pub fn push_fixed1(s: &mut String, a: u128, b: u64)
    requires
        b > 0,
        a <= 0x800000000000000000,
    ensures
        final(s)@ == old(s)@ + fixed1(a as nat, b as nat),
{
    let mut n: u128 = 0;
    proof {
        lemma_pow2_values();
    }
    if a > 0 {
        let bb = b as u128;
        let lim: u128 = 0x10000000000000 * bb;
        assert(lim < 0x100000000000000000000000000000) by (nonlinear_arith)
            requires
                lim == 0x10000000000000 * bb,
                bb < 0x10000000000000000,
        ;
        let mut x: u128 = a;
        let mut k: u32 = 0;
        assert(pow2(0) == 1);
        assert(a * pow2(0) == a);
        while x < lim && k < 128
            invariant
                0 < a <= 0x800000000000000000,
                bb == b,
                bb > 0,
                lim == pow2(52) * bb,
                lim < 0x100000000000000000000000000000,
                k <= 128,
                x == a * pow2(k as nat),
                x < 0x200000000000000000000000000000,
                scale_from(a as nat, b as nat, 0) == scale_from(a as nat, b as nat, k as nat),
            decreases 128 - k,
        {
            proof {
                assert(pow2((k + 1) as nat) == 2 * pow2(k as nat));
                assert(a * pow2((k + 1) as nat) == 2 * (a * pow2(k as nat))) by (nonlinear_arith)
                    requires
                        pow2((k + 1) as nat) == 2 * pow2(k as nat),
                ;
            }
            x = x * 2;
            k = k + 1;
        }
        proof {
            assert(scale_from(a as nat, b as nat, k as nat) == k);
            if k > 120 {
                lemma_pow2_mono(121, k as nat);
                assert(a * pow2(k as nat) >= pow2(k as nat)) by (nonlinear_arith)
                    requires
                        a >= 1,
                ;
            }
        }
        let q = round_even_exec(x, bb);
        let p = pow2_exec(k);
        proof {
            lemma_pow2_pos(k as nat);
        }
        n = round_even_exec(10 * q, p);
    }
    push_dec_u128(s, n / 10);
    push_char(s, '.');
    push_char(s, digit_char((n % 10) as u64));
    assert(s@ =~= old(s)@ + fixed1(a as nat, b as nat));
}

/// `{:.1}` of `v / 100` computed in double precision, appended to `s`.
pub fn push_fixed1_hundredths(s: &mut String, v: i32)
    ensures
        final(s)@ == old(s)@ + fixed1_hundredths(v as int),
{
    if v < 0 {
        push_char(s, '-');
        let m: u128 = (0 - (v as i64)) as u128;
        push_fixed1(s, m, 100);
        assert(s@ =~= old(s)@ + fixed1_hundredths(v as int));
    } else {
        push_fixed1(s, v as u128, 100);
    }
}

} // verus!
