//! Decimal and hexadecimal rendering of integers, as `{}`, `{:#x}` and
//! `{:#010x}` print them.
use vstd::prelude::*;
use crate::text::push_char;

verus! {

/// The digit character for `d` in base 16 (lower case).
pub open spec fn digit(d: nat) -> char {
    if d == 0 { '0' }
    else if d == 1 { '1' }
    else if d == 2 { '2' }
    else if d == 3 { '3' }
    else if d == 4 { '4' }
    else if d == 5 { '5' }
    else if d == 6 { '6' }
    else if d == 7 { '7' }
    else if d == 8 { '8' }
    else if d == 9 { '9' }
    else if d == 10 { 'a' }
    else if d == 11 { 'b' }
    else if d == 12 { 'c' }
    else if d == 13 { 'd' }
    else if d == 14 { 'e' }
    else { 'f' }
}

pub fn digit_char(d: u64) -> (c: char)
    requires
        d < 16,
    ensures
        c == digit(d as nat),
{
    if d == 0 { '0' }
    else if d == 1 { '1' }
    else if d == 2 { '2' }
    else if d == 3 { '3' }
    else if d == 4 { '4' }
    else if d == 5 { '5' }
    else if d == 6 { '6' }
    else if d == 7 { '7' }
    else if d == 8 { '8' }
    else if d == 9 { '9' }
    else if d == 10 { 'a' }
    else if d == 11 { 'b' }
    else if d == 12 { 'c' }
    else if d == 13 { 'd' }
    else if d == 14 { 'e' }
    else { 'f' }
}

/// Decimal digits of `n`, without leading zeros.
pub open spec fn dec(n: nat) -> Seq<char>
    decreases n,
{
    if n < 10 {
        seq![digit(n)]
    } else {
        dec(n / 10).push(digit(n % 10))
    }
}

/// Decimal rendering of a signed integer.
pub open spec fn dec_int(i: int) -> Seq<char> {
    if i < 0 {
        seq!['-'] + dec((-i) as nat)
    } else {
        dec(i as nat)
    }
}

/// Lower-case hexadecimal digits of `n`, without leading zeros.
pub open spec fn hex(n: nat) -> Seq<char>
    decreases n,
{
    if n < 16 {
        seq![digit(n)]
    } else {
        hex(n / 16).push(digit(n % 16))
    }
}

/// `{:#x}`.
pub open spec fn hex_alt(n: nat) -> Seq<char> {
    seq!['0', 'x'] + hex(n)
}

/// `n` zero characters.
pub open spec fn zeros(n: nat) -> Seq<char> {
    Seq::new(n, |i: int| '0')
}

/// `{:#010x}`: `0x` and at least eight hexadecimal digits.
pub open spec fn hex_alt_08(n: nat) -> Seq<char> {
    let h = hex(n);
    seq!['0', 'x'] + zeros(if h.len() < 8 { (8 - h.len()) as nat } else { 0 }) + h
}

pub proof fn lemma_hex_len_u32(n: nat)
    ensures
        hex(n).len() >= 1,
        n < 0x1_0000_0000 ==> hex(n).len() <= 8,
{
    reveal_with_fuel(pow16, 9);
    assert(pow16(8) == 0x1_0000_0000);
    if n < 0x1_0000_0000 {
        lemma_hex_len_k(n, 8);
    }
    lemma_hex_len_pos(n);
}

proof fn lemma_hex_len_pos(n: nat)
    ensures
        hex(n).len() >= 1,
    decreases n,
{
    if n >= 16 {
        lemma_hex_len_pos(n / 16);
    }
}

proof fn lemma_hex_len_k(n: nat, k: nat)
    requires
        k >= 1,
        n < pow16(k),
    ensures
        hex(n).len() <= k,
    decreases n,
{
    if n >= 16 {
        if k == 1 {
            assert(pow16(1) == 16 * pow16(0));
        } else {
            assert(n / 16 < pow16((k - 1) as nat));
            lemma_hex_len_k(n / 16, (k - 1) as nat);
        }
    }
}

spec fn pow16(k: nat) -> nat
    decreases k,
{
    if k == 0 { 1 } else { 16 * pow16((k - 1) as nat) }
}

/// Appends the decimal digits of `n`.
pub fn push_dec(s: &mut String, n: u64)
    ensures
        final(s)@ == old(s)@ + dec(n as nat),
    decreases n,
{
    if n >= 10 {
        push_dec(s, n / 10);
    }
    push_char(s, digit_char(n % 10));
    proof {
        if n < 10 {
            assert(old(s)@ + dec(n as nat) =~= old(s)@.push(digit(n as nat)));
        } else {
            assert((old(s)@ + dec((n / 10) as nat)).push(digit((n % 10) as nat)) =~= old(s)@ + dec(
                n as nat,
            ));
        }
    }
}

/// Appends the decimal rendering of a signed integer.
pub fn push_dec_i64(s: &mut String, i: i64)
    ensures
        final(s)@ == old(s)@ + dec_int(i as int),
{
    if i < 0 {
        push_char(s, '-');
        let m: u64 = (-(i as i128)) as u64;
        push_dec(s, m);
        assert(old(s)@.push('-') + dec(m as nat) =~= old(s)@ + (seq!['-'] + dec(m as nat)));
    } else {
        push_dec(s, i as u64);
    }
}

/// Appends the hexadecimal digits of `n`.
pub fn push_hex(s: &mut String, n: u64)
    ensures
        final(s)@ == old(s)@ + hex(n as nat),
    decreases n,
{
    if n >= 16 {
        push_hex(s, n / 16);
    }
    push_char(s, digit_char(n % 16));
    proof {
        if n < 16 {
            assert(old(s)@ + hex(n as nat) =~= old(s)@.push(digit(n as nat)));
        } else {
            assert((old(s)@ + hex((n / 16) as nat)).push(digit((n % 16) as nat)) =~= old(s)@ + hex(
                n as nat,
            ));
        }
    }
}

/// Decimal rendering of an unsigned integer as a new string.
pub fn dec_string(n: u64) -> (s: String)
    ensures
        s@ == dec(n as nat),
{
    let mut s = String::new();
    push_dec(&mut s, n);
    assert(Seq::<char>::empty() + dec(n as nat) =~= dec(n as nat));
    s
}

/// Appends `{:#x}` of `n`.
pub fn push_hex_alt(s: &mut String, n: u64)
    ensures
        final(s)@ == old(s)@ + hex_alt(n as nat),
{
    push_char(s, '0');
    push_char(s, 'x');
    push_hex(s, n);
    assert(old(s)@.push('0').push('x') + hex(n as nat) =~= old(s)@ + hex_alt(n as nat));
}

/// Appends `{:#010x}` of a 32-bit value.
pub fn push_hex_alt_08(s: &mut String, n: u32)
    ensures
        final(s)@ == old(s)@ + hex_alt_08(n as nat),
{
    let mut h = String::new();
    push_hex(&mut h, n as u64);
    proof {
        lemma_hex_len_u32(n as nat);
        assert(Seq::<char>::empty() + hex(n as nat) =~= hex(n as nat));
    }
    let len = h.as_str().unicode_len();
    push_char(s, '0');
    push_char(s, 'x');
    let ghost start = s@;
    let mut k: usize = len;
    while k < 8
        invariant
            len <= k <= 8 || (len > 8 && k == len),
            len == hex(n as nat).len(),
            len <= 8,
            s@ == start + zeros((k - len) as nat),
        decreases 8 - k,
    {
        push_char(s, '0');
        assert(start + zeros((k - len) as nat) + seq!['0'] =~= start + zeros((k + 1 - len) as nat));
        assert((start + zeros((k - len) as nat)).push('0') =~= start + zeros((k + 1 - len) as nat));
        k = k + 1;
    }
    s.append(h.as_str());
    assert(start == old(s)@.push('0').push('x'));
    assert(s@ =~= old(s)@ + hex_alt_08(n as nat));
}

/// Appends the decimal digits of a 128-bit `n`.
pub fn push_dec_u128(s: &mut String, n: u128)
    ensures
        final(s)@ == old(s)@ + dec(n as nat),
    decreases n,
{
    if n >= 10 {
        push_dec_u128(s, n / 10);
    }
    push_char(s, digit_char((n % 10) as u64));
    proof {
        if n < 10 {
            assert(old(s)@ + dec(n as nat) =~= old(s)@.push(digit(n as nat)));
        } else {
            assert((old(s)@ + dec((n / 10) as nat)).push(digit((n % 10) as nat)) =~= old(s)@ + dec(
                n as nat,
            ));
        }
    }
}

/// Appends the decimal rendering of a 128-bit signed integer (not the
/// minimum).
pub fn push_dec_i128(s: &mut String, i: i128)
    requires
        i > i128::MIN,
    ensures
        final(s)@ == old(s)@ + dec_int(i as int),
{
    if i < 0 {
        push_char(s, '-');
        let m: u128 = (0 - i) as u128;
        push_dec_u128(s, m);
        assert(old(s)@.push('-') + dec(m as nat) =~= old(s)@ + (seq!['-'] + dec(m as nat)));
    } else {
        push_dec_u128(s, i as u128);
    }
}

} // verus!
