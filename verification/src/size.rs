//! File sizes for display, with one decimal and a binary unit.
//!
//! A size is turned into a double-precision number, divided by 1024 until it
//! is below 1024 (at most up to petabytes, beyond that exabytes), and printed
//! with one decimal. The functions here compute that text exactly with
//! integers: the nearest double of an integer is a multiple of a power of
//! two, dividing it by 1024 is exact, and printing with one decimal rounds
//! to the nearest tenth, ties to an even last digit.
use vstd::prelude::*;
use vstd::arithmetic::div_mod::*;
use crate::text::{decimal, decimal_chars, digit_char, digit_to_char, string_from_chars};

verus! {

/// 2^53: below it every integer is a double.
pub open spec fn mantissa_limit() -> nat {
    0x20_0000_0000_0000
}

/// The power of two that the nearest double to `n` is a multiple of: the
/// smallest one that brings `n` below 2^53.
pub open spec fn f64_scale(n: nat) -> nat
    decreases n,
{
    if n < mantissa_limit() {
        1
    } else {
        2 * f64_scale(n / 2)
    }
}

/// `a / b` rounded to the nearest integer, a tie to the even one.
pub open spec fn div_round_half_even(a: nat, b: nat) -> nat {
    let q = a / b;
    let rem = a % b;
    if 2 * rem > b || (2 * rem == b && q % 2 == 1) {
        q + 1
    } else {
        q
    }
}

/// The value of the double nearest to `n` (ties to even), as `n as f64` gives it.
pub open spec fn nearest_f64(n: nat) -> nat {
    div_round_half_even(n, f64_scale(n)) * f64_scale(n)
}

/// 1024 to the power `k`.
pub open spec fn unit_scale(k: nat) -> nat {
    if k == 0 {
        1
    } else if k == 1 {
        0x400
    } else if k == 2 {
        0x10_0000
    } else if k == 3 {
        0x4000_0000
    } else if k == 4 {
        0x100_0000_0000
    } else if k == 5 {
        0x4_0000_0000_0000
    } else {
        0x1000_0000_0000_0000
    }
}

/// The unit that a value `v` is shown in: the first of B, KB, MB, GB, TB and
/// PB in which it is below 1024, else EB.
pub open spec fn unit_index(v: nat) -> nat {
    if v < unit_scale(1) {
        0
    } else if v < unit_scale(2) {
        1
    } else if v < unit_scale(3) {
        2
    } else if v < unit_scale(4) {
        3
    } else if v < unit_scale(5) {
        4
    } else if v < unit_scale(6) {
        5
    } else {
        6
    }
}

/// The name of unit `k`.
pub open spec fn unit_name(k: nat) -> Seq<char> {
    if k == 0 {
        seq!['B']
    } else if k == 1 {
        seq!['K', 'B']
    } else if k == 2 {
        seq!['M', 'B']
    } else if k == 3 {
        seq!['G', 'B']
    } else if k == 4 {
        seq!['T', 'B']
    } else if k == 5 {
        seq!['P', 'B']
    } else {
        seq!['E', 'B']
    }
}

/// A number of tenths written with one decimal, such as "1.5".
pub open spec fn one_decimal(tenths: nat) -> Seq<char> {
    decimal(tenths / 10) + seq!['.', digit_char(tenths % 10)]
}

/// The text that shows a size of `n` bytes.
pub open spec fn human_size_text(n: nat) -> Seq<char> {
    if n == 0 {
        seq!['0', ' ', 'B']
    } else {
        let v = nearest_f64(n);
        let k = unit_index(v);
        one_decimal(div_round_half_even(10 * v, unit_scale(k))) + seq![' '] + unit_name(k)
    }
}

proof fn lemma_scale_step(n: nat, p: nat)
    requires
        p > 0,
        n / p >= mantissa_limit(),
    ensures
        (n / p) / 2 == n / (p * 2),
        p * f64_scale(n / p) == (p * 2) * f64_scale(n / (p * 2)),
        p <= n,
{
    lemma_div_denominator(n as int, p as int, 2);
    let s = f64_scale(n / (p * 2));
    assert(f64_scale(n / p) == 2 * s);
    assert(p * (2 * s) == (p * 2) * s) by (nonlinear_arith);
    if p > n {
        lemma_basic_div(n as int, p as int);
    }
}

fn div_round_half_even_exec(a: u128, b: u128) -> (res: u128)
    requires
        0 < b < 0x1_0000_0000_0000_0000_0000_0000,
        a < 0x1_0000_0000_0000_0000_0000_0000,
    ensures
        res == div_round_half_even(a as nat, b as nat),
{
    let q = a / b;
    let rem = a % b;
    assert(rem < b);
    if 2 * rem > b || (2 * rem == b && q % 2 == 1) {
        assert(q <= a) by {
            lemma_div_nonincreasing(a as int, b as int);
        }
        q + 1
    } else {
        q
    }
}

/// The value of `n as f64`, computed with integers.
fn nearest_f64_exec(n: u64) -> (res: u128)
    ensures
        res == nearest_f64(n as nat),
        res <= 0x2_0000_0000_0000_0000,
{
    let nn = n as u128;
    let mut p: u128 = 1;
    while nn / p >= 0x20_0000_0000_0000
        invariant
            nn == n as u128,
            p > 0,
            p <= nn + 1,
            f64_scale(nn as nat) == p * f64_scale((nn / p) as nat),
        decreases nn + 1 - p,
    {
        proof {
            lemma_scale_step(nn as nat, p as nat);
        }
        assert(p * 2 <= nn + 1) by {
            lemma_div_denominator(nn as int, p as int, 2);
            lemma_div_non_zero(nn as int / p as int, 2);
            if p * 2 > nn {
                lemma_basic_div(nn as int, (p * 2) as int);
            }
        }
        p = p * 2;
    }
    let ghost rest = f64_scale((nn / p) as nat);
    assert(rest == 1);
    assert(p * rest == p) by (nonlinear_arith)
        requires rest == 1;
    assert(f64_scale(nn as nat) == p);
    let q = div_round_half_even_exec(nn, p);
    assert(q * p <= 2 * nn + 1) by {
        lemma_fundamental_div_mod(nn as int, p as int);
        assert(q <= nn / p + 1);
        assert(q * p <= (nn / p + 1) * p) by (nonlinear_arith)
            requires q <= nn / p + 1, p > 0;
        assert((nn / p + 1) * p == (nn / p) * p + p) by (nonlinear_arith);
    }
    q * p
}

fn unit_scale_exec(k: u8) -> (d: u128)
    requires
        k <= 6,
    ensures
        d == unit_scale(k as nat),
{
    if k == 0 {
        1
    } else if k == 1 {
        0x400
    } else if k == 2 {
        0x10_0000
    } else if k == 3 {
        0x4000_0000
    } else if k == 4 {
        0x100_0000_0000
    } else if k == 5 {
        0x4_0000_0000_0000
    } else {
        0x1000_0000_0000_0000
    }
}

fn unit_index_exec(v: u128) -> (k: u8)
    ensures
        k == unit_index(v as nat),
        k <= 6,
{
    if v < 0x400 {
        0
    } else if v < 0x10_0000 {
        1
    } else if v < 0x4000_0000 {
        2
    } else if v < 0x100_0000_0000 {
        3
    } else if v < 0x4_0000_0000_0000 {
        4
    } else if v < 0x1000_0000_0000_0000 {
        5
    } else {
        6
    }
}

fn push_unit_name(out: &mut Vec<char>, k: u8)
    requires
        k <= 6,
    ensures
        final(out)@ == old(out)@ + unit_name(k as nat),
{
    let letter = if k == 0 {
        'B'
    } else if k == 1 {
        'K'
    } else if k == 2 {
        'M'
    } else if k == 3 {
        'G'
    } else if k == 4 {
        'T'
    } else if k == 5 {
        'P'
    } else {
        'E'
    };
    out.push(letter);
    if k > 0 {
        out.push('B');
    }
}

/// The size of `size_bytes` bytes as text, such as "1.5 KB": the value in the
/// largest unit up to PB in which it is below 1024 (EB beyond that), with one
/// decimal; "0 B" for zero.
pub fn human_size(size_bytes: u64) -> (res: String)
    ensures
        res@ == human_size_text(size_bytes as nat),
{
    if size_bytes == 0 {
        let zero: Vec<char> = vec!['0', ' ', 'B'];
        return string_from_chars(&zero);
    }
    let v = nearest_f64_exec(size_bytes);
    let k = unit_index_exec(v);
    let d = unit_scale_exec(k);
    let tenths = div_round_half_even_exec(10 * v, d);
    let mut out = decimal_chars(tenths / 10);
    out.push('.');
    out.push(digit_to_char((tenths % 10) as u8));
    out.push(' ');
    push_unit_name(&mut out, k);
    string_from_chars(&out)
}

} // verus!
