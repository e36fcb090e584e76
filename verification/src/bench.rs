//! Helpers of the benchmarks: formatting of timings, and the function they time.

use vstd::prelude::*;
use crate::text::decimal;
use crate::text::digit_char;
use crate::text::digit_to_char;
use crate::text::push_char;
use crate::text::push_decimal;

verus! {

/// The three digits of `k < 1000`, with leading zeros.
pub open spec fn pad3(k: nat) -> Seq<char> {
    seq![digit_char(k / 100), digit_char((k / 10) % 10), digit_char(k % 10)]
}

/// A number with thousands separators: the leading group without padding, then each further
/// group of three digits, zero-padded, after a separator.
pub open spec fn thousands(n: nat, sep: char) -> Seq<char> {
    if n / 1_000_000_000 != 0 {
        decimal(n / 1_000_000_000) + seq![sep] + pad3((n % 1_000_000_000) / 1_000_000) + seq![sep]
            + pad3((n % 1_000_000) / 1000) + seq![sep] + pad3(n % 1000)
    } else if n / 1_000_000 != 0 {
        decimal(n / 1_000_000) + seq![sep] + pad3((n % 1_000_000) / 1000) + seq![sep] + pad3(
            n % 1000,
        )
    } else if n / 1000 != 0 {
        decimal(n / 1000) + seq![sep] + pad3(n % 1000)
    } else {
        decimal(n)
    }
}

/// Appends three digits of `k < 1000`, with leading zeros.
fn push_pad3(s: &mut String, k: usize)
    requires
        k < 1000,
    ensures
        final(s)@ == old(s)@ + pad3(k as nat),
{
    push_char(s, digit_to_char((k / 100) as u64));
    push_char(s, digit_to_char(((k / 10) % 10) as u64));
    push_char(s, digit_to_char((k % 10) as u64));
    assert(final(s)@ =~= old(s)@ + pad3(k as nat));
}

/// Format a number with thousands separators
pub fn fmt_thousands_sep(n: usize, sep: char) -> (output: String)
    ensures
        output@ == thousands(n as nat, sep),
{
    let mut output = String::new();
    let g9 = n / 1_000_000_000;
    let r9 = n % 1_000_000_000;
    let g6 = r9 / 1_000_000;
    let r6 = r9 % 1_000_000;
    let g3 = r6 / 1000;
    let g0 = r6 % 1000;
    assert(r6 == (n as nat) % 1_000_000) by (nonlinear_arith)
        requires
            r9 == n % 1_000_000_000,
            r6 == r9 % 1_000_000,
    ;
    assert(g0 == (n as nat) % 1000) by (nonlinear_arith)
        requires
            r6 == n % 1_000_000,
            g0 == r6 % 1000,
    ;
    if g9 != 0 {
        push_decimal(&mut output, g9 as u64);
        push_char(&mut output, sep);
        push_pad3(&mut output, g6);
        push_char(&mut output, sep);
        push_pad3(&mut output, g3);
        push_char(&mut output, sep);
        push_pad3(&mut output, g0);
    } else if g6 != 0 {
        assert(n < 1_000_000_000);
        push_decimal(&mut output, g6 as u64);
        push_char(&mut output, sep);
        push_pad3(&mut output, g3);
        push_char(&mut output, sep);
        push_pad3(&mut output, g0);
    } else if g3 != 0 {
        push_decimal(&mut output, g3 as u64);
        push_char(&mut output, sep);
        push_pad3(&mut output, g0);
    } else {
        assert(n < 1000);
        push_decimal(&mut output, n as u64);
    }
    assert(output@ =~= thousands(n as nat, sep));
    output
}

/// Below a trillion, a number with thousands separators is the number of its thousands with
/// separators, a separator, and its last three digits: every group but the first has three
/// digits. (From a trillion on, the leading group holds all the digits above the billions.)
pub proof fn law_thousands_groups(n: nat, sep: char)
    requires
        1000 <= n < 1_000_000_000_000,
    ensures
        thousands(n, sep) == thousands(n / 1000, sep) + seq![sep] + pad3(n % 1000),
{
    let m = n / 1000;
    assert(m / 1_000_000 == n / 1_000_000_000 && (m % 1_000_000) / 1000 == (n % 1_000_000_000)
        / 1_000_000 && m % 1000 == (n % 1_000_000) / 1000 && m / 1000 == n / 1_000_000 && (m % 1_000_000) / 1000 == (n % 1_000_000_000) / 1_000_000) by (nonlinear_arith)
        requires
            m == n / 1000,
    ;
    assert(n / 1_000_000 == 0 ==> n / 1000 < 1000) by (nonlinear_arith)
        requires
            m == n / 1000,
    ;
    assert(n / 1_000_000_000 == 0 ==> m / 1_000_000 == 0);
    assert(n / 1_000_000_000 != 0 ==> m / 1_000_000 != 0);
    assert(n / 1_000_000 != 0 ==> m / 1000 != 0);
    assert(n / 1_000_000 == 0 ==> m / 1000 == 0);
    assert(m / 1000 != 0 && m / 1_000_000 == 0 ==> (m % 1_000_000) / 1000 == m / 1000) by (nonlinear_arith)
        requires
            m >= 0,
    ;
    assert(m / 1000 == 0 ==> m % 1000 == m) by (nonlinear_arith)
        requires
            m >= 0,
    ;
}

/// The Ackermann function.
pub open spec fn ackermann(m: nat, n: nat) -> nat
    decreases m, n,
{
    if m == 0 {
        n + 1
    } else if n == 0 {
        ackermann((m - 1) as nat, 1)
    } else {
        ackermann((m - 1) as nat, ackermann(m, (n - 1) as nat))
    }
}

/// The Ackermann function exceeds its second argument.
pub proof fn lemma_ackermann_gt(m: nat, n: nat)
    ensures
        ackermann(m, n) > n,
    decreases m, n,
{
    if m == 0 {
    } else if n == 0 {
        lemma_ackermann_gt((m - 1) as nat, 1);
    } else {
        lemma_ackermann_gt(m, (n - 1) as nat);
        lemma_ackermann_gt((m - 1) as nat, ackermann(m, (n - 1) as nat));
    }
}

/// The Ackermann function grows with its second argument.
pub proof fn lemma_ackermann_step(m: nat, n: nat)
    ensures
        ackermann(m, n) < ackermann(m, n + 1),
{
    if m > 0 {
        lemma_ackermann_gt((m - 1) as nat, ackermann(m, n));
        assert(ackermann(m, n + 1) == ackermann((m - 1) as nat, ackermann(m, n)));
    }
}

/// The Ackermann function, the work that the benchmark times.
pub fn mann(m: usize, n: usize) -> (r: usize)
    requires
        ackermann(m as nat, n as nat) <= usize::MAX,
    ensures
        r as nat == ackermann(m as nat, n as nat),
    decreases m, n,
{
    match m {
        0 => n + 1,
        _ => match n {
            0 => mann(m - 1, 1),
            n => {
                proof {
                    lemma_ackermann_step(m as nat, (n - 1) as nat);
                }
                let inner = mann(m, n - 1);
                mann(m - 1, inner)
            },
        },
    }
}

} // verus!
