//! Numbers written out in decimal.

use vstd::prelude::*;
use vstd::arithmetic::div_mod::lemma_div_denominator;

verus! {

/// The character of the digit `d`.
pub open spec fn digit(d: nat) -> char
    recommends
        d < 10,
{
    ((0x30 + d) as u8) as char
}

/// The decimal numeral of `n`, without leading zeros.
pub open spec fn decimal(n: nat) -> Seq<char>
    decreases n,
{
    if n < 10 {
        seq![digit(n)]
    } else {
        decimal(n / 10).push(digit(n % 10))
    }
}

/// `u` is a power of ten.
pub open spec fn is_power_of_ten(u: nat) -> bool
    decreases u,
{
    if u <= 1 {
        u == 1
    } else {
        u % 10 == 0 && is_power_of_ten(u / 10)
    }
}

/// Appends the decimal numeral of `n` to `text`.
pub fn push_decimal(text: &mut String, n: u32)
    ensures
        final(text)@ == old(text)@ + decimal(n as nat),
{
    let mut unit: u32 = 1;
    while n / unit >= 10
        invariant
            1 <= unit <= n || unit == 1,
            is_power_of_ten(unit as nat),
        decreases n - unit,
    {
        assert(unit * 10 <= n) by (nonlinear_arith)
            requires
                n / unit >= 10,
                unit >= 1,
        ;
        unit = unit * 10;
    }
    let first: u8 = (n / unit) as u8;
    text.push((0x30 + first) as char);
    while unit > 1
        invariant
            1 <= unit <= n || unit == 1,
            is_power_of_ten(unit as nat),
            text@ == old(text)@ + decimal((n / unit) as nat),
        decreases unit,
    {
        let ghost above: u32 = unit;
        unit = unit / 10;
        let d: u8 = ((n / unit) % 10) as u8;
        text.push((0x30 + d) as char);
        proof {
            lemma_div_denominator(n as int, unit as int, 10);
            assert(n / above >= 1) by (nonlinear_arith)
                requires
                    1 <= above <= n,
            ;
        }
    }
}

} // verus!
