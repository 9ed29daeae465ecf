//! Sizes in bytes as short texts: whole bytes below 1024, else the size in
//! KB, MB or GB with two places behind the point.

use crate::text::{decimal, digit_char, digit_text, push_decimal};
use vstd::arithmetic::div_mod::lemma_div_denominator;
use vstd::arithmetic::div_mod::lemma_fundamental_div_mod;
use vstd::prelude::*;
use vstd::string::StringExecFns;

verus! {

/// Bytes in a KB.
pub const KIB: u64 = 1024;

/// Bytes in an MB.
pub const MIB: u64 = 1048576;

/// Bytes in a GB.
pub const GIB: u64 = 1073741824;

/// 2 to the power of 53: below it a double-precision number holds every
/// whole number as it is.
pub const EXACT_LIMIT: u64 = 0x20_0000_0000_0000;

/// `num / den` as the nearest whole number; where two are equally near,
/// the even one.
pub open spec fn round_half_even(num: nat, den: nat) -> nat {
    let q = num / den;
    let r = num % den;
    if 2 * r > den || (2 * r == den && q % 2 == 1) {
        q + 1
    } else {
        q
    }
}

/// The distance between neighbouring double-precision numbers at the size
/// of `n`: 1 below `EXACT_LIMIT`, and twice as much with every doubling.
pub open spec fn spacing(n: nat) -> nat
    decreases n,
{
    if n < EXACT_LIMIT {
        1
    } else {
        2 * spacing(n / 2)
    }
}

/// The double-precision number nearest to `n`. The size is taken as such a
/// number before it is divided, so a size of `EXACT_LIMIT` bytes or more is
/// rounded to 53 significant bits first.
pub open spec fn as_double(n: nat) -> nat {
    round_half_even(n, spacing(n)) * spacing(n)
}

/// The size in hundredths of `unit`, rounded to the nearest, halves to even.
pub open spec fn hundredths(bytes: nat, unit: nat) -> nat {
    round_half_even(as_double(bytes) * 100, unit)
}

/// A number of hundredths written with a point and two places behind it.
pub open spec fn fixed2(h: nat) -> Seq<char> {
    decimal(h / 100) + "."@ + seq![digit_char((h % 100) / 10)] + seq![digit_char((h % 100) % 10)]
}

/// The text for a size in bytes.
pub open spec fn size_text(bytes: u64) -> Seq<char> {
    if bytes >= GIB {
        fixed2(hundredths(bytes as nat, GIB as nat)) + " GB"@
    } else if bytes >= MIB {
        fixed2(hundredths(bytes as nat, MIB as nat)) + " MB"@
    } else if bytes >= KIB {
        fixed2(hundredths(bytes as nat, KIB as nat)) + " KB"@
    } else {
        decimal(bytes as nat) + " B"@
    }
}

/// Below `EXACT_LIMIT` a size is divided as it is.
pub proof fn lemma_small_sizes_are_exact(n: nat)
    requires
        n < EXACT_LIMIT,
    ensures
        as_double(n) == n,
{
    assert(spacing(n) == 1);
    assert(n / 1 == n && n % 1 == 0);
    assert(round_half_even(n, 1) == n);
}

/// A whole number of units has `00` behind the point.
pub proof fn lemma_whole_units(count: nat, unit: nat)
    requires
        unit == KIB || unit == MIB || unit == GIB,
        count * unit < EXACT_LIMIT,
    ensures
        hundredths(count * unit, unit) == count * 100,
{
    let n = count * unit;
    lemma_small_sizes_are_exact(n);
    assert(n * 100 == (count * 100) * unit) by (nonlinear_arith)
        requires
            n == count * unit,
    ;
    lemma_fundamental_div_mod_converse_exact(count * 100, unit);
}

proof fn lemma_fundamental_div_mod_converse_exact(q: nat, d: nat)
    requires
        d > 0,
    ensures
        (q * d) / d == q,
        (q * d) % d == 0,
{
    vstd::arithmetic::div_mod::lemma_fundamental_div_mod_converse(
        (q * d) as int,
        d as int,
        q as int,
        0,
    );
}

fn nearest_double(n: u64) -> (r: u128)
    ensures
        r == as_double(n as nat),
        r <= 0x4_0000_0000_0000_0000,
{
    let mut step: u64 = 1;
    let mut q: u64 = n;
    while q >= EXACT_LIMIT
        invariant
            1 <= step <= 4096,
            q == n / step,
            spacing(n as nat) == step * spacing(q as nat),
        decreases q,
    {
        proof {
            lemma_fundamental_div_mod(n as int, step as int);
            assert(step * EXACT_LIMIT <= step * q) by (nonlinear_arith)
                requires
                    q >= EXACT_LIMIT,
                    step >= 1,
            ;
            assert(step <= 2047);
            lemma_div_denominator(n as int, step as int, 2);
            assert(spacing(q as nat) == 2 * spacing((q / 2) as nat));
            assert(step * (2 * spacing((q / 2) as nat)) == (step * 2) * spacing((q / 2) as nat))
                by (nonlinear_arith);
        }
        q = q / 2;
        step = step * 2;
    }
    let quot = n / step;
    let rem = n % step;
    let up: u64 = if 2 * rem > step || (2 * rem == step && quot % 2 == 1) {
        1
    } else {
        0
    };
    proof {
        assert(spacing(q as nat) == 1);
        assert(spacing(n as nat) == step) by (nonlinear_arith)
            requires
                spacing(n as nat) == step * spacing(q as nat),
                spacing(q as nat) == 1,
        ;
        assert((quot + up) * step <= 0x20_0000_0000_0000 * 4096) by (nonlinear_arith)
            requires
                quot + up <= 0x20_0000_0000_0000,
                step <= 4096,
        ;
    }
    (quot + up) as u128 * (step as u128)
}

fn hundredths_of(bytes: u64, unit: u64) -> (h: u64)
    requires
        unit == KIB || unit == MIB || unit == GIB,
    ensures
        h == hundredths(bytes as nat, unit as nat),
{
    let x = nearest_double(bytes);
    let scaled: u128 = x * 100;
    let wide: u128 = unit as u128;
    let q = scaled / wide;
    let r = scaled % wide;
    let up: u128 = if 2 * r > wide || (2 * r == wide && q % 2 == 1) {
        1
    } else {
        0
    };
    assert(q <= scaled / 1024) by {
        if unit == KIB {
        } else if unit == MIB {
            assert(scaled / 1048576 <= scaled / 1024);
        } else {
            assert(scaled / 1073741824 <= scaled / 1024);
        }
    }
    let h = q + up;
    assert(h < 0x1_0000_0000_0000_0000);
    h as u64
}

fn push_fixed2(out: &mut String, h: u64)
    ensures
        final(out)@ == old(out)@ + fixed2(h as nat),
{
    push_decimal(out, h / 100);
    out.append(".");
    let places = h % 100;
    out.append(digit_text(places / 10));
    out.append(digit_text(places % 10));
    assert(out@ =~= old(out)@ + fixed2(h as nat));
}

/// Writes a size in bytes as a short text.
pub fn format_size(bytes: u64) -> (r: String)
    ensures
        r@ == size_text(bytes),
{
    let mut r = String::new();
    if bytes >= GIB {
        push_fixed2(&mut r, hundredths_of(bytes, GIB));
        r.append(" GB");
    } else if bytes >= MIB {
        push_fixed2(&mut r, hundredths_of(bytes, MIB));
        r.append(" MB");
    } else if bytes >= KIB {
        push_fixed2(&mut r, hundredths_of(bytes, KIB));
        r.append(" KB");
    } else {
        push_decimal(&mut r, bytes);
        r.append(" B");
    }
    assert(r@ =~= size_text(bytes));
    r
}

} // verus!
