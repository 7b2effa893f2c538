//! Human-readable fee formatting.
use vstd::prelude::*;
use vstd::arithmetic::power2::pow2;
use crate::text::{decimal, decimal_chars, digit_char, push_chars, push_str, string_from};

verus! {

/// The digits `d` with a comma before each group of three, counted from
/// the right.
pub open spec fn grouped(d: Seq<char>) -> Seq<char>
    decreases d.len(),
{
    if d.len() <= 3 {
        d
    } else {
        grouped(d.subrange(0, d.len() - 3)).push(',') + d.subrange(d.len() - 3, d.len() as int)
    }
}

fn push_grouped(out: &mut Vec<char>, d: &Vec<char>, end: usize)
    requires
        end <= d.len(),
    ensures
        final(out)@ == old(out)@ + grouped(d@.take(end as int)),
    decreases end,
{
    let ghost t = d@.take(end as int);
    let start: usize = if end > 3 { end - 3 } else { 0 };
    if end > 3 {
        push_grouped(out, d, end - 3);
        out.push(',');
        assert(t.subrange(0, t.len() - 3) =~= d@.take(end - 3));
    }
    let ghost mid = out@;
    let mut k: usize = start;
    while k < end
        invariant
            start <= k <= end,
            end <= d.len(),
            out@ == mid + d@.subrange(start as int, k as int),
        decreases end - k,
    {
        out.push(d[k]);
        assert(d@.subrange(start as int, k + 1) =~= d@.subrange(start as int, k as int).push(d@[k as int]));
        k = k + 1;
    }
    proof {
        if end > 3 {
            assert(t.subrange(t.len() - 3, t.len() as int) =~= d@.subrange(start as int, end as int));
            assert(out@ =~= old(out)@ + grouped(t));
        } else {
            assert(t =~= d@.subrange(0, end as int));
            assert(out@ =~= old(out)@ + grouped(t));
        }
    }
}

/// `n` in decimal with comma thousands separators, then `" str"`.
pub open spec fn stroops_text(n: u64) -> Seq<char> {
    grouped(decimal(n as nat)) + " str"@
}

/// Format fee value in stroops with comma separators
pub fn format_stroops(n: u64) -> (res: String)
    ensures
        res@ == stroops_text(n),
{
    let d = decimal_chars(n);
    let mut g: Vec<char> = Vec::new();
    push_grouped(&mut g, &d, d.len());
    assert(d@.take(d@.len() as int) =~= d@);
    assert(g@ =~= grouped(d@));
    let mut res = String::new();
    push_chars(&mut res, &g);
    push_str(&mut res, " str");
    assert(res@ =~= stroops_text(n));
    res
}

/// Stroops in one XLM.
pub const STROOPS_PER_XLM: u64 = 10_000_000;

/// Ten to the power `k`.
pub open spec fn pow10(k: nat) -> nat
    decreases k,
{
    if k == 0 {
        1
    } else {
        10 * pow10((k - 1) as nat)
    }
}

/// The seven digits of `r` (`r < 10^7`), zero-padded on the left.
pub open spec fn seven_digits(r: nat) -> Seq<char> {
    Seq::new(7, |k: int| digit_char(((r / pow10((6 - k) as nat)) % 10) as int))
}

/// `a / b` rounded to the nearest integer, ties to the even one (`b > 0`).
pub open spec fn rne_div(a: nat, b: nat) -> nat {
    let q = a / b;
    let r = a % b;
    if 2 * r > b || (2 * r == b && q % 2 == 1) {
        q + 1
    } else {
        q
    }
}

/// How many low bits `n` loses when held in a 53-bit significand.
pub open spec fn sig_shift(n: nat) -> nat
    decreases n,
{
    if n < 0x20_0000_0000_0000 {
        0
    } else {
        1 + sig_shift(n / 2)
    }
}

/// The `f64` nearest to `n` (ties to even), as the integer it holds:
/// what `n as f64` gives.
pub open spec fn as_double(n: nat) -> nat {
    rne_div(n, pow2(sig_shift(n))) * pow2(sig_shift(n))
}

/// `2^53 * 10^7`: a quotient by `10^7` below `2^53` has a 53-bit
/// significand once its numerator is scaled to at least half of this.
pub open spec fn quotient_limit() -> nat {
    0x20_0000_0000_0000 * 10_000_000
}

/// The number `t` of halvings of the unit that puts `v * 2^t / 10^7` in
/// `[2^52, 2^53)`, counted on from `t` (`v` below the limit).
pub open spec fn binade(v: nat, t: nat) -> nat
    decreases (if v < quotient_limit() { quotient_limit() - v } else { 0 }),
{
    if v > 0 && 2 * v < quotient_limit() {
        binade(2 * v, t + 1)
    } else {
        t
    }
}

/// The amount that `format!("{:.7}", n as f64 / 10_000_000.0)` prints, in
/// units of `10^-7`: the double nearest `n`, divided by `10^7` and rounded
/// to the nearest double (`m / 2^t`, ties to even), then rounded to seven
/// decimal places (ties to even).
pub open spec fn xlm_units(n: u64) -> nat {
    let d = as_double(n as nat);
    let t = binade(d, 0);
    let m = rne_div(d * pow2(t), 10_000_000);
    rne_div(m * 10_000_000, pow2(t))
}

/// `n` stroops as the `f64` XLM amount `n / 10^7` prints with seven decimal
/// places, then `" XLM"`.
pub open spec fn xlm_text(n: u64) -> Seq<char> {
    decimal(xlm_units(n) / 10_000_000) + "."@ + seven_digits(xlm_units(n) % 10_000_000) + " XLM"@
}

fn rne_div_exec(a: u128, b: u128) -> (res: u128)
    requires
        b > 0,
        a < 0xffff_ffff_ffff_ffff_ffff_ffff_ffff_ffffu128,
    ensures
        res == rne_div(a as nat, b as nat),
        res <= a / b + 1,
{
    let q = a / b;
    let r = a % b;
    if r > b - r || (r == b - r && q % 2 == 1) {
        q + 1
    } else {
        q
    }
}

fn as_double_exec(n: u64) -> (res: u128)
    ensures
        res == as_double(n as nat),
        res <= 0x1_0000_0000_0000_1000u128,
{
    let mut x: u64 = n;
    let mut p: u128 = 1;
    let ghost mut s: nat = 0;
    proof {
        vstd::arithmetic::power2::lemma2_to64();
    }
    while x >= 0x20_0000_0000_0000
        invariant
            p == pow2(s),
            p >= 1,
            p <= 4096,
            x as nat == n as nat / (p as nat),
            sig_shift(n as nat) == s + sig_shift(x as nat),
            p * (x as u128) <= n,
        decreases x,
    {
        proof {
            vstd::arithmetic::power2::lemma_pow2_unfold(s + 1);
            vstd::arithmetic::div_mod::lemma_div_denominator(n as int, p as int, 2);
            assert(p * 2 * ((x / 2) as u128) <= n) by (nonlinear_arith)
                requires
                    p * (x as u128) <= n,
                    p >= 1,
            ;
            assert(p < 2048) by (nonlinear_arith)
                requires
                    p * (x as u128) <= n,
                    x >= 0x20_0000_0000_0000,
                    n <= 0xffff_ffff_ffff_ffff,
            ;
        }
        x = x / 2;
        p = p * 2;
        proof {
            s = s + 1;
        }
    }
    let q = rne_div_exec(n as u128, p);
    proof {
        let nn = n as int;
        let pp = p as int;
        assert(nn / pp * pp <= nn) by (nonlinear_arith)
            requires
                pp >= 1,
                nn >= 0,
        ;
        assert(q * pp <= nn + pp) by (nonlinear_arith)
            requires
                q <= nn / pp + 1,
                nn / pp * pp <= nn,
                pp >= 1,
        ;
    }
    q * p
}

fn xlm_units_exec(n: u64) -> (res: u128)
    ensures
        res == xlm_units(n),
        res <= 0x1_0000_0000_0100_0000u128,
{
    let d = as_double_exec(n);
    let mut v: u128 = d;
    let mut p: u128 = 1;
    let ghost mut t: nat = 0;
    proof {
        vstd::arithmetic::power2::lemma2_to64();
    }
    assert(quotient_limit() == 0x20_0000_0000_0000u128 * 10_000_000u128);
    while v > 0 && v * 2 < 0x20_0000_0000_0000u128 * 10_000_000u128
        invariant
            p == pow2(t),
            p >= 1,
            v == d * p,
            v < quotient_limit(),
            d <= 0x1_0000_0000_0000_1000u128,
            binade(d as nat, 0) == binade(v as nat, t),
            quotient_limit() == 0x20_0000_0000_0000u128 * 10_000_000u128,
        decreases quotient_limit() - v,
    {
        proof {
            vstd::arithmetic::power2::lemma_pow2_unfold(t + 1);
            assert(p <= v) by (nonlinear_arith)
                requires
                    v == d * p,
                    v > 0,
                    p >= 1,
            ;
            assert(v * 2 == d * (p * 2)) by (nonlinear_arith)
                requires
                    v == d * p,
            ;
        }
        v = v * 2;
        p = p * 2;
        proof {
            t = t + 1;
        }
    }
    let m = rne_div_exec(v, 10_000_000);
    proof {
        assert(m * 10_000_000 <= v + 10_000_000) by (nonlinear_arith)
            requires
                m <= v / 10_000_000 + 1,
        ;
    }
    let mm = m * 10_000_000;
    let units = rne_div_exec(mm, p);
    proof {
        let pi = p as int;
        vstd::arithmetic::div_mod::lemma_div_is_ordered(mm as int, 10_000_000 + d * pi, pi);
        vstd::arithmetic::div_mod::lemma_hoist_over_denominator(10_000_000, d as int, p as nat);
        vstd::arithmetic::div_mod::lemma_div_is_ordered_by_denominator(10_000_000, 1, pi);
        assert(units <= d + 10_000_001);
    }
    units
}

/// Format fee value as XLM (1 XLM = 10,000,000 stroops), with seven
/// decimal places, as the `f64` amount `n / 10^7` prints.
pub fn format_xlm(n: u64) -> (res: String)
    ensures
        res@ == xlm_text(n),
{
    let units = xlm_units_exec(n);
    let whole = (units / 10_000_000) as u64;
    let frac = (units % 10_000_000) as u64;
    let mut digits: Vec<char> = Vec::new();
    let mut place: u64 = 1_000_000;
    assert(pow10(6) == 1_000_000) by {
        reveal_with_fuel(pow10, 7);
    }
    for k in 0..7u64
        invariant
            frac < 10_000_000,
            k < 7 ==> place == pow10((6 - k) as nat),
            k < 7 ==> place >= 1,
            digits@ == seven_digits(frac as nat).take(k as int),
    {
        let d: u64 = (frac / place) % 10;
        let c: char = ((48u8 + (d as u8)) as char);
        assert(c == digit_char(d as int));
        digits.push(c);
        assert(digits@ =~= seven_digits(frac as nat).take(k + 1));
        if k < 6 {
            assert(pow10((6 - k) as nat) == 10 * pow10((6 - k - 1) as nat));
            place = place / 10;
        }
    }
    assert(digits@ =~= seven_digits(frac as nat));
    let mut res = String::new();
    crate::text::push_decimal(&mut res, whole);
    push_str(&mut res, ".");
    push_chars(&mut res, &digits);
    push_str(&mut res, " XLM");
    assert(res@ =~= xlm_text(n));
    res
}

/// Auto-format: show stroops below 1M, XLM above
pub fn format_fee_short(n: u64) -> (res: String)
    ensures
        n < 1_000_000 ==> res@ == stroops_text(n),
        n >= 1_000_000 ==> res@ == xlm_text(n),
{
    if n < 1_000_000 {
        format_stroops(n)
    } else {
        format_xlm(n)
    }
}

} // verus!
