//! File sizes written with metric (K, M, G...) or binary (Ki, Mi, Gi...)
//! prefixes.
//!
//! A size is turned into a 64-bit float and divided by the prefix base until
//! it is below it; the quotient is shown with one decimal place while it is
//! under ten (and a prefix was taken), and with none otherwise. The floats
//! are modelled exactly with integers: a float `v` of at least one is held
//! as `v * 2^52`, which is a whole number, and each step rounds to 53
//! significant bits, ties to even, as the hardware does.

use vstd::prelude::*;

use vstd::arithmetic::div_mod::{
    lemma_div_denominator,
    lemma_fundamental_div_mod,
    lemma_div_is_ordered,
    lemma_div_is_ordered_by_denominator,
    lemma_mod_pos_bound,
};
use vstd::arithmetic::mul::{lemma_mul_inequality, lemma_mul_is_distributive_add_other_way};
use vstd::arithmetic::power2::{pow2, lemma2_to64, lemma2_to64_rest, lemma_pow2_unfold};

use crate::colours::{decimal, digit_char, push_decimal};
use crate::text::push_char;

verus! {

/// `2^52`: the scale at which a float of at least one is a whole number.
pub open spec fn two52() -> nat {
    0x10_0000_0000_0000
}

/// `2^53`: one more bit than a float's significand holds.
pub open spec fn two53() -> nat {
    0x20_0000_0000_0000
}

/// The gap between neighbouring floats near the scaled value `x`
/// (for `x` of at least `2^52`).
pub open spec fn ulp(x: nat) -> nat
    decreases x,
{
    if x < two53() {
        1
    } else {
        2 * ulp(x / 2)
    }
}

/// The scaled quotient `n / d` rounded to the nearest float, ties to even.
pub open spec fn round_div(n: nat, d: nat) -> nat {
    let u = ulp(n / d);
    let q = n / (d * u);
    let rem = n % (d * u);
    if 2 * rem > d * u || (2 * rem == d * u && q % 2 == 1) {
        (q + 1) * u
    } else {
        q * u
    }
}

/// `n / d` rounded to the nearest whole number, ties to even.
pub open spec fn round_even(n: nat, d: nat) -> nat {
    let q = n / d;
    let r = n % d;
    if 2 * r > d || (2 * r == d && q % 2 == 1) {
        q + 1
    } else {
        q
    }
}

proof fn lemma_ulp_bounds(x: nat)
    ensures
        ulp(x) >= 1,
        x >= two52() ==> ulp(x) * two52() <= x,
        x / ulp(x) < two53(),
    decreases x,
{
    if x >= two53() {
        lemma_ulp_bounds(x / 2);
        lemma_div_denominator(x as int, 2, ulp(x / 2) as int);
    }
}

/// The float quotient of a scaled value is at most twice the whole
/// quotient, and smaller than the value when the base is at least two.
proof fn lemma_round_div_shrinks(n: nat, d: nat)
    requires
        d >= 1,
        n / d >= two52(),
    ensures
        round_div(n, d) <= 2 * (n / d),
        d >= 2 ==> round_div(n, d) < n,
{
    let q0 = n / d;
    let u = ulp(q0);
    lemma_ulp_bounds(q0);
    lemma_div_denominator(n as int, d as int, u as int);
    let q = n / (d * u);
    assert(q == q0 / u);
    lemma_fundamental_div_mod(q0 as int, u as int);
    assert(q * u <= q0) by {
        lemma_mod_pos_bound(q0 as int, u as int);
    }
    assert(u <= q0) by {
        lemma_mul_inequality(1, two52() as int, u as int);
    }
    assert((q + 1) * u == q * u + u) by {
        lemma_mul_is_distributive_add_other_way(u as int, q as int, 1);
    }
    lemma_fundamental_div_mod(n as int, d as int);
    lemma_mod_pos_bound(n as int, d as int);
    if d >= 2 {
        assert(d * q0 >= 2 * q0) by {
            lemma_mul_inequality(2, d as int, q0 as int);
        }
    }
}

/// `2^116`: no scaled size reaches past it (a `u64` is below `2^64`).
pub open spec fn two116() -> nat {
    0x10_0000_0000_0000_0000_0000_0000_0000
}

/// Divides a scaled float by `d` and rounds the quotient to a float.
fn round_div_exec(n: u128, d: u128) -> (r: u128)
    requires
        1 <= d <= 1024,
        n <= two116() * 2,
    ensures
        r == round_div(n as nat, d as nat),
{
    let q0: u128 = n / d;
    let r0: u128 = n % d;
    let mut y: u128 = q0;
    let mut u: u128 = 1;
    proof {
        lemma_ulp_bounds(q0 as nat);
    }
    while y >= 0x20_0000_0000_0000
        invariant
            u >= 1,
            y == q0 / u,
            ulp(q0 as nat) == u * ulp(y as nat),
            u * y <= q0,
            q0 == n / d,
            q0 <= n,
        decreases y,
    {
        proof {
            lemma_div_denominator(q0 as int, u as int, 2);
            assert(u * 2 <= u * y) by {
                lemma_mul_inequality(2, y as int, u as int);
            }
            assert((u * 2) * (y / 2) <= q0) by {
                lemma_fundamental_div_mod(y as int, 2);
                assert((u * 2) * (y / 2) <= u * y) by (nonlinear_arith)
                    requires y >= 0, u >= 1;
            }
            assert(u * ulp(y as nat) == (u * 2) * ulp((y / 2) as nat)) by (nonlinear_arith)
                requires ulp(y as nat) == 2 * ulp((y / 2) as nat);
        }
        y = y / 2;
        u = u * 2;
    }
    let q: u128 = y;
    proof {
        assert(ulp(y as nat) == 1);
        assert(u == ulp(q0 as nat));
        lemma_ulp_bounds(q0 as nat);
        assert(u <= 0x2_0000_0000_0000_0000) by {
            if q0 >= two52() {
                assert(u * two52() <= q0);
            } else {
                assert(u * 1 == u);
            }
        }
        lemma_fundamental_div_mod(q0 as int, u as int);
        lemma_mod_pos_bound(q0 as int, u as int);
        lemma_fundamental_div_mod(n as int, d as int);
        lemma_mod_pos_bound(n as int, d as int);
        assert(q * u + q0 % u == q0) by (nonlinear_arith)
            requires q0 == u * q + q0 % u;
    }
    let low: u128 = q0 - q * u;
    proof {
        assert(d * u <= 1024 * 0x2_0000_0000_0000_0000) by (nonlinear_arith)
            requires 1 <= d <= 1024, 1 <= u <= 0x2_0000_0000_0000_0000;
        assert(low * d + r0 < d * u) by (nonlinear_arith)
            requires low < u, r0 < d, low >= 0, r0 >= 0;
    }
    let du: u128 = d * u;
    let rem: u128 = low * d + r0;
    proof {
        assert(low * d + r0 < du) by (nonlinear_arith)
            requires low < u, r0 < d, du == d * u, low >= 0, r0 >= 0;
        assert(n == q * du + rem) by (nonlinear_arith)
            requires
                n == d * q0 + r0,
                q0 == u * q + low,
                du == d * u,
                rem == low * d + r0;
        vstd::arithmetic::div_mod::lemma_fundamental_div_mod_converse(
            n as int, du as int, q as int, rem as int);
        lemma_div_denominator(n as int, d as int, u as int);
        assert((q + 1) * u <= q0 + u) by (nonlinear_arith)
            requires q * u + low == q0, low >= 0;
    }
    if 2 * rem > du || (2 * rem == du && q % 2 == 1) {
        (q + 1) * u
    } else {
        q * u
    }
}

/// The division loop: while the scaled value is at least `kilo`, divide it
/// by `kilo` and move to the next prefix. Gives the final value and the
/// number of divisions.
pub open spec fn scale(v: nat, kilo: nat, prefix: nat) -> (nat, nat)
    decreases v,
{
    if kilo >= 2 && v >= kilo * two52() {
        proof {
            lemma_scale_step(v, kilo);
        }
        scale(round_div(v, kilo), kilo, prefix + 1)
    } else {
        (v, prefix)
    }
}

pub proof fn lemma_scale_step(v: nat, kilo: nat)
    requires
        kilo >= 2,
        v >= kilo * two52(),
    ensures
        v / kilo >= two52(),
        round_div(v, kilo) < v,
        round_div(v, kilo) <= 2 * (v / kilo),
{
    lemma_div_is_ordered((kilo * two52()) as int, v as int, kilo as int);
    vstd::arithmetic::div_mod::lemma_div_by_multiple(two52() as int, kilo as int);
    assert(kilo * two52() == two52() * kilo) by (nonlinear_arith);
    lemma_round_div_shrinks(v, kilo);
}

/// A size as a float, scaled by `2^52`.
pub open spec fn float_of(amount: nat) -> nat {
    round_div(amount * two52(), 1)
}

/// The base of the prefixes: 1024 for binary ones, 1000 for metric ones.
pub open spec fn kilo_of(iec: bool) -> nat {
    if iec {
        1024
    } else {
        1000
    }
}

/// The letter of the `p`th prefix (`p` from one to eight).
pub open spec fn prefix_letter(p: nat) -> char {
    if p == 1 {
        'K'
    } else if p == 2 {
        'M'
    } else if p == 3 {
        'G'
    } else if p == 4 {
        'T'
    } else if p == 5 {
        'P'
    } else if p == 6 {
        'E'
    } else if p == 7 {
        'Z'
    } else {
        'Y'
    }
}

/// The `p`th prefix: none for `p` zero, then `K`, `M`... or `Ki`, `Mi`...
pub open spec fn prefix_text(iec: bool, p: nat) -> Seq<char> {
    if p == 0 {
        Seq::empty()
    } else if iec {
        seq![prefix_letter(p), 'i']
    } else {
        seq![prefix_letter(p)]
    }
}

/// The number shown for a scaled value after `prefix` divisions: one
/// decimal place when a prefix was taken and the value is below ten, else
/// none; rounded to nearest, ties to even.
pub open spec fn size_text(v: nat, prefix: nat) -> Seq<char> {
    if v < 10 * two52() && prefix != 0 {
        let w = round_even(10 * v, two52());
        decimal(w / 10) + seq!['.', digit_char(w % 10)]
    } else {
        decimal(round_even(v, two52()))
    }
}

/// The number and the prefix that a size is shown with.
pub open spec fn formatted(amount: nat, iec: bool) -> (Seq<char>, Seq<char>) {
    let (v, p) = scale(float_of(amount), kilo_of(iec), 0);
    (size_text(v, p), prefix_text(iec, p))
}

/// A bound on the scaled value after `p` divisions.
spec fn limit(p: nat) -> nat
    decreases p,
{
    if p == 0 {
        two116() * 2
    } else {
        limit((p - 1) as nat) / 256
    }
}

/// Rounds `n / d` to a whole number, ties to even.
fn round_even_exec(n: u128, d: u128) -> (r: u128)
    requires
        d >= 1,
        n <= two116(),
    ensures
        r == round_even(n as nat, d as nat),
        r * d <= n + d,
{
    let q = n / d;
    let r = n % d;
    proof {
        lemma_fundamental_div_mod(n as int, d as int);
        lemma_mod_pos_bound(n as int, d as int);
        assert(q <= n) by {
            vstd::arithmetic::div_mod::lemma_div_is_ordered_by_denominator(n as int, 1, d as int);
        }
        assert((q + 1) * d <= n + d) by (nonlinear_arith)
            requires n == d * q + r, r >= 0;
    }
    if 2 * r > d || (2 * r == d && q % 2 == 1) {
        q + 1
    } else {
        q
    }
}

/// Appends the `p`th prefix.
fn push_prefix(s: &mut String, iec: bool, p: usize)
    requires
        p <= 8,
    ensures
        final(s)@ == old(s)@ + prefix_text(iec, p as nat),
{
    if p == 0 {
        assert(s@ =~= old(s)@ + prefix_text(iec, p as nat));
        return;
    }
    let letter = if p == 1 {
        'K'
    } else if p == 2 {
        'M'
    } else if p == 3 {
        'G'
    } else if p == 4 {
        'T'
    } else if p == 5 {
        'P'
    } else if p == 6 {
        'E'
    } else if p == 7 {
        'Z'
    } else {
        'Y'
    };
    push_char(s, letter);
    if iec {
        push_char(s, 'i');
    }
    assert(s@ =~= old(s)@ + prefix_text(iec, p as nat));
}

/// Shows a size: divides it, as a float, by `kilo` while it is at least
/// `kilo`, and writes the quotient and the prefix reached.
fn format_bytes(amount: u64, iec: bool) -> (r: (String, String))
    ensures
        (r.0@, r.1@) == formatted(amount as nat, iec),
{
    let kilo: u128 = if iec { 1024 } else { 1000 };
    let scaled: u128 = (amount as u128) * 0x10_0000_0000_0000;
    let mut v: u128 = round_div_exec(scaled, 1);
    let mut prefix: usize = 0;
    proof {
        if amount == 0 {
            assert(scaled == 0);
            assert(ulp(0) == 1);
            assert(round_div(0, 1) == 0);
        } else {
            assert(scaled / 1 >= two52());
            lemma_round_div_shrinks(scaled as nat, 1);
        }
        reveal_with_fuel(limit, 8);
        assert(limit(7) == 0x2000_0000_0000_0000);
    }
    while v >= kilo * 0x10_0000_0000_0000
        invariant
            kilo == kilo_of(iec),
            scale(v as nat, kilo as nat, prefix as nat) == scale(float_of(amount as nat), kilo as nat, 0),
            v <= limit(prefix as nat),
            prefix <= 7,
            limit(7) == 0x2000_0000_0000_0000,
        decreases v,
    {
        proof {
            lemma_scale_step(v as nat, kilo as nat);
            if prefix == 7 {
                assert(false);
            }
            lemma_limit_decreases(prefix as nat, 7);
            lemma_limit_decreases(0, prefix as nat);
            lemma_div_is_ordered_by_denominator(v as int, 512, kilo as int);
            lemma_div_denominator(v as int, 256, 2);
            lemma_fundamental_div_mod((v / 256) as int, 2);
            lemma_mod_pos_bound((v / 256) as int, 2);
            lemma_div_is_ordered((v / 256) as int, (limit(prefix as nat) / 256) as int, 1);
            lemma_div_is_ordered(v as int, limit(prefix as nat) as int, 256);
        }
        v = round_div_exec(v, kilo);
        prefix = prefix + 1;
    }
    let mut number = String::new();
    if v < 10 * 0x10_0000_0000_0000 && prefix != 0 {
        let w: u128 = round_even_exec(10 * v, 0x10_0000_0000_0000);
        push_decimal(&mut number, (w / 10) as u64);
        push_char(&mut number, '.');
        push_char(&mut number, (((w % 10) as u8) + 48) as char);
        assert(number@ =~= size_text(v as nat, prefix as nat));
    } else {
        let w: u128 = round_even_exec(v, 0x10_0000_0000_0000);
        push_decimal(&mut number, w as u64);
        assert(number@ =~= size_text(v as nat, prefix as nat));
    }
    let mut prefix_name = String::new();
    push_prefix(&mut prefix_name, iec, prefix);
    assert(prefix_name@ =~= prefix_text(iec, prefix as nat));
    (number, prefix_name)
}

proof fn lemma_limit_decreases(p: nat, q: nat)
    requires
        p <= q,
    ensures
        limit(q) <= limit(p),
    decreases q - p,
{
    if p < q {
        lemma_limit_decreases(p, (q - 1) as nat);
        assert(limit(q) == limit((q - 1) as nat) / 256);
    }
}

/// Shows a size with binary prefixes (Ki, Mi, Gi...), dividing by 1024.
pub fn format_IEC_bytes(amount: u64) -> (r: (String, String))
    ensures
        (r.0@, r.1@) == formatted(amount as nat, true),
{
    format_bytes(amount, true)
}

/// Shows a size with metric prefixes (K, M, G...), dividing by 1000.
pub fn format_metric_bytes(amount: u64) -> (r: (String, String))
    ensures
        (r.0@, r.1@) == formatted(amount as nat, false),
{
    format_bytes(amount, false)
}


proof fn lemma_scale_prefix_grows(v: nat, kilo: nat, prefix: nat)
    ensures
        scale(v, kilo, prefix).1 >= prefix,
    decreases v,
{
    if kilo >= 2 && v >= kilo * two52() {
        lemma_scale_step(v, kilo);
        lemma_scale_prefix_grows(round_div(v, kilo), kilo, prefix + 1);
    }
}

proof fn lemma_ulp_divides(a: nat, j: nat)
    requires
        a < two53(),
    ensures
        (a * pow2(j)) % ulp(a * pow2(j)) == 0,
    decreases j,
{
    let x = a * pow2(j);
    lemma_ulp_bounds(x);
    if x < two53() {
        assert(ulp(x) == 1);
    } else {
        if j == 0 {
            lemma2_to64();
            assert(x == a * 1);
            assert(false);
        }
        lemma_pow2_unfold(j);
        let y = a * pow2((j - 1) as nat);
        assert(x == 2 * y) by (nonlinear_arith)
            requires x == a * pow2(j), pow2(j) == 2 * pow2((j - 1) as nat), y == a * pow2((j - 1) as nat);
        assert(x / 2 == y);
        lemma_ulp_divides(a, (j - 1) as nat);
        lemma_ulp_bounds(y);
        lemma_fundamental_div_mod(y as int, ulp(y) as int);
        let t = y / ulp(y);
        assert(x == t * ulp(x)) by (nonlinear_arith)
            requires x == 2 * y, y == ulp(y) * t + y % ulp(y), y % ulp(y) == 0, ulp(x) == 2 * ulp(y);
        vstd::arithmetic::div_mod::lemma_mod_multiples_basic(t as int, ulp(x) as int);
    }
}

/// A size below `2^53` is held exactly by a float.
proof fn lemma_float_of_exact(amount: nat)
    requires
        amount < two53(),
    ensures
        float_of(amount) == amount * two52(),
{
    let n = amount * two52();
    lemma2_to64_rest();
    lemma_ulp_divides(amount, 52);
    assert(pow2(52) == two52());
    assert(amount * pow2(52) == n);
    assert(n % ulp(n) == 0);
    assert(n / 1 == n);
    let u = ulp(n);
    lemma_ulp_bounds(n);
    assert(1 * u == u);
    lemma_fundamental_div_mod(n as int, u as int);
    assert((n / u) * u == n) by (nonlinear_arith)
        requires n == u * (n / u) + n % u, n % u == 0;
}

/// A size below the base is shown as it is, with no prefix: 999 bytes are
/// `999`, never `1.0K`.
pub proof fn law_small_sizes_are_exact(amount: nat, iec: bool)
    requires
        amount < kilo_of(iec),
    ensures
        formatted(amount, iec) == (decimal(amount), Seq::<char>::empty()),
{
    let n = amount * two52();
    lemma_float_of_exact(amount);
    assert(n < kilo_of(iec) * two52());
    assert(scale(n, kilo_of(iec), 0) == (n, 0nat));
    assert(n / two52() == amount) by {
        vstd::arithmetic::div_mod::lemma_div_by_multiple(amount as int, two52() as int);
    }
    assert(n % two52() == 0) by {
        vstd::arithmetic::div_mod::lemma_mod_multiples_basic(amount as int, two52() as int);
    }
    assert(round_even(n, two52()) == amount);
}

/// A size of at least the base always gets a prefix.
pub proof fn law_large_sizes_get_a_prefix(amount: nat, iec: bool)
    requires
        amount >= kilo_of(iec),
    ensures
        formatted(amount, iec).1.len() > 0,
{
    let kilo = kilo_of(iec);
    let n = amount * two52();
    assert(n >= kilo * two52()) by {
        lemma_mul_inequality(kilo as int, amount as int, two52() as int);
    }
    if amount < two53() {
        lemma_float_of_exact(amount);
    } else {
        assert(n / 1 == n);
        let u = ulp(n);
        lemma_ulp_bounds(n);
        assert(1 * u == u);
        let q = n / u;
        lemma_fundamental_div_mod(n as int, u as int);
        lemma_mod_pos_bound(n as int, u as int);
        assert(q * u + n % u == n) by (nonlinear_arith)
            requires n == u * (n / u) + n % u, q == n / u;
        assert(round_div(n, 1) >= q * u) by {
            assert((q + 1) * u >= q * u) by (nonlinear_arith)
                requires u >= 1;
        }
        assert(n >= two53() * two52()) by {
            lemma_mul_inequality(two53() as int, amount as int, two52() as int);
        }
        assert(u * two52() <= n);
        assert(float_of(amount) >= kilo * two52());
    }
    let v = float_of(amount);
    lemma_scale_step(v, kilo);
    lemma_scale_prefix_grows(round_div(v, kilo), kilo, 1);
}

} // verus!
