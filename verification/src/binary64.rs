//! Double-precision arithmetic, on integers: quotients and products as a processor rounds them, to
//! the nearest number of 53 significant bits, and of two equally near ones to the even one.
//!
//! Numbers of 53 bits go from `0x10_0000_0000_0000` up to below `0x20_0000_0000_0000`.
use vstd::arithmetic::div_mod::{
    lemma_div_is_ordered, lemma_div_multiples_vanish, lemma_fundamental_div_mod,
    lemma_fundamental_div_mod_converse, lemma_mod_multiples_basic,
};
use vstd::prelude::*;

verus! {

/// The integer nearest to `n / d`, the even one where two are equally near.
pub open spec fn nearest(n: int, d: int) -> int {
    if 2 * (n % d) > d || (2 * (n % d) == d && (n / d) % 2 == 1) {
        n / d + 1
    } else {
        n / d
    }
}

/// The distance between the doubles around an integer `n`, where that is one or more, else one: the
/// power of two that leaves 53 bits of `n`.
pub open spec fn unit(n: int) -> int
    decreases n,
{
    if n < 0x20_0000_0000_0000 {
        1
    } else {
        2 * unit(n / 2)
    }
}

/// The double nearest to an integer.
pub open spec fn rounded(n: int) -> int {
    nearest(n, unit(n)) * unit(n)
}

/// The power of two by which `part / whole` grows to a number of 53 bits before the point.
pub open spec fn scale(part: int, whole: int) -> int
    decreases 0x20_0000_0000_0000 * whole - part,
{
    if part <= 0 || part >= 0x10_0000_0000_0000 * whole {
        1
    } else {
        2 * scale(2 * part, whole)
    }
}

/// The double nearest to `part / whole`, times its scale.
pub open spec fn significand(part: int, whole: int) -> int {
    nearest(part * scale(part, whole), whole)
}

/// The double that `part / whole * count` comes to, from the left, times the scale of the quotient.
pub open spec fn scaled_product(part: int, whole: int, count: int) -> int {
    rounded(significand(part, whole) * rounded(count))
}

/// The integer part of `part / whole * count` in doubles.
pub open spec fn share(part: int, whole: int, count: int) -> int {
    scaled_product(part, whole, count) / scale(part, whole)
}

proof fn lemma_nearest_bounds(n: int, d: int)
    requires
        d > 0,
    ensures
        2 * n - d <= 2 * (nearest(n, d) * d) <= 2 * n + d,
        n >= 0 ==> nearest(n, d) >= 0,
{
    lemma_fundamental_div_mod(n, d);
    let q = n / d;
    assert((q + 1) * d == q * d + d && d * q == q * d) by (nonlinear_arith);
    assert(n >= 0 ==> q >= 0) by (nonlinear_arith)
        requires
            d > 0,
            q == n / d,
    ;
}

proof fn lemma_nearest_is_ordered(a: int, b: int, d: int)
    requires
        d > 0,
        a <= b,
    ensures
        nearest(a, d) <= nearest(b, d),
{
    lemma_fundamental_div_mod(a, d);
    lemma_fundamental_div_mod(b, d);
    lemma_div_is_ordered(a, b, d);
}

proof fn lemma_nearest_of_multiple(k: int, d: int)
    requires
        d > 0,
    ensures
        nearest(k * d, d) == k,
{
    lemma_div_multiples_vanish(k, d);
    lemma_mod_multiples_basic(k, d);
    assert(k * d == d * k) by (nonlinear_arith);
}

proof fn lemma_nearest_of_doubles(n: int, d: int)
    requires
        d > 0,
    ensures
        nearest(2 * n, 2 * d) == nearest(n, d),
{
    lemma_fundamental_div_mod(n, d);
    let (q, r) = (n / d, n % d);
    assert(2 * n == q * (2 * d) + 2 * r) by (nonlinear_arith)
        requires
            n == d * q + r,
    ;
    lemma_fundamental_div_mod_converse(2 * n, 2 * d, q, 2 * r);
}

proof fn lemma_unit(n: int)
    requires
        n >= 0,
    ensures
        unit(n) >= 1,
        n < 0x20_0000_0000_0000 * unit(n),
        unit(n) == 1 || n >= 0x10_0000_0000_0000 * unit(n),
    decreases n,
{
    if n >= 0x20_0000_0000_0000 {
        lemma_unit(n / 2);
    }
}

proof fn lemma_unit_is_ordered(a: int, b: int)
    requires
        0 <= a <= b,
    ensures
        unit(a) == unit(b) || 2 * unit(a) <= unit(b),
    decreases b,
{
    if a >= 0x20_0000_0000_0000 {
        lemma_unit_is_ordered(a / 2, b / 2);
    } else if b >= 0x20_0000_0000_0000 {
        lemma_unit(b / 2);
    }
}

/// Small integers are doubles.
proof fn lemma_rounded_of_small(n: int)
    requires
        0 <= n <= 0x20_0000_0000_0000,
    ensures
        rounded(n) == n,
{
    if n == 0x20_0000_0000_0000 {
        assert(unit(n / 2) == 1);
        assert(unit(n) == 2);
    } else {
        assert(unit(n) == 1);
    }
}

/// Rounding keeps the order.
proof fn lemma_rounded_is_ordered(a: int, b: int)
    requires
        0 <= a <= b,
    ensures
        0 <= rounded(a) <= rounded(b),
{
    lemma_unit(a);
    lemma_unit(b);
    lemma_unit_is_ordered(a, b);
    let (u, v) = (unit(a), unit(b));
    lemma_nearest_bounds(a, u);
    lemma_nearest_bounds(b, v);
    assert(0 <= nearest(a, u) * u) by (nonlinear_arith)
        requires
            nearest(a, u) >= 0,
            u >= 1,
    ;
    if u == v {
        lemma_nearest_is_ordered(a, b, u);
        assert(nearest(a, u) * u <= nearest(b, u) * u) by (nonlinear_arith)
            requires
                nearest(a, u) <= nearest(b, u),
                u >= 1,
        ;
    } else {
        lemma_nearest_of_multiple(0x20_0000_0000_0000, u);
        lemma_nearest_is_ordered(a, 0x20_0000_0000_0000 * u, u);
        lemma_nearest_of_multiple(0x10_0000_0000_0000, v);
        lemma_nearest_is_ordered(0x10_0000_0000_0000 * v, b, v);
        assert(nearest(a, u) * u <= nearest(b, v) * v) by (nonlinear_arith)
            requires
                nearest(a, u) <= 0x20_0000_0000_0000,
                nearest(b, v) >= 0x10_0000_0000_0000,
                1 <= u,
                2 * u <= v,
        ;
    }
}

/// Doubling a number doubles its double.
proof fn lemma_rounded_of_double(n: int)
    requires
        n >= 0,
    ensures
        rounded(2 * n) == 2 * rounded(n),
{
    if 2 * n < 0x20_0000_0000_0000 {
        lemma_rounded_of_small(n);
        lemma_rounded_of_small(2 * n);
    } else {
        lemma_unit(n);
        assert(unit(2 * n) == 2 * unit(n));
        lemma_nearest_of_doubles(n, unit(n));
        let k = nearest(n, unit(n));
        assert(k * (2 * unit(n)) == 2 * (k * unit(n))) by (nonlinear_arith);
    }
}

proof fn lemma_scale(part: int, whole: int)
    requires
        0 < part < 0x20_0000_0000_0000 * whole,
    ensures
        scale(part, whole) >= 1,
        0x10_0000_0000_0000 * whole <= part * scale(part, whole) < 0x20_0000_0000_0000 * whole,
    decreases 0x20_0000_0000_0000 * whole - part,
{
    if part < 0x10_0000_0000_0000 * whole {
        lemma_scale(2 * part, whole);
        let s = scale(2 * part, whole);
        assert(part * (2 * s) == (2 * part) * s) by (nonlinear_arith);
    }
}

/// The quotient of a smaller part comes to a smaller product.
proof fn lemma_product_is_ordered(a: int, b: int, whole: int, count: int)
    requires
        0 < a <= b < 0x20_0000_0000_0000 * whole,
        whole > 0,
        count >= 0,
    ensures
        scaled_product(a, whole, count) * scale(b, whole) <= scaled_product(b, whole, count)
            * scale(a, whole),
    decreases 0x20_0000_0000_0000 * whole - a,
{
    let n = rounded(count);
    let (s, t) = (scale(a, whole), scale(b, whole));
    let (p, q) = (significand(a, whole), significand(b, whole));
    lemma_rounded_is_ordered(0, count);
    lemma_rounded_of_small(0);
    lemma_scale(a, whole);
    lemma_scale(b, whole);
    lemma_nearest_bounds(a * s, whole);
    lemma_nearest_bounds(b * t, whole);
    if a >= 0x10_0000_0000_0000 * whole {
        lemma_nearest_is_ordered(a, b, whole);
        assert(0 <= p * n <= q * n) by (nonlinear_arith)
            requires
                0 <= p <= q,
                n >= 0,
        ;
        lemma_rounded_is_ordered(p * n, q * n);
    } else if b >= 0x10_0000_0000_0000 * whole {
        lemma_nearest_of_multiple(0x10_0000_0000_0000, whole);
        lemma_nearest_is_ordered(0x10_0000_0000_0000 * whole, b, whole);
        lemma_nearest_of_multiple(0x20_0000_0000_0000, whole);
        lemma_nearest_is_ordered(a * s, 0x20_0000_0000_0000 * whole, whole);
        lemma_scale(2 * a, whole);
        assert(0 <= p * n <= 2 * (q * n)) by (nonlinear_arith)
            requires
                0 <= p <= 0x20_0000_0000_0000,
                q >= 0x10_0000_0000_0000,
                n >= 0,
        ;
        lemma_rounded_is_ordered(p * n, 2 * (q * n));
        lemma_rounded_of_double(q * n);
        let y = rounded(q * n);
        assert(2 * y <= y * s) by (nonlinear_arith)
            requires
                y >= 0,
                s >= 2,
        ;
    } else {
        lemma_product_is_ordered(2 * a, 2 * b, whole, count);
        let (u, v) = (scale(2 * a, whole), scale(2 * b, whole));
        assert(a * (2 * u) == (2 * a) * u && b * (2 * v) == (2 * b) * v) by (nonlinear_arith);
        let (x, y) = (rounded(p * n), rounded(q * n));
        assert(x * (2 * v) <= y * (2 * u)) by (nonlinear_arith)
            requires
                x * v <= y * u,
        ;
    }
}

/// A larger part has no smaller share, and no part has no share.
pub proof fn lemma_share_is_ordered(a: int, b: int, whole: int, count: int)
    requires
        0 <= a <= b < whole,
        count >= 0,
    ensures
        0 <= share(a, whole, count) <= share(b, whole, count),
        share(0, whole, count) == 0,
{
    lemma_share_is_positive(0, whole, count);
    lemma_share_is_positive(a, whole, count);
    lemma_share_is_positive(b, whole, count);
    if a > 0 {
        lemma_product_is_ordered(a, b, whole, count);
        lemma_scale(a, whole);
        lemma_scale(b, whole);
        lemma_quotient_is_ordered(
            scaled_product(a, whole, count),
            scale(a, whole),
            scaled_product(b, whole, count),
            scale(b, whole),
        );
    }
}

proof fn lemma_share_is_positive(part: int, whole: int, count: int)
    requires
        0 <= part < whole,
        count >= 0,
    ensures
        scaled_product(part, whole, count) >= 0,
        scale(part, whole) >= 1,
        share(part, whole, count) >= 0,
        part == 0 ==> share(part, whole, count) == 0,
{
    let n = rounded(count);
    let p = significand(part, whole);
    lemma_rounded_of_small(0);
    lemma_rounded_is_ordered(0, count);
    if part == 0 {
        lemma_nearest_of_multiple(0, whole);
        assert(0 * n == 0);
    } else {
        lemma_scale(part, whole);
        lemma_nearest_bounds(part * scale(part, whole), whole);
        assert(p * n >= 0) by (nonlinear_arith)
            requires
                p >= 0,
                n >= 0,
        ;
        lemma_rounded_is_ordered(0, p * n);
        lemma_div_is_ordered(0, rounded(p * n), scale(part, whole));
    }
}

proof fn lemma_quotient_is_ordered(a: int, b: int, c: int, d: int)
    requires
        b > 0,
        d > 0,
        a * d <= c * b,
    ensures
        a / b <= c / d,
{
    lemma_fundamental_div_mod(a, b);
    lemma_fundamental_div_mod(c, d);
    let (q, k) = (a / b, c / d);
    assert(q <= k) by (nonlinear_arith)
        requires
            b * q <= a,
            c < d * k + d,
            a * d <= c * b,
            b > 0,
            d > 0,
    ;
}

/// Multiplying by 64 is exact, so the share of 64 is the integer part of the true quotient.
pub proof fn lemma_share_of_64(part: int, whole: int)
    requires
        0 <= part < whole <= 0xffff,
    ensures
        share(part, whole, 64) == part * 64 / whole,
{
    if part == 0 {
        lemma_share_is_positive(0, whole, 64);
        lemma_div_multiples_vanish(0, whole);
    } else {
        let s = scale(part, whole);
        let t = scale(64 * part, whole);
        let p = significand(part, whole);
        let q = part * 64 / whole;
        reveal_with_fuel(scale, 7);
        assert(s == 64 * t);
        lemma_scale(part, whole);
        lemma_nearest_bounds(part * s, whole);
        lemma_nearest_of_multiple(0x20_0000_0000_0000, whole);
        lemma_nearest_is_ordered(part * s, 0x20_0000_0000_0000 * whole, whole);
        lemma_rounded_of_small(64);
        lemma_rounded_of_small(p);
        lemma_rounded_of_double(p);
        lemma_rounded_of_double(2 * p);
        lemma_rounded_of_double(4 * p);
        lemma_rounded_of_double(8 * p);
        lemma_rounded_of_double(16 * p);
        lemma_rounded_of_double(32 * p);
        assert(scaled_product(part, whole, 64) == 64 * p);
        lemma_fundamental_div_mod(part * 64, whole);
        let r = part * 64 % whole;
        assert(s >= 0x10_0000_0000_0000) by (nonlinear_arith)
            requires
                0x10_0000_0000_0000 * whole <= part * s,
                0 < part < whole,
                s >= 1,
        ;
        assert(q * s <= 64 * p < (q + 1) * s) by {
            assert(64 * (part * s) == (q * s) * whole + r * s) by (nonlinear_arith)
                requires
                    part * 64 == whole * q + r,
            ;
            if r == 0 {
                assert(part * s == (q * t) * whole) by (nonlinear_arith)
                    requires
                        part * 64 == whole * q,
                        s == 64 * t,
                ;
                lemma_nearest_of_multiple(q * t, whole);
                assert(64 * (q * t) == q * s && q * s < (q + 1) * s) by (nonlinear_arith)
                    requires
                        s == 64 * t,
                        s > 0,
                ;
            } else {
                assert(s <= r * s <= (whole - 1) * s) by (nonlinear_arith)
                    requires
                        1 <= r <= whole - 1,
                        s > 0,
                ;
                assert(q * s < 64 * p < (q + 1) * s) by (nonlinear_arith)
                    requires
                        2 * (part * s) - whole <= 2 * (p * whole) <= 2 * (part * s) + whole,
                        64 * (part * s) == (q * s) * whole + r * s,
                        s <= r * s <= (whole - 1) * s,
                        64 * whole < s,
                        whole > 0,
                ;
            }
        }
        assert((q + 1) * s == q * s + s) by (nonlinear_arith);
        lemma_fundamental_div_mod_converse(64 * p, s, q, 64 * p - q * s);
    }
}

/// Computes the integer nearest to `n / d`.
fn nearest_integer(n: u128, d: u128) -> (k: u128)
    requires
        0 < d <= 0x8000_0000_0000_0000_0000_0000_0000_0000 - 1,
        n < u128::MAX,
    ensures
        k == nearest(n as int, d as int),
{
    let q: u128 = n / d;
    let r: u128 = n % d;
    proof {
        lemma_fundamental_div_mod(n as int, d as int);
        assert(q <= n) by (nonlinear_arith)
            requires
                q == n / d,
                d > 0,
        ;
    }
    if 2 * r > d || (2 * r == d && q % 2 == 1) {
        q + 1
    } else {
        q
    }
}

/// Computes the power of two that leaves 53 bits of `n`.
fn unit_of(n: u128) -> (u: u128)
    ensures
        u == unit(n as int),
        u == 1 || u <= n,
    decreases n,
{
    if n < 0x20_0000_0000_0000 {
        1
    } else {
        2 * unit_of(n / 2)
    }
}

/// Computes the double nearest to an integer.
fn round(n: u128) -> (r: u128)
    requires
        n <= 0x1000_0000_0000_0000_0000_0000_0000_0000,
    ensures
        r == rounded(n as int),
        r <= 2 * n,
{
    let u: u128 = unit_of(n);
    proof {
        lemma_unit(n as int);
    }
    let k: u128 = nearest_integer(n, u);
    proof {
        lemma_nearest_bounds(n as int, u as int);
        if n < 0x20_0000_0000_0000 {
            lemma_rounded_of_small(n as int);
        }
    }
    k * u
}

/// Computes the power of two by which a quotient grows to 53 bits before the point.
fn scale_of(part: u128, whole: u16) -> (s: u128)
    requires
        0 < part < 0x20_0000_0000_0000 * whole,
    ensures
        s == scale(part as int, whole as int),
    decreases 0x20_0000_0000_0000 * whole - part,
{
    proof {
        lemma_scale(part as int, whole as int);
    }
    if part >= 0x10_0000_0000_0000 * whole as u128 {
        1
    } else {
        let s: u128 = scale_of(2 * part, whole);
        proof {
            lemma_scale(2 * part as int, whole as int);
            assert(s <= 2 * part * s) by (nonlinear_arith)
                requires
                    part >= 1,
                    s >= 0,
            ;
        }
        2 * s
    }
}

/// Computes the integer part of `part / whole * count` in doubles.
pub fn share_of(part: u16, whole: u16, count: usize) -> (n: u128)
    requires
        part < whole,
    ensures
        n == share(part as int, whole as int, count as int),
{
    if part == 0 {
        proof {
            lemma_share_is_positive(0, whole as int, count as int);
        }
        return 0;
    }
    let s: u128 = scale_of(part as u128, whole);
    proof {
        lemma_scale(part as int, whole as int);
        lemma_nearest_of_multiple(0x20_0000_0000_0000, whole as int);
        lemma_nearest_is_ordered(part * s, 0x20_0000_0000_0000 * whole, whole as int);
        lemma_nearest_bounds(part * s, whole as int);
    }
    let p: u128 = nearest_integer(part as u128 * s, whole as u128);
    let n: u128 = round(count as u128);
    assert(0 <= p * n <= 0x20_0000_0000_0000 * 0x2_0000_0000_0000_0000) by (nonlinear_arith)
        requires
            0 <= p <= 0x20_0000_0000_0000,
            0 <= n <= 0x2_0000_0000_0000_0000,
    ;
    round(p * n) / s
}

/// No integer is nearer to a quotient than the nearest one, and where one is as near, the even one
/// of the two was taken.
pub proof fn law_nearest_is_nearest(n: int, d: int)
    requires
        d > 0,
    ensures
        -d <= 2 * (n - nearest(n, d) * d) <= d,
        2 * (n - nearest(n, d) * d) == d || 2 * (n - nearest(n, d) * d) == -d ==> nearest(n, d) % 2
            == 0,
{
    lemma_nearest_bounds(n, d);
    lemma_fundamental_div_mod(n, d);
    let q = n / d;
    assert((q + 1) * d == q * d + d && d * q == q * d) by (nonlinear_arith);
}

/// A double has 53 bits: an integer below the largest number of 53 bits is kept, and a larger one is
/// moved by half a unit at most, where the unit leaves just 53 bits of it. Twice an integer has
/// twice its unit and twice its double.
pub proof fn law_doubles_have_53_bits(n: int)
    requires
        n >= 0,
    ensures
        n <= 0x20_0000_0000_0000 ==> rounded(n) == n,
        n >= 0x20_0000_0000_0000 ==> 0x10_0000_0000_0000 * unit(n) <= n < 0x20_0000_0000_0000
            * unit(n),
        -unit(n) <= 2 * (rounded(n) - n) <= unit(n),
        n >= 0x10_0000_0000_0000 ==> unit(2 * n) == 2 * unit(n),
        rounded(2 * n) == 2 * rounded(n),
{
    lemma_unit(n);
    lemma_nearest_bounds(n, unit(n));
    lemma_rounded_of_double(n);
    if n <= 0x20_0000_0000_0000 {
        lemma_rounded_of_small(n);
    }
    if n >= 0x20_0000_0000_0000 {
        assert(unit(n) > 1) by {
            lemma_unit(n / 2);
        }
    }
}

/// A share is the integer part of the true quotient. Only where that quotient is an integer itself,
/// rounding may leave the share one below it.
pub proof fn law_share_is_the_quotient(part: int, whole: int, count: int)
    requires
        0 <= part < whole <= 0xffff,
        0 <= count <= 0x1_0000_0000,
    ensures
        share(part, whole, count) == part * count / whole || (part * count % whole == 0 && share(
            part,
            whole,
            count,
        ) == part * count / whole - 1),
{
    if part == 0 {
        lemma_share_is_positive(0, whole, count);
        lemma_div_multiples_vanish(0, whole);
    } else {
        let s = scale(part, whole);
        let p = significand(part, whole);
        let q = part * count / whole;
        let r = part * count % whole;
        let x = rounded(p * count);
        let u = unit(p * count);
        lemma_scale(part, whole);
        lemma_nearest_bounds(part * s, whole);
        lemma_nearest_of_multiple(0x20_0000_0000_0000, whole);
        lemma_nearest_is_ordered(part * s, 0x20_0000_0000_0000 * whole, whole);
        lemma_rounded_of_small(count);
        assert(0 <= p * count <= 0x20_0000_0000_0000 * 0x1_0000_0000) by (nonlinear_arith)
            requires
                0 <= p <= 0x20_0000_0000_0000,
                0 <= count <= 0x1_0000_0000,
        ;
        lemma_unit(p * count);
        lemma_nearest_bounds(p * count, u);
        assert(u <= 0x2_0000_0000);
        lemma_fundamental_div_mod(part * count, whole);
        assert(s >= 0x10_0000_0000_0000) by (nonlinear_arith)
            requires
                0x10_0000_0000_0000 * whole <= part * s,
                0 < part < whole,
                s >= 1,
        ;
        lemma_share_error(part, whole, count, s, p, x, q, r);
    }
}

/// The errors of the two roundings are too small to reach another integer.
proof fn lemma_share_error(
    part: int,
    whole: int,
    count: int,
    s: int,
    p: int,
    x: int,
    q: int,
    r: int,
)
    requires
        0 < part < whole <= 0xffff,
        0 <= count <= 0x1_0000_0000,
        s >= 0x10_0000_0000_0000,
        2 * (part * s) - whole <= 2 * (p * whole) <= 2 * (part * s) + whole,
        -0x2_0000_0000 <= 2 * (x - p * count) <= 0x2_0000_0000,
        part * count == whole * q + r,
        0 <= r < whole,
    ensures
        x / s == q || (r == 0 && x / s == q - 1),
{
    let product = p * count;
    let exact = part * s;
    assert(2 * (exact * count) - whole * count <= 2 * (product * whole) <= 2 * (exact * count)
        + whole * count) by (nonlinear_arith)
        requires
            2 * exact - whole <= 2 * (p * whole) <= 2 * exact + whole,
            product == p * count,
            count >= 0,
    ;
    assert(exact * count == (q * s) * whole + r * s) by (nonlinear_arith)
        requires
            exact == part * s,
            part * count == whole * q + r,
    ;
    assert(2 * (x * whole) - 2 * (product * whole) <= 0x2_0000_0000 * whole && 2 * (product * whole)
        - 2 * (x * whole) <= 0x2_0000_0000 * whole) by (nonlinear_arith)
        requires
            -0x2_0000_0000 <= 2 * (x - product) <= 0x2_0000_0000,
            whole > 0,
    ;
    assert(0 <= whole * count <= 0x1_0000_0000 * whole) by (nonlinear_arith)
        requires
            0 <= count <= 0x1_0000_0000,
            whole > 0,
    ;
    assert(0 <= r * s <= whole * s - s && (r > 0 ==> r * s >= s)) by (nonlinear_arith)
        requires
            0 <= r <= whole - 1,
            s > 0,
    ;
    let above = q * s + s;
    assert(x < above) by (nonlinear_arith)
        requires
            2 * (x * whole) <= 2 * ((q * s) * whole) + 2 * (whole * s) - 2 * s + 0x3_0000_0000
                * whole,
            above == q * s + s,
            0x3_0000_0000 * whole < 2 * s,
            whole > 0,
    ;
    if r > 0 {
        assert(x >= q * s) by (nonlinear_arith)
            requires
                2 * (x * whole) >= 2 * ((q * s) * whole) + 2 * s - 0x3_0000_0000 * whole,
                0x3_0000_0000 * whole < 2 * s,
                whole > 0,
        ;
        lemma_fundamental_div_mod_converse(x, s, q, x - q * s);
    } else {
        assert(x >= q * s - s) by (nonlinear_arith)
            requires
                2 * (x * whole) >= 2 * ((q * s) * whole) - 0x3_0000_0000 * whole,
                0x3_0000_0000 * whole < 2 * s,
                whole > 0,
                s > 0,
        ;
        if x >= q * s {
            lemma_fundamental_div_mod_converse(x, s, q, x - q * s);
        } else {
            assert((q - 1) * s == q * s - s) by (nonlinear_arith);
            lemma_fundamental_div_mod_converse(x, s, q - 1, x - (q - 1) * s);
        }
    }
}

} // verus!
