//! Extended Euclidean algorithm and modular multiplicative inverse on `i128`,
//! with Rust's truncating division and remainder.

use vstd::prelude::*;
use vstd::arithmetic::div_mod::*;

verus! {

pub open spec fn abs(n: int) -> int {
    if n < 0 {
        -n
    } else {
        n
    }
}

pub open spec fn in_i128(v: int) -> bool {
    i128::MIN <= v <= i128::MAX
}

/// Quotient of `n / d` rounded towards zero, as Rust's `/` computes it.
pub open spec fn trunc_div(n: int, d: int) -> int {
    if n >= 0 {
        if d > 0 {
            n / d
        } else {
            -(n / (-d))
        }
    } else {
        if d > 0 {
            -((-n) / d)
        } else {
            (-n) / (-d)
        }
    }
}

/// Remainder of `n / d` with the sign of `n`, as Rust's `%` computes it.
pub open spec fn trunc_rem(n: int, d: int) -> int {
    if n >= 0 {
        n % abs(d)
    } else {
        -((-n) % abs(d))
    }
}

/// `d` divides `n`.
pub open spec fn divides(d: int, n: int) -> bool {
    exists|k: int| n == #[trigger] (d * k)
}

/// The triple `(g, x, y)` that the steps of the extended Euclidean algorithm compute
/// for `a` and `b`, recursing on `(b % a, a)` until the first argument is zero. The
/// `g` found this way is a greatest common divisor up to its sign.
pub open spec fn euclid_steps(a: int, b: int) -> (int, int, int)
    decreases abs(a),
{
    if a == 0 {
        (b, 0, 1)
    } else {
        proof {
            lemma_trunc_rem_smaller(b, a);
        }
        let r = euclid_steps(trunc_rem(b, a), a);
        (r.0, r.2 - trunc_div(b, a) * r.1, r.1)
    }
}

/// Every step of the Euclidean recursion on `a` and `b` stays within `i128`:
/// no remainder or quotient of `i128::MIN` by `-1`, and no coefficient out of range.
pub open spec fn euclid_steps_fit(a: int, b: int) -> bool
    decreases abs(a),
{
    if a == 0 {
        true
    } else {
        proof {
            lemma_trunc_rem_smaller(b, a);
        }
        let r = euclid_steps(trunc_rem(b, a), a);
        &&& !(a == -1 && b == i128::MIN)
        &&& euclid_steps_fit(trunc_rem(b, a), a)
        &&& in_i128(trunc_div(b, a) * r.1)
        &&& in_i128(r.2 - trunc_div(b, a) * r.1)
    }
}

pub proof fn lemma_trunc_rem_smaller(n: int, d: int)
    requires
        d != 0,
    ensures
        abs(trunc_rem(n, d)) < abs(d),
        n >= 0 ==> 0 <= trunc_rem(n, d),
        n < 0 ==> trunc_rem(n, d) <= 0,
{
    lemma_mod_bound(n, abs(d));
    lemma_mod_bound(-n, abs(d));
}

/// `n` splits into `d * trunc_div(n, d) + trunc_rem(n, d)`, and the two parts carry
/// the sign of `n`, so their sizes add up to the size of `n`.
pub proof fn lemma_trunc_div_rem(n: int, d: int)
    requires
        d != 0,
    ensures
        n == d * trunc_div(n, d) + trunc_rem(n, d),
        abs(n) == abs(d) * abs(trunc_div(n, d)) + abs(trunc_rem(n, d)),
        abs(trunc_rem(n, d)) < abs(d),
        trunc_rem(n, d) == 0 && n != 0 ==> abs(trunc_div(n, d)) >= 1,
{
    lemma_trunc_rem_smaller(n, d);
    let ad = abs(d);
    let an = abs(n);
    lemma_fundamental_div_mod(an, ad);
    lemma_div_pos_is_pos(an, ad);
    let q = an / ad;
    let r = an % ad;
    assert(an == ad * q + r);
    if n >= 0 {
        if d > 0 {
            assert(trunc_div(n, d) == q);
        } else {
            assert(trunc_div(n, d) == -q);
            assert(d * (-q) == ad * q) by (nonlinear_arith)
                requires
                    ad == -d,
            ;
        }
        assert(trunc_rem(n, d) == r);
    } else {
        if d > 0 {
            assert(trunc_div(n, d) == -q);
            assert(d * (-q) == -(ad * q)) by (nonlinear_arith)
                requires
                    ad == d,
            ;
        } else {
            assert(trunc_div(n, d) == q);
            assert(d * q == -(ad * q)) by (nonlinear_arith)
                requires
                    ad == -d,
            ;
        }
        assert(trunc_rem(n, d) == -r);
    }
    assert(abs(trunc_div(n, d)) == q);
    if r == 0 && n != 0 {
        if q == 0 {
            assert(ad * q == 0) by (nonlinear_arith)
                requires
                    q == 0,
            ;
        }
    }
}

/// Bezout's identity for the triple of the recursion: `a * x + b * y == g`.
pub proof fn lemma_euclid_steps_bezout(a: int, b: int)
    ensures
        ({
            let (g, x, y) = euclid_steps(a, b);
            a * x + b * y == g
        }),
    decreases abs(a),
{
    if a != 0 {
        lemma_trunc_rem_smaller(b, a);
        lemma_trunc_div_rem(b, a);
        let r = trunc_rem(b, a);
        let q = trunc_div(b, a);
        lemma_euclid_steps_bezout(r, a);
        let (g, x1, y1) = euclid_steps(r, a);
        assert(a * (y1 - q * x1) + b * x1 == g) by (nonlinear_arith)
            requires
                r * x1 + a * y1 == g,
                b == a * q + r,
        ;
    }
}

/// The `g` of the recursion divides both arguments.
pub proof fn lemma_euclid_steps_divides(a: int, b: int)
    ensures
        divides(euclid_steps(a, b).0, a),
        divides(euclid_steps(a, b).0, b),
    decreases abs(a),
{
    let g = euclid_steps(a, b).0;
    if a == 0 {
        assert(a == g * 0);
        assert(b == g * 1);
    } else {
        lemma_trunc_rem_smaller(b, a);
        lemma_trunc_div_rem(b, a);
        let r = trunc_rem(b, a);
        let q = trunc_div(b, a);
        lemma_euclid_steps_divides(r, a);
        let kr = choose|k: int| r == #[trigger] (g * k);
        let ka = choose|k: int| a == #[trigger] (g * k);
        assert(b == g * (ka * q + kr)) by (nonlinear_arith)
            requires
                r == g * kr,
                a == g * ka,
                b == a * q + r,
        ;
        assert(a == g * ka);
    }
}

/// The `g` of the recursion is zero only when both arguments are zero.
pub proof fn lemma_euclid_steps_zero(a: int, b: int)
    ensures
        euclid_steps(a, b).0 == 0 <==> (a == 0 && b == 0),
    decreases abs(a),
{
    if a != 0 {
        lemma_trunc_rem_smaller(b, a);
        lemma_euclid_steps_zero(trunc_rem(b, a), a);
    }
}

/// Size bounds on the Bezout coefficients when neither argument is zero:
/// `|x| * |g| <= |b|` and `|y| * |g| <= |a|`.
pub proof fn lemma_euclid_steps_bounds(a: int, b: int)
    requires
        a != 0,
        b != 0,
    ensures
        ({
            let (g, x, y) = euclid_steps(a, b);
            &&& g != 0
            &&& abs(x) * abs(g) <= abs(b)
            &&& abs(y) * abs(g) <= abs(a)
        }),
    decreases abs(a),
{
    lemma_trunc_rem_smaller(b, a);
    lemma_trunc_div_rem(b, a);
    let r = trunc_rem(b, a);
    let q = trunc_div(b, a);
    let (g, x, y) = euclid_steps(a, b);
    if r == 0 {
        assert(euclid_steps(r, a) == (a, 0int, 1int));
        assert(x == 1 - q * 0);
        assert(abs(x) * abs(g) <= abs(b)) by (nonlinear_arith)
            requires
                x == 1 - q * 0,
                g == a,
                abs(b) == abs(a) * abs(q),
                abs(q) >= 1,
                abs(a) >= 0,
        ;
        assert(abs(y) * abs(g) == 0) by (nonlinear_arith)
            requires
                y == 0,
        ;
    } else {
        lemma_euclid_steps_bounds(r, a);
        let (g1, x1, y1) = euclid_steps(r, a);
        assert(g == g1 && x == y1 - q * x1 && y == x1);
        assert(abs(x) * abs(g) <= abs(b)) by (nonlinear_arith)
            requires
                x == y1 - q * x1,
                abs(x1) * abs(g) <= abs(a),
                abs(y1) * abs(g) <= abs(r),
                abs(b) == abs(a) * abs(q) + abs(r),
                abs(x) == if x < 0 { -x } else { x },
                abs(x1) == if x1 < 0 { -x1 } else { x1 },
                abs(y1) == if y1 < 0 { -y1 } else { y1 },
                abs(q) == if q < 0 { -q } else { q },
                abs(g) == if g < 0 { -g } else { g },
        ;
    }
}

/// The recursion stays within `i128` on every pair of arguments that avoids `i128::MIN`.
pub proof fn lemma_euclid_steps_fit(a: int, b: int)
    requires
        i128::MIN < a <= i128::MAX,
        i128::MIN < b <= i128::MAX,
    ensures
        euclid_steps_fit(a, b),
    decreases abs(a),
{
    if a != 0 {
        lemma_trunc_rem_smaller(b, a);
        lemma_trunc_div_rem(b, a);
        let r = trunc_rem(b, a);
        let q = trunc_div(b, a);
        lemma_euclid_steps_fit(r, a);
        let (g1, x1, y1) = euclid_steps(r, a);
        if r == 0 {
            assert(euclid_steps(r, a) == (a, 0int, 1int));
            assert(q * x1 == 0) by (nonlinear_arith)
                requires
                    x1 == 0,
            ;
        } else {
            lemma_euclid_steps_bounds(r, a);
            assert(abs(q * x1) <= abs(b) && abs(y1 - q * x1) <= abs(b)) by (nonlinear_arith)
                requires
                    abs(x1) * abs(g1) <= abs(a),
                    abs(y1) * abs(g1) <= abs(r),
                    abs(g1) >= 1,
                    abs(b) == abs(a) * abs(q) + abs(r),
                    abs(x1) == if x1 < 0 { -x1 } else { x1 },
                    abs(y1) == if y1 < 0 { -y1 } else { y1 },
                    abs(q) == if q < 0 { -q } else { q },
                    abs(g1) == if g1 < 0 { -g1 } else { g1 },
                    abs(q * x1) == if q * x1 < 0 { -(q * x1) } else { q * x1 },
                    abs(y1 - q * x1) == if y1 - q * x1 < 0 { -(y1 - q * x1) } else { y1
                        - q * x1 },
            ;
        }
    }
}

/// The extended Euclidean algorithm's result `(g, x, y)`: the triple of the recursion,
/// negated where its `g` is negative, so that `g` is the greatest common divisor.
pub open spec fn ext_euclid_spec(a: int, b: int) -> (int, int, int) {
    let r = euclid_steps(a, b);
    if r.0 < 0 {
        (-r.0, -r.1, -r.2)
    } else {
        r
    }
}

/// `g` is the greatest common divisor of `a` and `b`: not negative, a common divisor,
/// and divided by every common divisor (so `0` for `a == b == 0`).
pub open spec fn is_gcd(g: int, a: int, b: int) -> bool {
    &&& g >= 0
    &&& divides(g, a)
    &&& divides(g, b)
    &&& forall|d: int| divides(d, a) && divides(d, b) ==> #[trigger] divides(d, g)
}

/// Every step of `ext_euclid(a, b)` stays within `i128`: the recursion, and the
/// negation of its triple where its `g` is negative.
pub open spec fn ext_euclid_fits(a: int, b: int) -> bool {
    let r = euclid_steps(a, b);
    &&& euclid_steps_fit(a, b)
    &&& r.0 < 0 ==> in_i128(-r.0) && in_i128(-r.1) && in_i128(-r.2)
}

/// `a` has a multiplicative inverse modulo `m`.
pub open spec fn has_inverse(a: int, m: int) -> bool {
    exists|x: int| #[trigger] divides(m, a * x - 1)
}

/// `v` is one of the remainders that Rust's `%` by `m` leaves with the sign of `m`:
/// `0 <= v < m` for positive `m`, `m < v <= 0` for negative `m`.
pub open spec fn in_remainder_range(v: int, m: int) -> bool {
    ||| m > 0 && 0 <= v < m
    ||| m < 0 && m < v <= 0
}

/// The inverse of `a` modulo `m` among those remainders, where one exists.
pub open spec fn inverse_mod(a: int, m: int) -> Option<int> {
    if m != 0 && has_inverse(a, m) {
        Some(choose|v: int| in_remainder_range(v, m) && #[trigger] divides(m, a * v - 1))
    } else {
        None
    }
}

/// Every step of `mod_mult_inv(a, m)` stays within `i128` and divides by a nonzero `m`.
pub open spec fn mod_mult_inv_fits(a: int, m: int) -> bool {
    let (g, x, _) = ext_euclid_spec(a, m);
    &&& ext_euclid_fits(a, m)
    &&& g == 1 ==> {
        &&& m != 0
        &&& !(x == i128::MIN && m == -1)
        &&& in_i128(trunc_rem(x, m) + m)
    }
}

/// A divisor of a nonzero `n` is no larger than `n` in size.
pub proof fn lemma_divisor_bound(d: int, n: int)
    requires
        divides(d, n),
        n != 0,
    ensures
        abs(d) <= abs(n),
{
    let k = choose|k: int| n == #[trigger] (d * k);
    assert(abs(d) <= abs(n)) by (nonlinear_arith)
        requires
            n == d * k,
            n != 0,
            abs(d) == if d < 0 { -d } else { d },
            abs(n) == if n < 0 { -n } else { n },
    ;
}

/// Bezout's identity and the greatest common divisor: `a * x + b * y == g`, and `g`
/// is the greatest common divisor of `a` and `b`.
pub proof fn lemma_ext_euclid_is_gcd(a: int, b: int)
    ensures
        ({
            let (g, x, y) = ext_euclid_spec(a, b);
            &&& a * x + b * y == g
            &&& is_gcd(g, a, b)
            &&& (g == 0 <==> (a == 0 && b == 0))
        }),
{
    lemma_euclid_steps_bezout(a, b);
    lemma_euclid_steps_divides(a, b);
    lemma_euclid_steps_zero(a, b);
    let (g0, x0, y0) = euclid_steps(a, b);
    let (g, x, y) = ext_euclid_spec(a, b);
    let ka = choose|k: int| a == #[trigger] (g0 * k);
    let kb = choose|k: int| b == #[trigger] (g0 * k);
    if g0 < 0 {
        assert(a * x + b * y == g) by (nonlinear_arith)
            requires
                a * x0 + b * y0 == g0,
                x == -x0,
                y == -y0,
                g == -g0,
        ;
        assert(a == g * (-ka)) by (nonlinear_arith)
            requires
                a == g0 * ka,
                g == -g0,
        ;
        assert(b == g * (-kb)) by (nonlinear_arith)
            requires
                b == g0 * kb,
                g == -g0,
        ;
    } else {
        assert(a == g * ka);
        assert(b == g * kb);
    }
    assert forall|d: int| divides(d, a) && divides(d, b) implies #[trigger] divides(d, g) by {
        let da = choose|k: int| a == #[trigger] (d * k);
        let db = choose|k: int| b == #[trigger] (d * k);
        assert(g == d * (da * x + db * y)) by (nonlinear_arith)
            requires
                a * x + b * y == g,
                a == d * da,
                b == d * db,
        ;
    }
}

/// `ext_euclid` stays within `i128` on every pair of arguments that avoids `i128::MIN`.
pub proof fn lemma_ext_euclid_fits(a: int, b: int)
    requires
        i128::MIN < a <= i128::MAX,
        i128::MIN < b <= i128::MAX,
    ensures
        ext_euclid_fits(a, b),
{
    lemma_euclid_steps_fit(a, b);
    lemma_euclid_steps_divides(a, b);
    let (g, x, y) = euclid_steps(a, b);
    if a == 0 {
        assert(euclid_steps(a, b) == (b, 0int, 1int));
    } else if b == 0 {
        lemma_trunc_div_rem(b, a);
        lemma_trunc_rem_smaller(b, a);
        assert(trunc_rem(b, a) == 0);
        assert(euclid_steps(0, a) == (a, 0int, 1int));
        assert(x == 1 - trunc_div(b, a) * 0);
        assert(trunc_div(b, a) * 0 == 0) by (nonlinear_arith);
        lemma_divisor_bound(g, a);
    } else {
        lemma_euclid_steps_bounds(a, b);
        lemma_divisor_bound(g, a);
        assert(abs(x) <= abs(b) && abs(y) <= abs(a)) by (nonlinear_arith)
            requires
                abs(x) * abs(g) <= abs(b),
                abs(y) * abs(g) <= abs(a),
                g != 0,
                abs(g) == if g < 0 { -g } else { g },
                abs(x) >= 0,
                abs(y) >= 0,
        ;
    }
}

/// `a` has an inverse modulo `m` exactly when the greatest common divisor is `1`.
pub proof fn lemma_gcd_one_iff_inverse(a: int, m: int)
    ensures
        ext_euclid_spec(a, m).0 == 1 <==> has_inverse(a, m),
{
    lemma_ext_euclid_is_gcd(a, m);
    let (g, x, y) = ext_euclid_spec(a, m);
    if g == 1 {
        assert(a * x - 1 == m * (-y)) by (nonlinear_arith)
            requires
                a * x + m * y == 1,
        ;
        assert(divides(m, a * x - 1));
    } else if has_inverse(a, m) {
        let w = choose|w: int| #[trigger] divides(m, a * w - 1);
        let t = choose|k: int| a * w - 1 == #[trigger] (m * k);
        let ka = choose|k: int| a == #[trigger] (g * k);
        let km = choose|k: int| m == #[trigger] (g * k);
        assert(1 == g * (ka * w - km * t)) by (nonlinear_arith)
            requires
                a * w - 1 == m * t,
                a == g * ka,
                m == g * km,
        ;
        assert(false) by (nonlinear_arith)
            requires
                1 == g * (ka * w - km * t),
                g >= 0,
                g != 1,
        ;
    }
}

/// Two inverses of `a` modulo `m` among the remainders of `m` are the same.
pub proof fn lemma_inverse_unique(a: int, m: int, v: int, w: int)
    requires
        in_remainder_range(v, m),
        in_remainder_range(w, m),
        divides(m, a * v - 1),
        divides(m, a * w - 1),
    ensures
        v == w,
{
    let kv = choose|k: int| a * v - 1 == #[trigger] (m * k);
    let kw = choose|k: int| a * w - 1 == #[trigger] (m * k);
    // v - w == v * (1 - a * w) - w * (1 - a * v) is a multiple of m.
    assert(v - w == m * (w * kv - v * kw)) by (nonlinear_arith)
        requires
            a * v - 1 == m * kv,
            a * w - 1 == m * kw,
    ;
    let t = w * kv - v * kw;
    assert(t == 0) by (nonlinear_arith)
        requires
            v - w == m * t,
            (m > 0 && 0 <= v < m && 0 <= w < m) || (m < 0 && m < v <= 0 && m < w <= 0),
    ;
}

/// The value that `mod_mult_inv` computes from a greatest common divisor `1` is an
/// inverse of `a` modulo `m` among the remainders of `m`.
pub proof fn lemma_mod_mult_inv_congruent(a: int, m: int)
    requires
        m != 0,
        ext_euclid_spec(a, m).0 == 1,
    ensures
        ({
            let x = ext_euclid_spec(a, m).1;
            let v = trunc_rem(trunc_rem(x, m) + m, m);
            divides(m, a * v - 1) && in_remainder_range(v, m)
        }),
{
    let (g, x, y) = ext_euclid_spec(a, m);
    lemma_ext_euclid_is_gcd(a, m);
    let xr = trunc_rem(x, m);
    let v = trunc_rem(xr + m, m);
    lemma_trunc_div_rem(x, m);
    lemma_trunc_div_rem(xr + m, m);
    lemma_trunc_rem_smaller(x, m);
    lemma_trunc_rem_smaller(xr + m, m);
    let q1 = trunc_div(x, m);
    let q2 = trunc_div(xr + m, m);
    assert(a * v - 1 == m * (a * (q2 * -1 + 1 - q1) - y)) by (nonlinear_arith)
        requires
            a * x + m * y == 1,
            x == m * q1 + xr,
            xr + m == m * q2 + v,
    ;
}

/// Where `a` has an inverse modulo a nonzero `m`, `inverse_mod` is such an inverse
/// among the remainders of `m`.
pub proof fn lemma_inverse_mod_is_inverse(a: int, m: int)
    requires
        m != 0,
        has_inverse(a, m),
    ensures
        inverse_mod(a, m) matches Some(v) && in_remainder_range(v, m) && divides(m, a * v - 1),
{
    lemma_gcd_one_iff_inverse(a, m);
    lemma_mod_mult_inv_congruent(a, m);
    let x = ext_euclid_spec(a, m).1;
    let v = trunc_rem(trunc_rem(x, m) + m, m);
    assert(in_remainder_range(v, m) && divides(m, a * v - 1));
}

/// `mod_mult_inv` stays within `i128` for every `a` other than `i128::MIN` and every
/// modulus `m` with `0 < m <= 2^126`.
pub proof fn lemma_mod_mult_inv_fits(a: int, m: int)
    requires
        i128::MIN < a <= i128::MAX,
        0 < m <= 0x4000_0000_0000_0000_0000_0000_0000_0000,
    ensures
        mod_mult_inv_fits(a, m),
{
    lemma_ext_euclid_fits(a, m);
    let (g0, x0, _) = euclid_steps(a, m);
    let (g, x, _) = ext_euclid_spec(a, m);
    if g == 1 {
        if a != 0 {
            lemma_euclid_steps_bounds(a, m);
            assert(abs(x0) <= m) by (nonlinear_arith)
                requires
                    abs(x0) * abs(g0) <= abs(m),
                    abs(g0) == 1,
                    m > 0,
            ;
        } else {
            assert(euclid_steps(a, m) == (m, 0int, 1int));
        }
        assert(abs(x) == abs(x0));
        lemma_trunc_rem_smaller(x, m);
    }
}

/// The inverse of the inverse of `a` modulo a positive `m` is `a` reduced modulo `m`.
pub proof fn lemma_inverse_of_inverse(a: int, m: int)
    requires
        m > 0,
        inverse_mod(a, m) is Some,
    ensures
        inverse_mod(inverse_mod(a, m).unwrap(), m) == Some(a % m),
{
    lemma_inverse_mod_is_inverse(a, m);
    let x = inverse_mod(a, m).unwrap();
    let r = a % m;
    lemma_fundamental_div_mod(a, m);
    lemma_mod_bound(a, m);
    let q = a / m;
    let k = choose|k: int| a * x - 1 == #[trigger] (m * k);
    assert(x * r - 1 == m * (k - q * x)) by (nonlinear_arith)
        requires
            a * x - 1 == m * k,
            a == m * q + r,
    ;
    assert(divides(m, x * r - 1));
    assert(has_inverse(x, m));
    lemma_inverse_mod_is_inverse(x, m);
    let v = inverse_mod(x, m).unwrap();
    assert(in_remainder_range(r, m));
    lemma_inverse_unique(x, m, v, r);
}

/// The inverse of `a` modulo a positive `m` depends only on `a` reduced modulo `m`.
pub proof fn lemma_inverse_mod_reduced(a: int, m: int)
    requires
        m > 0,
    ensures
        inverse_mod(a, m) == inverse_mod(a % m, m),
{
    let r = a % m;
    lemma_fundamental_div_mod(a, m);
    let q = a / m;
    assert forall|x: int|
        #![trigger divides(m, a * x - 1)]
        #![trigger divides(m, r * x - 1)]
        divides(m, a * x - 1) <==> divides(m, r * x - 1) by {
        if divides(m, a * x - 1) {
            let k = choose|k: int| a * x - 1 == #[trigger] (m * k);
            assert(r * x - 1 == m * (k - q * x)) by (nonlinear_arith)
                requires
                    a * x - 1 == m * k,
                    a == m * q + r,
            ;
        }
        if divides(m, r * x - 1) {
            let k = choose|k: int| r * x - 1 == #[trigger] (m * k);
            assert(a * x - 1 == m * (k + q * x)) by (nonlinear_arith)
                requires
                    r * x - 1 == m * k,
                    a == m * q + r,
            ;
        }
    }
    if has_inverse(a, m) {
        let w = choose|w: int| #[trigger] divides(m, a * w - 1);
        assert(divides(m, r * w - 1));
        assert(has_inverse(r, m));
        lemma_inverse_mod_is_inverse(a, m);
        lemma_inverse_mod_is_inverse(r, m);
        let v1 = inverse_mod(a, m).unwrap();
        let v2 = inverse_mod(r, m).unwrap();
        assert(divides(m, a * v2 - 1));
        lemma_inverse_unique(a, m, v1, v2);
    } else if has_inverse(r, m) {
        let w = choose|w: int| #[trigger] divides(m, r * w - 1);
        assert(divides(m, a * w - 1));
    }
}

/// Helper for the exec code: Rust's checked `/` and `%` give `trunc_div` and `trunc_rem`.
fn div_rem(b: i128, a: i128) -> (r: (i128, i128))
    requires
        a != 0,
        !(a == -1 && b == i128::MIN),
    ensures
        r.0 == trunc_div(b as int, a as int),
        r.1 == trunc_rem(b as int, a as int),
{
    proof {
        let x = b as int;
        let d = a as int;
        if x == 0 {
            lemma_div_of0(d);
        } else if x > 0 && d > 0 {
            lemma_div_nonincreasing(x, d);
            lemma_div_pos_is_pos(x, d);
        } else if x < 0 && d < 0 {
            lemma_div_pos_is_pos(x * -1, d * -1);
            lemma_div_basics(x * -1);
            if d != -1 {
                lemma_div_is_ordered_by_denominator(x * -1, 2, d * -1);
            }
        } else if x < 0 {
            lemma_div_nonincreasing(x * -1, d);
            lemma_div_pos_is_pos(x * -1, d);
        } else {
            lemma_div_nonincreasing(x, d * -1);
            lemma_div_pos_is_pos(x, d * -1);
        }
    }
    let q = b.checked_div(a).unwrap();
    let r = b.checked_rem(a).unwrap();
    (q, r)
}

/// The recursion of the extended Euclidean algorithm.
fn euclid_steps_exec(a: i128, b: i128) -> (r: (i128, i128, i128))
    requires
        euclid_steps_fit(a as int, b as int),
    ensures
        (r.0 as int, r.1 as int, r.2 as int) == euclid_steps(a as int, b as int),
    decreases abs(a as int),
{
    if a == 0 {
        (b, 0, 1)
    } else {
        proof {
            lemma_trunc_rem_smaller(b as int, a as int);
        }
        let (q, rem) = div_rem(b, a);
        let (g, x, y) = euclid_steps_exec(rem, a);
        (g, y - q * x, x)
    }
}

/// Finds the greatest common divisor `g` of `a` and `b`, and `x`, `y` such that
/// `a * x + b * y == g` (Bezout coefficients), by the extended Euclidean algorithm.
pub fn ext_euclid(a: i128, b: i128) -> (r: (i128, i128, i128))
    requires
        ext_euclid_fits(a as int, b as int),
    ensures
        (r.0 as int, r.1 as int, r.2 as int) == ext_euclid_spec(a as int, b as int),
        is_gcd(r.0 as int, a as int, b as int),
        a * r.1 + b * r.2 == r.0,
        r.0 == 0 <==> (a == 0 && b == 0),
{
    proof {
        lemma_ext_euclid_is_gcd(a as int, b as int);
    }
    let (g, x, y) = euclid_steps_exec(a, b);
    if g < 0 {
        (-g, -x, -y)
    } else {
        (g, x, y)
    }
}

/// Calculates the modular multiplicative inverse `x` of `a` such that
/// `a * x ≡ 1 (mod m)`, taken among the remainders of `m` (`0 <= x < m` for positive
/// `m`). Such an integer may not exist; then the result is `None`.
pub fn mod_mult_inv(a: i128, m: i128) -> (r: Option<i128>)
    requires
        mod_mult_inv_fits(a as int, m as int),
    ensures
        r is Some <==> has_inverse(a as int, m as int),
        r matches Some(v) ==> divides(m as int, a * v - 1) && in_remainder_range(
            v as int,
            m as int,
        ),
        r matches Some(v) ==> inverse_mod(a as int, m as int) == Some(v as int),
        r is None ==> inverse_mod(a as int, m as int) is None,
{
    proof {
        lemma_gcd_one_iff_inverse(a as int, m as int);
    }
    let (g, x, _) = ext_euclid(a, m);
    if g != 1 {
        None
    } else {
        let (_, xr) = div_rem(x, m);
        proof {
            lemma_trunc_rem_smaller(x as int, m as int);
        }
        let shifted = xr + m;
        let (_, v) = div_rem(shifted, m);
        proof {
            lemma_mod_mult_inv_congruent(a as int, m as int);
            lemma_inverse_mod_is_inverse(a as int, m as int);
            let c = inverse_mod(a as int, m as int).unwrap();
            assert(in_remainder_range(v as int, m as int) && divides(m as int, a * v - 1));
            lemma_inverse_unique(a as int, m as int, c, v as int);
        }
        Some(v)
    }
}

} // verus!
