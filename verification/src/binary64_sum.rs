//! Signed `f64` values on integers, their sums (each rounded to the nearest
//! `f64`, ties to even) and their order.
use crate::binary64::{
    count_f64, count_f64_exec, lemma_log2_bounds, lemma_log2_count_bounds, lemma_log2_count_mono,
    lemma_pow2_1, log2_floor, millis_f64, nearest_f64,
    nearest_f64_exec, pow2_exec, round_even,
};
use vstd::arithmetic::power2::{
    lemma2_to64, lemma2_to64_rest, lemma_pow2_adds, lemma_pow2_pos, lemma_pow2_strictly_increases,
    lemma_pow2_unfold, pow2,
};
use vstd::prelude::*;

verus! {

/// `(m, x)` with a 54-bit `m == 2^53` written as `(2^52, x + 1)`.
pub open spec fn canon(f: (nat, int)) -> (nat, int) {
    if f.0 == pow2(53) {
        (pow2(52), f.1 + 1)
    } else {
        f
    }
}

/// A signed value `(neg, m, x)`, `±m * 2^x`, in its one written form: zero
/// as `(false, 0, 0)`, otherwise `2^52 <= m < 2^53`.
pub open spec fn is_canon(f: (bool, nat, int)) -> bool {
    &&& f.1 == 0 ==> !f.0 && f.2 == 0
    &&& f.1 != 0 ==> pow2(52) <= f.1 < pow2(53)
}

/// `v` milliseconds as a signed `f64` number of seconds.
pub open spec fn signed_millis(v: int) -> (bool, nat, int) {
    if v == 0 {
        (false, 0, 0)
    } else {
        let c = canon(millis_f64(v));
        (v < 0, c.0, c.1)
    }
}

/// The value of `f` times `2^-xm`, as an integer (for `xm <= f.2`).
pub open spec fn scaled(f: (bool, nat, int), xm: int) -> int {
    let mag = f.1 * pow2((f.2 - xm) as nat);
    if f.0 {
        -mag
    } else {
        mag as int
    }
}

/// The smaller exponent of two values.
pub open spec fn min_exp(a: (bool, nat, int), b: (bool, nat, int)) -> int {
    if a.2 <= b.2 {
        a.2
    } else {
        b.2
    }
}

/// The `f64` sum of the nonzero values `±ia * 2^xm` and `±ib * 2^xm`.
pub open spec fn combine(sa: bool, ia: nat, sb: bool, ib: nat, xm: int) -> (bool, nat, int) {
    if sa == sb {
        let r = canon(nearest_f64(ia + ib, 1, xm));
        (sa, r.0, r.1)
    } else if ia == ib {
        (false, 0, 0)
    } else if ia > ib {
        let r = canon(nearest_f64((ia - ib) as nat, 1, xm));
        (sa, r.0, r.1)
    } else {
        let r = canon(nearest_f64((ib - ia) as nat, 1, xm));
        (sb, r.0, r.1)
    }
}

/// The `f64` sum `a + b`: the exact sum rounded to the nearest `f64`.
pub open spec fn add_f64(a: (bool, nat, int), b: (bool, nat, int)) -> (bool, nat, int) {
    if a.1 == 0 {
        b
    } else if b.1 == 0 {
        a
    } else {
        let xm = min_exp(a, b);
        combine(a.0, a.1 * pow2((a.2 - xm) as nat), b.0, b.1 * pow2((b.2 - xm) as nat), xm)
    }
}

/// `a > b` for the values of `a` and `b`.
pub open spec fn gt_f64(a: (bool, nat, int), b: (bool, nat, int)) -> bool {
    scaled(a, min_exp(a, b)) > scaled(b, min_exp(a, b))
}

/// `n as f64 * 0.5` for a count `n`.
pub open spec fn half_count(n: nat) -> (bool, nat, int) {
    if n == 0 {
        (false, 0, 0)
    } else {
        let c = canon(count_f64(n));
        (false, c.0, c.1 - 1)
    }
}

/// The `f64` sum of `vs` (milliseconds, each as `f64` seconds), added left
/// to right.
pub open spec fn sum_millis(vs: Seq<int>) -> (bool, nat, int)
    decreases vs.len(),
{
    if vs.len() == 0 {
        (false, 0, 0)
    } else {
        add_f64(sum_millis(vs.drop_last()), signed_millis(vs.last()))
    }
}

// ---------------------------------------------------------------------------
// Lemmas
// ---------------------------------------------------------------------------

/// `a == q * 2^s + r` with `r < 2^s` pins `a / 2^s` and `a % 2^s`.
proof fn lemma_div_pow2(a: nat, q: nat, r: nat, p: nat)
    requires
        p > 0,
        a == q * p + r,
        r < p,
    ensures
        a / p == q,
        a % p == r,
{
    vstd::arithmetic::div_mod::lemma_fundamental_div_mod_converse(a as int, p as int, q as int, r as int);
}

/// Adding a value far below the last place of `m * 2^s` leaves it.
proof fn lemma_far_add(m: nat, s: nat, d: nat, xm: int)
    requires
        pow2(52) <= m < pow2(53),
        s >= 67,
        0 < d < pow2(53),
    ensures
        canon(nearest_f64(m * pow2(s) + d, 1, xm)) == (m, xm + s),
{
    let p = pow2(s);
    lemma_pow2_strictly_increases(53, s);
    lemma_pow2_adds(52, s);
    lemma_pow2_adds(53, s);
    let a = m * p + d;
    assert(pow2(52) * p <= a < pow2(53) * p) by (nonlinear_arith)
        requires
            pow2(52) <= m < pow2(53),
            a == m * p + d,
            d < p,
    ;
    lemma_log2_count_bounds(a, 52 + s, 53 + s);
    assert(log2_floor(a, 1) == 52 + s);
    assert((log2_floor(a, 1) - 52) as nat == s);
    assert(1 * p == p);
    lemma_div_pow2(a, m, d, p);
    lemma_pow2_unfold(s);
    assert(2 * d < p) by {
        lemma_pow2_adds(1, 53);
        lemma_pow2_1();
        lemma_pow2_strictly_increases(54, s);
    }
    assert(round_even(a, p) == m);
}

/// Taking a value far below the last place off `m * 2^s` leaves it.
proof fn lemma_far_sub(m: nat, s: nat, d: nat, xm: int)
    requires
        pow2(52) <= m < pow2(53),
        s >= 67,
        0 < d < pow2(53),
    ensures
        canon(nearest_f64((m * pow2(s) - d) as nat, 1, xm)) == (m, xm + s),
{
    lemma2_to64();
    lemma2_to64_rest();
    let p = pow2(s);
    lemma_pow2_strictly_increases(54, s);
    lemma_pow2_adds(1, 53);
    lemma_pow2_1();
    lemma_pow2_unfold(s);
    let h = pow2((s - 1) as nat);
    assert(p == 2 * h);
    assert(m * p >= p + d) by (nonlinear_arith)
        requires
            m >= 2,
            p > d,
    ;
    lemma_pow2_strictly_increases(54, (s - 1) as nat);
    if m > pow2(52) {
        lemma_pow2_adds(52, s);
        lemma_pow2_adds(53, s);
        let a = (m * p - d) as nat;
        assert(a == (m - 1) * p + (p - d)) by (nonlinear_arith)
            requires
                a == m * p - d,
        ;
        assert(pow2(52) * p <= a < pow2(53) * p) by (nonlinear_arith)
            requires
                pow2(52) < m < pow2(53),
                a == (m - 1) * p + (p - d),
                d < p,
        ;
        lemma_log2_count_bounds(a, 52 + s, 53 + s);
        assert((log2_floor(a, 1) - 52) as nat == s);
        assert(1 * p == p);
        lemma_div_pow2(a, (m - 1) as nat, (p - d) as nat, p);
        assert(round_even(a, p) == m);
    } else {
        let p52 = pow2(52);
        lemma_pow2_adds(51, s);
        lemma_pow2_adds(52, s);
        lemma_pow2_adds(53, (s - 1) as nat);
        lemma_pow2_unfold(53);
        let a = (m * p - d) as nat;
        assert(m * p == pow2(53) * h) by (nonlinear_arith)
            requires
                m == p52,
                p == 2 * h,
                pow2(53) == 2 * p52,
        ;
        assert(a == m * p - d);
        assert(a == (pow2(53) - 1) * h + (h - d)) by (nonlinear_arith)
            requires
                a == m * p - d,
                m * p == pow2(53) * h,
        ;
        let pp = pow2(53);
        let q = pow2(52);
        let r = pow2(51);
        assert(a == pp * h - d) by (nonlinear_arith)
            requires
                a == (pp - 1) * h + (h - d),
        ;
        assert(r * p <= a < q * p) by (nonlinear_arith)
            requires
                a == pp * h - d,
                p == 2 * h,
                pp == 2 * q,
                q == 2 * r,
                r >= 1,
                0 < d < h,
        ;
        lemma_pow2_unfold(52);
        assert(pow2(51 + s) <= a < pow2(52 + s));
        lemma_log2_count_bounds(a, 51 + s, 52 + s);
        assert(log2_floor(a, 1) == 51 + s);
        assert((log2_floor(a, 1) - 52) as nat == (s - 1) as nat);
        assert(1 * h == h);
        lemma_div_pow2(a, (pow2(53) - 1) as nat, (h - d) as nat, h);
        assert(round_even(a, h) == pow2(53));
    }
}

/// For two written-form nonzero values, the larger magnitude is the one
/// with the larger exponent, or with the larger `m` at equal exponents.
proof fn lemma_mag_order(a: (bool, nat, int), b: (bool, nat, int))
    requires
        is_canon(a),
        is_canon(b),
        a.1 != 0,
        b.1 != 0,
    ensures
        a.1 * pow2((a.2 - min_exp(a, b)) as nat) > b.1 * pow2((b.2 - min_exp(a, b)) as nat) <==> (
        a.2 > b.2 || (a.2 == b.2 && a.1 > b.1)),
        a.1 * pow2((a.2 - min_exp(a, b)) as nat) == b.1 * pow2((b.2 - min_exp(a, b)) as nat) <==> (
        a.2 == b.2 && a.1 == b.1),
{
    lemma_pow2_1();
    lemma_pow2_unfold(53);
    let xm = min_exp(a, b);
    if a.2 > b.2 {
        let k = (a.2 - b.2) as nat;
        lemma_pow2_strictly_increases(0, k);
        assert(a.1 * pow2(k) >= 2 * a.1) by (nonlinear_arith)
            requires
                pow2(k) >= 2,
        ;
        assert(xm == b.2 && (a.2 - xm) as nat == k && (b.2 - xm) as nat == 0);
        assert(b.1 * pow2(0) == b.1);
    } else if a.2 < b.2 {
        let k = (b.2 - a.2) as nat;
        lemma_pow2_strictly_increases(0, k);
        assert(b.1 * pow2(k) >= 2 * b.1) by (nonlinear_arith)
            requires
                pow2(k) >= 2,
        ;
        assert(xm == a.2 && (b.2 - xm) as nat == k && (a.2 - xm) as nat == 0);
        assert(a.1 * pow2(0) == a.1);
    } else {
        assert((a.2 - xm) as nat == 0 && (b.2 - xm) as nat == 0);
        assert(a.1 * pow2(0) == a.1);
        assert(b.1 * pow2(0) == b.1);
    }
}

/// The exec form of a signed value.
pub open spec fn v3(a: (bool, u128, i128)) -> (bool, nat, int) {
    (a.0, a.1 as nat, a.2 as int)
}

/// The bound kept on exponents.
pub open spec fn exp_bound() -> int {
    0x10_0000_0000_0000_0000_0000_0000
}

/// `nearest_f64(a, 1, z)`.
fn nearest_int_exec(a: u128, z: i128) -> (r: (u128, i128))
    requires
        0 < a < 0x100_0000_0000_0000_0000_0000_0000_0000,
        -exp_bound() < z < exp_bound(),
    ensures
        r.0 == nearest_f64(a as nat, 1, z as int).0,
        r.1 == nearest_f64(a as nat, 1, z as int).1,
        r.1 == log2_floor(a as nat, 1) - 52 + z,
        pow2(52) <= r.0 <= pow2(53),
        0 <= log2_floor(a as nat, 1) < 120,
{
    proof {
        lemma2_to64();
        lemma2_to64_rest();
        lemma_pow2_adds(64, 56);
        lemma_log2_count_bounds(a as nat, 0, 120);
    }
    let (m, x) = nearest_f64_exec(a, 1, 0);
    (m, x as i128 + z)
}

/// `canon((m, x))`.
fn canon_exec(m: u128, x: i128) -> (r: (u128, i128))
    requires
        pow2(52) <= m <= pow2(53),
        -exp_bound() < x < exp_bound(),
    ensures
        r.0 == canon((m as nat, x as int)).0,
        r.1 == canon((m as nat, x as int)).1,
        pow2(52) <= r.0 < pow2(53),
        x <= r.1 <= x + 1,
{
    proof {
        lemma2_to64();
        lemma2_to64_rest();
    }
    if m == 0x20_0000_0000_0000 {
        (0x10_0000_0000_0000, x + 1)
    } else {
        (m, x)
    }
}

/// `combine(sa, ia, sb, ib, xm)`.
fn combine_exec(sa: bool, ia: u128, sb: bool, ib: u128, xm: i128) -> (r: (bool, u128, i128))
    requires
        0 < ia,
        0 < ib,
        ia + ib < 0x100_0000_0000_0000_0000_0000_0000_0000,
        -exp_bound() + 200 < xm < exp_bound() - 200,
    ensures
        v3(r) == combine(sa, ia as nat, sb, ib as nat, xm as int),
        is_canon(v3(r)),
        r.1 != 0 ==> xm - 52 <= r.2 && (sa == sb ==> r.2 <= log2_floor((ia + ib) as nat, 1) - 51
            + xm) && (sa != sb ==> r.2 <= log2_floor((if ia > ib { ia } else { ib }) as nat, 1)
            - 51 + xm),
{
    proof {
        lemma2_to64();
        lemma2_to64_rest();
    }
    if sa == sb {
        let (m, x) = nearest_int_exec(ia + ib, xm);
        let (m2, x2) = canon_exec(m, x);
        (sa, m2, x2)
    } else if ia == ib {
        (false, 0, 0)
    } else if ia > ib {
        proof {
            lemma_log2_count_mono((ia - ib) as nat, ia as nat);
        }
        let (m, x) = nearest_int_exec(ia - ib, xm);
        let (m2, x2) = canon_exec(m, x);
        (sa, m2, x2)
    } else {
        proof {
            lemma_log2_count_mono((ib - ia) as nat, ib as nat);
        }
        let (m, x) = nearest_int_exec(ib - ia, xm);
        let (m2, x2) = canon_exec(m, x);
        (sb, m2, x2)
    }
}

/// `add_f64(a, b)` on written-form values.
pub(crate) fn add_exec(a: (bool, u128, i128), b: (bool, u128, i128)) -> (r: (bool, u128, i128))
    requires
        is_canon(v3(a)),
        is_canon(v3(b)),
        -exp_bound() + 300 < a.2 < exp_bound() - 300,
        -exp_bound() + 300 < b.2 < exp_bound() - 300,
    ensures
        v3(r) == add_f64(v3(a), v3(b)),
        is_canon(v3(r)),
        a.1 == 0 ==> r == b,
        b.1 == 0 ==> r == a,
        r.1 != 0 ==> (if a.2 <= b.2 { a.2 } else { b.2 }) - 52 <= r.2 <= (if a.2 >= b.2 {
            a.2
        } else {
            b.2
        }) + 2,
{
    proof {
        lemma2_to64();
        lemma2_to64_rest();
        lemma_pow2_1();
        lemma_pow2_adds(53, 66);
        lemma_pow2_adds(64, 56);
        lemma_pow2_strictly_increases(119, 120);
        lemma_pow2_strictly_increases(53, 119);
    }
    if a.1 == 0 {
        return b;
    }
    if b.1 == 0 {
        return a;
    }
    if a.2 >= b.2 {
        let s = a.2 - b.2;
        let ghost sn = s as nat;
        assert(min_exp(v3(a), v3(b)) == b.2);
        assert(b.1 * pow2(0) == b.1);
        if s > 66 {
            proof {
                lemma_pow2_strictly_increases(53, sn);
                assert(a.1 * pow2(sn) >= pow2(sn)) by (nonlinear_arith)
                    requires
                        a.1 >= 1,
                ;
                if a.0 == b.0 {
                    lemma_far_add(a.1 as nat, sn, b.1 as nat, b.2 as int);
                } else {
                    lemma_far_sub(a.1 as nat, sn, b.1 as nat, b.2 as int);
                }
            }
            return a;
        }
        let p = pow2_exec(s as u32);
        proof {
            if sn < 66 {
                lemma_pow2_strictly_increases(sn, 66);
            }
            lemma_pow2_adds(53, sn);
            lemma_pow2_pos(sn);
            assert(a.1 * p < pow2(53) * pow2(66)) by (nonlinear_arith)
                requires
                    a.1 < pow2(53),
                    p <= pow2(66),
                    p > 0,
            ;
            assert(a.1 * p < pow2(53) * p) by (nonlinear_arith)
                requires
                    a.1 < pow2(53),
                    p > 0,
            ;
            assert(1 * p == p);
            assert(a.1 * p >= 1) by (nonlinear_arith)
                requires
                    a.1 >= 1,
                    p >= 1,
            ;
            lemma_pow2_adds(1, 53 + sn);
            if sn > 0 {
                lemma_pow2_strictly_increases(53, 53 + sn);
            }
            lemma_log2_count_bounds((a.1 * p + b.1) as nat, 0, 54 + sn);
            if a.1 * p > b.1 {
                lemma_log2_count_bounds((a.1 * p) as nat, 0, 53 + sn);
            } else {
                lemma_log2_count_bounds(b.1 as nat, 0, 53 + sn);
            }
        }
        let ia = a.1 * p;
        combine_exec(a.0, ia, b.0, b.1, b.2)
    } else {
        let s = b.2 - a.2;
        let ghost sn = s as nat;
        assert(min_exp(v3(a), v3(b)) == a.2);
        assert(a.1 * pow2(0) == a.1);
        if s > 66 {
            proof {
                lemma_pow2_strictly_increases(53, sn);
                assert(b.1 * pow2(sn) >= pow2(sn)) by (nonlinear_arith)
                    requires
                        b.1 >= 1,
                ;
                if a.0 == b.0 {
                    lemma_far_add(b.1 as nat, sn, a.1 as nat, a.2 as int);
                    assert(a.1 + b.1 * pow2(sn) == b.1 * pow2(sn) + a.1);
                } else {
                    lemma_far_sub(b.1 as nat, sn, a.1 as nat, a.2 as int);
                }
            }
            return b;
        }
        let p = pow2_exec(s as u32);
        proof {
            if sn < 66 {
                lemma_pow2_strictly_increases(sn, 66);
            }
            lemma_pow2_adds(53, sn);
            lemma_pow2_pos(sn);
            assert(b.1 * p < pow2(53) * pow2(66)) by (nonlinear_arith)
                requires
                    b.1 < pow2(53),
                    p <= pow2(66),
                    p > 0,
            ;
            assert(b.1 * p < pow2(53) * p) by (nonlinear_arith)
                requires
                    b.1 < pow2(53),
                    p > 0,
            ;
            assert(1 * p == p);
            assert(b.1 * p >= 1) by (nonlinear_arith)
                requires
                    b.1 >= 1,
                    p >= 1,
            ;
            lemma_pow2_adds(1, 53 + sn);
            if sn > 0 {
                lemma_pow2_strictly_increases(53, 53 + sn);
            }
            lemma_log2_count_bounds((a.1 + b.1 * p) as nat, 0, 54 + sn);
            if b.1 * p > a.1 {
                lemma_log2_count_bounds((b.1 * p) as nat, 0, 53 + sn);
            } else {
                lemma_log2_count_bounds(a.1 as nat, 0, 53 + sn);
            }
        }
        let ib = b.1 * p;
        combine_exec(a.0, a.1, b.0, ib, a.2)
    }
}

/// `gt_f64(a, b)` on written-form values.
pub(crate) fn gt_exec(a: (bool, u128, i128), b: (bool, u128, i128)) -> (r: bool)
    requires
        is_canon(v3(a)),
        is_canon(v3(b)),
    ensures
        r == gt_f64(v3(a), v3(b)),
{
    let ghost xm = min_exp(v3(a), v3(b));
    proof {
        lemma_pow2_1();
        let ka = (a.2 - xm) as nat;
        let kb = (b.2 - xm) as nat;
        lemma_pow2_pos(ka);
        lemma_pow2_pos(kb);
        assert(a.1 == 0 ==> a.1 * pow2(ka) == 0);
        assert(b.1 == 0 ==> b.1 * pow2(kb) == 0);
        assert(a.1 > 0 ==> a.1 * pow2(ka) > 0) by (nonlinear_arith)
            requires
                pow2(ka) > 0,
        ;
        assert(b.1 > 0 ==> b.1 * pow2(kb) > 0) by (nonlinear_arith)
            requires
                pow2(kb) > 0,
        ;
    }
    if a.1 == 0 && b.1 == 0 {
        return false;
    }
    if a.1 == 0 {
        return b.0;
    }
    if b.1 == 0 {
        return !a.0;
    }
    if a.0 != b.0 {
        return !a.0;
    }
    proof {
        lemma_mag_order(v3(a), v3(b));
    }
    let mag_gt = a.2 > b.2 || (a.2 == b.2 && a.1 > b.1);
    let mag_lt = b.2 > a.2 || (a.2 == b.2 && b.1 > a.1);
    if a.0 {
        mag_lt
    } else {
        mag_gt
    }
}

/// `signed_millis(v)`, with the bounds on its exponent.
pub(crate) fn signed_millis_exec(v: i32) -> (r: (bool, u128, i128))
    ensures
        v3(r) == signed_millis(v as int),
        is_canon(v3(r)),
        r.1 != 0 ==> -63 < r.2 <= -29,
{
    if v == 0 {
        return (false, 0, 0);
    }
    let a: u128 = if v < 0 {
        (-(v as i64)) as u128
    } else {
        v as u128
    };
    proof {
        lemma2_to64();
        lemma2_to64_rest();
        lemma_log2_bounds(a as nat, 1000, 0, 32, 9, 10);
    }
    let (m, x) = nearest_f64_exec(a, 1000, 0);
    let (m2, x2) = canon_exec(m, x as i128);
    (v < 0, m2, x2)
}

/// `half_count(n)`, with the bounds on its exponent.
pub(crate) fn half_count_exec(n: usize) -> (r: (bool, u128, i128))
    ensures
        v3(r) == half_count(n as nat),
        is_canon(v3(r)),
        r.1 != 0 ==> -54 <= r.2 <= 12,
{
    if n == 0 {
        return (false, 0, 0);
    }
    let (m, x) = count_f64_exec(n);
    let (m2, x2) = canon_exec(m, x as i128);
    proof {
        lemma_pow2_pos(52);
    }
    (false, m2, x2 - 1)
}

} // verus!
