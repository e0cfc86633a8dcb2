//! The binary64 (`f64`) numbers the front end works with, on integers:
//! which `f64` a quantity becomes, and how std prints it with a fixed number
//! of decimals (the exact binary value rounded, ties to even).
use vstd::arithmetic::power2::{
    lemma2_to64, lemma2_to64_rest, lemma_pow2_adds, lemma_pow2_pos, lemma_pow2_strictly_increases, lemma_pow2_unfold, pow2,
};
use crate::text::{dec, dec_padded, push_char, push_dec, push_dec_padded, push_sign, sign};
use vstd::prelude::*;

verus! {

/// `floor(log2(a / b))` for `a, b > 0`.
pub open spec fn log2_floor(a: nat, b: nat) -> int
    decreases (if a < b { 1int } else { 0int }), (if a >= b { a - b } else { b - a }),
{
    if a == 0 || b == 0 {
        0
    } else if a >= 2 * b {
        log2_floor(a, 2 * b) + 1
    } else if a < b {
        log2_floor(2 * a, b) - 1
    } else {
        0
    }
}

/// `x / y` rounded to the nearest integer, ties to even.
pub open spec fn round_even(x: nat, y: nat) -> nat {
    let q = x / y;
    let r = x % y;
    if 2 * r > y || (2 * r == y && q % 2 == 1) {
        q + 1
    } else {
        q
    }
}

/// The `f64` nearest to `(a / b) * 2^z` (`a, b > 0`; ties to even), as
/// `(m, x)` with value `m * 2^x`: `m` holds the 53 significant bits.
pub open spec fn nearest_f64(a: nat, b: nat, z: int) -> (nat, int) {
    let e = log2_floor(a, b);
    let m = if e <= 52 {
        round_even(a * pow2((52 - e) as nat), b)
    } else {
        round_even(a, b * pow2((e - 52) as nat))
    };
    (m, e - 52 + z)
}

/// `v` milliseconds as the `f64` number of seconds `v as f64 / 1000.0`
/// (for `v > 0`).
pub open spec fn secs_f64(v: nat) -> (nat, int) {
    nearest_f64(v, 1000, 0)
}

/// The value `m * 2^x` times `k`, rounded to an integer, ties to even.
pub open spec fn scaled_round_even(f: (nat, int), k: nat) -> nat {
    if f.1 >= 0 {
        f.0 * k * pow2(f.1 as nat)
    } else {
        round_even(f.0 * k, pow2((-f.1) as nat))
    }
}

/// The value `m * 2^x` rounded to an integer, halves away from zero
/// (`f64::round`).
pub open spec fn round_half_up(f: (nat, int)) -> nat {
    if f.1 >= 0 {
        f.0 * pow2(f.1 as nat)
    } else {
        (2 * f.0 + pow2((-f.1) as nat)) / (2 * pow2((-f.1) as nat))
    }
}

/// `n as f64` for a count `n`, as `(m, x)` (`(0, 0)` for zero).
pub open spec fn count_f64(n: nat) -> (nat, int) {
    if n == 0 {
        (0, 0)
    } else {
        nearest_f64(n, 1, 0)
    }
}

/// `v.abs() as f64 / 1000.0`: the magnitude of `v` milliseconds as an `f64`
/// number of seconds (`(0, 0)` for zero).
pub open spec fn millis_f64(v: int) -> (nat, int) {
    if v == 0 {
        (0, 0)
    } else {
        secs_f64((if v < 0 { -v } else { v }) as nat)
    }
}

/// The `f64` product of two non-negative `f64` values.
pub open spec fn mul_f64(f: (nat, int), g: (nat, int)) -> (nat, int) {
    if f.0 == 0 || g.0 == 0 {
        (0, 0)
    } else {
        nearest_f64(f.0 * g.0, 1, f.1 + g.1)
    }
}

/// The `f64` quotient of two non-negative `f64` values (`g` not zero).
pub open spec fn div_f64(f: (nat, int), g: (nat, int)) -> (nat, int) {
    if f.0 == 0 {
        (0, 0)
    } else {
        nearest_f64(f.0, g.0, f.1 - g.1)
    }
}

/// The numerator of the value `m * 2^x` over `value_den`.
pub open spec fn value_num(f: (nat, int)) -> nat {
    if f.1 >= 0 {
        f.0 * pow2(f.1 as nat)
    } else {
        f.0
    }
}

/// The power-of-two denominator of the value `m * 2^x`.
pub open spec fn value_den(f: (nat, int)) -> nat {
    if f.1 >= 0 {
        1
    } else {
        pow2((-f.1) as nat)
    }
}

/// The value `m * 2^x` rounded toward zero (an `as` cast to an integer).
pub open spec fn trunc_value(f: (nat, int)) -> nat {
    value_num(f) / value_den(f)
}

pub(crate) proof fn lemma_pow2_1()
    ensures
        pow2(0) == 1,
        pow2(1) == 2,
        pow2(128) == 0x1_0000_0000_0000_0000_0000_0000_0000_0000,
{
    lemma2_to64();
    lemma_pow2_adds(64, 64);
}

/// `pow2` is monotonic: `pow2(x) < pow2(z)` only when `x < z`.
pub(crate) proof fn lemma_pow2_lt(x: nat, z: nat)
    requires
        pow2(x) < pow2(z),
    ensures
        x < z,
{
    if x >= z {
        if x > z {
            lemma_pow2_strictly_increases(z, x);
        }
    }
}

/// What `log2_floor` means: `2^e <= a / b < 2^(e + 1)`.
pub proof fn lemma_log2_floor(a: nat, b: nat)
    requires
        a > 0,
        b > 0,
    ensures
        log2_floor(a, b) >= 0 ==> b * pow2(log2_floor(a, b) as nat) <= a && a < 2 * b * pow2(
            log2_floor(a, b) as nat,
        ),
        log2_floor(a, b) < 0 ==> b <= a * pow2((-log2_floor(a, b)) as nat) && a * pow2(
            (-log2_floor(a, b)) as nat,
        ) < 2 * b,
    decreases (if a < b { 1int } else { 0int }), (if a >= b { a - b } else { b - a }),
{
    lemma_pow2_1();
    if a >= 2 * b {
        lemma_log2_floor(a, 2 * b);
        let e1 = log2_floor(a, 2 * b);
        if e1 < 0 {
            let k = (-e1) as nat;
            let p = pow2(k);
            lemma_pow2_strictly_increases(0, k);
            assert(a * p >= 2 * a) by (nonlinear_arith)
                requires
                    p >= 2,
            ;
            assert(false);
        }
        let p = pow2(e1 as nat);
        lemma_pow2_unfold((e1 + 1) as nat);
        assert(log2_floor(a, b) == e1 + 1);
        assert(pow2((e1 + 1) as nat) == 2 * p);
        assert(b * (2 * p) == (2 * b) * p) by (nonlinear_arith);
        assert(2 * b * (2 * p) == 2 * (2 * b) * p) by (nonlinear_arith);
        assert(b * pow2(log2_floor(a, b) as nat) <= a);
        assert(a < 2 * b * pow2(log2_floor(a, b) as nat));
    } else if a < b {
        lemma_log2_floor(2 * a, b);
        let e1 = log2_floor(2 * a, b);
        if e1 >= 0 {
            let p = pow2(e1 as nat);
            if e1 > 0 {
                lemma_pow2_strictly_increases(0, e1 as nat);
                assert(b * p >= 2 * b) by (nonlinear_arith)
                    requires
                        p >= 2,
                ;
                assert(false);
            }
            assert(e1 == 0);
            assert(b * p == b) by (nonlinear_arith)
                requires
                    p == 1,
            ;
            assert(log2_floor(a, b) == -1);
            assert(a * pow2(1) == 2 * a);
        } else {
            let k = (-e1) as nat;
            let p = pow2(k);
            lemma_pow2_unfold(k + 1);
            assert(log2_floor(a, b) == e1 - 1);
            assert((-(e1 - 1)) as nat == k + 1);
            assert(a * (2 * p) == (2 * a) * p) by (nonlinear_arith);
        }
    } else {
        assert(log2_floor(a, b) == 0);
        assert(b * pow2(0) == b && 2 * b * pow2(0) == 2 * b);
    }
}

/// Bounds on `log2_floor(a, b)` from bounds on `a` and `b`.
pub proof fn lemma_log2_bounds(a: nat, b: nat, a_lo: nat, a_hi: nat, b_lo: nat, b_hi: nat)
    requires
        pow2(a_lo) <= a < pow2(a_hi),
        pow2(b_lo) <= b < pow2(b_hi),
    ensures
        a_lo - b_hi - 1 < log2_floor(a, b) < a_hi - b_lo,
{
    lemma_pow2_pos(a_lo);
    lemma_pow2_pos(b_lo);
    lemma_log2_floor(a, b);
    lemma_pow2_unfold(b_hi + 1);
    let e = log2_floor(a, b);
    if e >= 0 {
        let k = e as nat;
        let p = pow2(k);
        lemma_pow2_pos(k);
        // upper: 2^(b_lo + k) <= b * 2^k <= a < 2^a_hi
        lemma_pow2_adds(b_lo, k);
        assert(pow2(b_lo) * p <= b * p) by (nonlinear_arith)
            requires
                pow2(b_lo) <= b,
        ;
        lemma_pow2_lt(b_lo + k, a_hi);
        // lower: 2^a_lo <= a < 2 * b * 2^k < 2^(b_hi + 1 + k)
        lemma_pow2_adds(b_hi + 1, k);
        assert(2 * b * p < pow2(b_hi + 1) * p) by (nonlinear_arith)
            requires
                2 * b < pow2(b_hi + 1),
                p > 0,
        ;
        lemma_pow2_lt(a_lo, b_hi + 1 + k);
    } else {
        let k = (-e) as nat;
        let p = pow2(k);
        lemma_pow2_pos(k);
        // lower: 2^(a_lo + k) <= a * 2^k < 2 * b < 2^(b_hi + 1)
        lemma_pow2_adds(a_lo, k);
        assert(pow2(a_lo) * p <= a * p) by (nonlinear_arith)
            requires
                pow2(a_lo) <= a,
        ;
        lemma_pow2_lt(a_lo + k, b_hi + 1);
        // upper: 2^b_lo <= b <= a * 2^k < 2^(a_hi + k)
        lemma_pow2_adds(a_hi, k);
        assert(a * p < pow2(a_hi) * p) by (nonlinear_arith)
            requires
                a < pow2(a_hi),
                p > 0,
        ;
        lemma_pow2_lt(b_lo, a_hi + k);
    }
}

/// `2^k`.
pub(crate) fn pow2_exec(k: u32) -> (p: u128)
    requires
        k < 128,
    ensures
        p == pow2(k as nat),
{
    proof {
        lemma_pow2_1();
    }
    let mut p: u128 = 1;
    let mut i: u32 = 0;
    while i < k
        invariant
            i <= k < 128,
            p == pow2(i as nat),
            pow2(128) == 0x1_0000_0000_0000_0000_0000_0000_0000_0000,
        decreases k - i,
    {
        proof {
            lemma_pow2_unfold((i + 1) as nat);
            lemma_pow2_strictly_increases((i + 1) as nat, 128);
        }
        p = p * 2;
        i = i + 1;
    }
    p
}

/// `x / y` rounded to the nearest integer, ties to even.
pub(crate) fn round_even_exec(x: u128, y: u128) -> (r: u128)
    requires
        y > 0,
        x / y < u128::MAX,
        y <= 0x8000_0000_0000_0000_0000_0000_0000_0000,
    ensures
        r == round_even(x as nat, y as nat),
{
    let q = x / y;
    let r = x % y;
    if r > y - r || (r == y - r && q % 2 == 1) {
        q + 1
    } else {
        q
    }
}

/// `log2_floor(a, q) >= 0` when `q <= a`, and `<= 0` when `a < 2 * q`.
pub(crate) proof fn lemma_log2_sign(a: nat, q: nat)
    requires
        a > 0,
        q > 0,
    ensures
        q <= a ==> log2_floor(a, q) >= 0,
        a < 2 * q ==> log2_floor(a, q) <= 0,
{
    lemma_log2_floor(a, q);
    let e = log2_floor(a, q);
    if e < 0 && q <= a {
        let k = (-e) as nat;
        lemma_pow2_strictly_increases(0, k);
        lemma_pow2_1();
        assert(a * pow2(k) >= 2 * a) by (nonlinear_arith)
            requires
                pow2(k) >= 2,
        ;
    }
    if e > 0 && a < 2 * q {
        lemma_pow2_strictly_increases(0, e as nat);
        lemma_pow2_1();
        assert(q * pow2(e as nat) >= 2 * q) by (nonlinear_arith)
            requires
                pow2(e as nat) >= 2,
        ;
    }
}

/// `floor(log2(a / b))`.
fn log2_floor_exec(a: u128, b: u128) -> (e: i32)
    requires
        a > 0,
        0 < b <= 0x1_0000_0000_0000_0000_0000_0000_0000,
    ensures
        e == log2_floor(a as nat, b as nat),
{
    proof {
        lemma_pow2_1();
        lemma_log2_bounds(a as nat, b as nat, 0, 128, 0, 128);
    }
    let mut q = b;
    let mut e: i32 = 0;
    while q <= a / 2
        invariant
            0 < q,
            e == 0 ==> q == b,
            e > 0 ==> q <= a,
            0 <= e,
            e > 0 ==> e <= log2_floor(a as nat, b as nat),
            log2_floor(a as nat, b as nat) < 128,
            log2_floor(a as nat, b as nat) == e + log2_floor(a as nat, q as nat),
        decreases a - q,
    {
        proof {
            lemma_log2_sign(a as nat, (2 * q) as nat);
        }
        q = q * 2;
        e = e + 1;
    }
    proof {
        lemma_log2_sign(a as nat, q as nat);
    }
    let mut p = a;
    while p < q
        invariant
            0 < p,
            p < q ==> q == b,
            b <= 0x1_0000_0000_0000_0000_0000_0000_0000,
            p < 2 * q,
            p < q ==> e <= 0,
            log2_floor(a as nat, b as nat) <= e,
            log2_floor(a as nat, b as nat) > -129,
            e <= 128,
            log2_floor(a as nat, b as nat) == e + log2_floor(p as nat, q as nat),
        decreases 2 * q - p,
    {
        proof {
            lemma_log2_sign((2 * p) as nat, q as nat);
            lemma_log2_sign(p as nat, q as nat);
        }
        p = p * 2;
        e = e - 1;
    }
    proof {
        lemma_log2_sign(p as nat, q as nat);
    }
    e
}

/// The rounded quotient stays within `[lo, 2 * lo]` when `x / y` is in
/// `[lo, 2 * lo)`.
pub(crate) proof fn lemma_round_even_bounds(x: nat, y: nat, lo: nat)
    requires
        y > 0,
        lo * y <= x < 2 * lo * y,
    ensures
        lo <= round_even(x, y) <= 2 * lo,
        x / y < 2 * lo,
{
    let q = x / y;
    let r = x % y;
    assert(x == q * y + r && 0 <= r < y) by (nonlinear_arith)
        requires
            y > 0,
            q == x / y,
            r == x % y,
    ;
    assert(lo <= q < 2 * lo) by (nonlinear_arith)
        requires
            x == q * y + r,
            0 <= r < y,
            lo * y <= x < 2 * lo * y,
            y > 0,
    ;
}

/// The `f64` nearest to `(a / b) * 2^z`, as `(m, x)` with value `m * 2^x`.
pub(crate) fn nearest_f64_exec(a: u128, b: u128, z: i32) -> (r: (u128, i32))
    requires
        0 < a < 0x100_0000_0000_0000_0000_0000_0000_0000,
        0 < b <= 0x40_0000_0000_0000_0000,
        -1000 < z < 1000,
    ensures
        r.0 == nearest_f64(a as nat, b as nat, z as int).0,
        r.1 == nearest_f64(a as nat, b as nat, z as int).1,
        r.1 == log2_floor(a as nat, b as nat) - 52 + z,
        pow2(52) <= r.0 <= pow2(53),
{
    proof {
        lemma_pow2_1();
        lemma2_to64();
        lemma_pow2_adds(64, 7);
        lemma2_to64_rest();
        lemma_pow2_pos(52);
        lemma_log2_floor(a as nat, b as nat);
        lemma_log2_bounds(a as nat, b as nat, 0, 128, 0, 71);
        lemma_pow2_unfold(53);
    }
    let e = log2_floor_exec(a, b);
    let ghost p52 = pow2(52);
    if e <= 52 {
        let k = (52 - e) as u32;
        let pk = pow2_exec(k);
        proof {
            lemma_pow2_pos(k as nat);
            if e >= 0 {
                let pe = pow2(e as nat);
                lemma_pow2_adds(e as nat, k as nat);
                assert(b * p52 <= a * pk && a * pk < 2 * b * p52) by (nonlinear_arith)
                    requires
                        b * pe <= a,
                        a < 2 * b * pe,
                        pe * pk == p52,
                        pk > 0,
                ;
            } else {
                let pn = pow2((-e) as nat);
                lemma_pow2_adds((-e) as nat, 52);
                assert(((-e) as nat + 52) as nat == k as nat);
                assert(b * p52 <= a * pk && a * pk < 2 * b * p52) by (nonlinear_arith)
                    requires
                        b <= a * pn,
                        a * pn < 2 * b,
                        pk == pn * p52,
                        p52 > 0,
                ;
            }
            assert(2 * b * p52 <= 0x40_0000_0000_0000_0000 * 2 * 0x10_0000_0000_0000) by (nonlinear_arith)
                requires
                    b <= 0x40_0000_0000_0000_0000,
                    p52 == 0x10_0000_0000_0000,
            ;
            assert(p52 * b == b * p52 && 2 * p52 * b == 2 * b * p52) by (nonlinear_arith);
            lemma_round_even_bounds((a * pk) as nat, b as nat, p52);
        }
        let x = a * pk;
        let m = round_even_exec(x, b);
        (m, e - 52 + z)
    } else {
        let k = (e - 52) as u32;
        let pk = pow2_exec(k);
        proof {
            let pe = pow2(e as nat);
            lemma_pow2_pos(k as nat);
            lemma_pow2_adds(k as nat, 52);
            assert((k + 52) as nat == e as nat);
            assert(b * pk * p52 <= a && a < 2 * (b * pk) * p52) by (nonlinear_arith)
                requires
                    b * pe <= a,
                    a < 2 * b * pe,
                    pe == pk * p52,
            ;
            assert(b * pk <= a) by (nonlinear_arith)
                requires
                    b * pk * p52 <= a,
                    p52 >= 1,
            ;
            assert(p52 * (b * pk) <= a && a < 2 * p52 * (b * pk)) by (nonlinear_arith)
                requires
                    b * pk * p52 <= a,
                    a < 2 * (b * pk) * p52,
            ;
            lemma_round_even_bounds(a as nat, (b * pk) as nat, p52);
        }
        let y = b * pk;
        let m = round_even_exec(a, y);
        (m, e - 52 + z)
    }
}

/// `format!("{:.2}", v as f64 / 1000.0)`: `v` milliseconds as the nearest
/// `f64` number of seconds, printed with two decimals (its exact value
/// rounded, ties to even).
pub open spec fn secs_fixed2(v: int) -> Seq<char> {
    let a = if v < 0 { -v } else { v };
    let c = if a == 0 { 0nat } else { scaled_round_even(secs_f64(a as nat), 100) };
    sign(v) + dec(c / 100) + seq!['.'] + dec_padded(c % 100, 2)
}

/// `(v as f64 / 1000.0 * 30.0).round() as u32`: the number of frames at 30
/// fps in `v` milliseconds, from the `f64` product (none when `v <= 0`).
pub open spec fn frames_at_30(v: int) -> nat {
    if v <= 0 {
        0
    } else {
        let d = secs_f64(v as nat);
        round_half_up(nearest_f64(d.0 * 30, 1, d.1))
    }
}

/// `v` milliseconds as the `f64` number of seconds: `(m, x)` with value
/// `m * 2^x`, for `0 < v < 2^31`.
pub(crate) fn secs_f64_exec(v: i32) -> (r: (u128, i32))
    requires
        v > 0,
    ensures
        r.0 == secs_f64(v as nat).0,
        r.1 == secs_f64(v as nat).1,
        pow2(52) <= r.0 <= pow2(53),
        -63 < r.1 < -30,
{
    proof {
        lemma2_to64();
        lemma2_to64_rest();
        lemma_log2_bounds(v as nat, 1000, 0, 31, 9, 10);
    }
    nearest_f64_exec(v as u128, 1000, 0)
}

/// Appends `secs_fixed2(v)`.
pub fn push_secs_fixed2(s: &mut String, v: i32)
    ensures
        final(s)@ == old(s)@ + secs_fixed2(v as int),
{
    let ghost start = s@;
    let c: u128 = if v == 0 {
        0
    } else {
        let a: i32 = if v < 0 {
            if v == i32::MIN {
                // |i32::MIN| does not fit an i32; it is 2^31 ms
                0
            } else {
                -v
            }
        } else {
            v
        };
        if a == 0 {
            // v == i32::MIN
            let (m, x) = nearest_f64_exec(0x8000_0000, 1000, 0);
            proof {
                lemma2_to64();
                lemma2_to64_rest();
                lemma_log2_bounds(0x8000_0000, 1000, 31, 32, 9, 10);
                lemma_pow2_adds(53, 7);
            }
            let d = pow2_exec((-x) as u32);
            round_even_exec(m * 100, d)
        } else {
            let (m, x) = secs_f64_exec(a);
            proof {
                lemma2_to64();
                lemma2_to64_rest();
            }
            let d = pow2_exec((-x) as u32);
            round_even_exec(m * 100, d)
        }
    };
    proof {
        if v != 0 {
            assert(c == scaled_round_even(secs_f64((if v < 0 { -(v as int) } else { v as int }) as nat), 100));
        }
    }
    push_sign(s, v as i128);
    push_dec(s, c / 100);
    push_char(s, '.');
    push_dec_padded(s, c % 100, 2);
    assert(s@ =~= start + secs_fixed2(v as int));
}

/// `frames_at_30(v)`.
pub fn frames_at_30_exec(v: i32) -> (n: u128)
    ensures
        n == frames_at_30(v as int),
{
    if v <= 0 {
        return 0;
    }
    let (m, x) = secs_f64_exec(v);
    proof {
        lemma2_to64();
        lemma2_to64_rest();
        lemma_pow2_adds(53, 5);
        lemma_log2_bounds((m * 30) as nat, 1, 52, 58, 0, 1);
    }
    let (m2, x2) = nearest_f64_exec(m * 30, 1, x);
    let d = pow2_exec((-x2) as u32);
    (2 * m2 + d) / (2 * d)
}

/// `floor(log2(a))` grows with `a`.
pub(crate) proof fn lemma_log2_count_mono(a1: nat, a2: nat)
    requires
        1 <= a1 <= a2,
    ensures
        0 <= log2_floor(a1, 1) <= log2_floor(a2, 1),
{
    lemma_log2_sign(a1, 1);
    lemma_log2_sign(a2, 1);
    lemma_log2_floor(a1, 1);
    lemma_log2_floor(a2, 1);
    let e2 = log2_floor(a2, 1) as nat;
    lemma_pow2_unfold(e2 + 1);
    lemma_pow2_lt(log2_floor(a1, 1) as nat, e2 + 1);
}

/// `pow2(lo) <= a < pow2(hi)` pins `floor(log2(a))` to `[lo, hi)`.
pub(crate) proof fn lemma_log2_count_bounds(a: nat, lo: nat, hi: nat)
    requires
        pow2(lo) <= a < pow2(hi),
    ensures
        lo <= log2_floor(a, 1) < hi,
{
    lemma_pow2_pos(lo);
    lemma_log2_sign(a, 1);
    lemma_log2_floor(a, 1);
    let e = log2_floor(a, 1) as nat;
    lemma_pow2_unfold(e + 1);
    lemma_pow2_lt(lo, e + 1);
    lemma_pow2_lt(e, hi);
}

/// A value below one half rounds, as an `f64`, to something that truncates
/// to zero.
pub(crate) proof fn lemma_nearest_below_half(a: nat, b: nat)
    requires
        0 < a,
        2 * a < b,
    ensures
        trunc_value(nearest_f64(a, b, 0)) == 0,
{
    lemma_pow2_1();
    lemma_log2_floor(a, b);
    let e = log2_floor(a, b);
    if e >= 0 {
        let p = pow2(e as nat);
        lemma_pow2_pos(e as nat);
        assert(b * p >= b) by (nonlinear_arith)
            requires
                p >= 1,
        ;
        assert(false);
    }
    if e == -1 {
        assert((-e) as nat == 1);
        assert(b <= a * 2);
    }
    let k = (-e) as nat;
    let pk = pow2(k);
    let p52 = pow2(52);
    lemma_pow2_pos(52);
    lemma_pow2_adds(k, 52);
    assert((52 - e) as nat == k + 52);
    assert(b * p52 <= a * (pk * p52) && a * (pk * p52) < 2 * p52 * b) by (nonlinear_arith)
        requires
            b <= a * pk,
            a * pk < 2 * b,
            p52 > 0,
    ;
    lemma_pow2_pos(52);
    lemma_round_even_bounds(a * (pk * p52), b, p52);
    let m = nearest_f64(a, b, 0).0;
    assert(m <= 2 * p52);
    lemma_pow2_unfold(53);
    let x = nearest_f64(a, b, 0).1;
    assert(x == e - 52);
    assert((-x) as nat >= 54);
    lemma_pow2_strictly_increases(53, (-x) as nat);
    assert(value_den(nearest_f64(a, b, 0)) == pow2((-x) as nat));
    vstd::arithmetic::div_mod::lemma_basic_div(m as int, pow2((-x) as nat) as int);
}

/// `count_f64(n)` with the bounds on its parts.
pub(crate) fn count_f64_exec(n: usize) -> (r: (u128, i32))
    ensures
        r.0 == count_f64(n as nat).0,
        r.1 == count_f64(n as nat).1,
        n == 0 ==> r.0 == 0 && r.1 == 0,
        n > 0 ==> pow2(52) <= r.0 <= pow2(53) && r.1 == log2_floor(n as nat, 1) - 52 && 0
            <= log2_floor(n as nat, 1) < 64,
{
    if n == 0 {
        (0, 0)
    } else {
        proof {
            lemma2_to64();
            lemma2_to64_rest();
            lemma_log2_count_bounds(n as nat, 0, 64);
        }
        nearest_f64_exec(n as u128, 1, 0)
    }
}

/// `trunc_value((m, x))`.
pub(crate) fn trunc_exec(m: u128, x: i32) -> (t: u128)
    requires
        m <= pow2(53),
        -128 < x < 60,
    ensures
        t == trunc_value((m as nat, x as int)),
{
    proof {
        lemma_pow2_1();
        lemma2_to64();
    }
    if x >= 0 {
        let p = pow2_exec(x as u32);
        proof {
            lemma_pow2_adds(53, x as nat);
            if x < 59 {
                lemma_pow2_strictly_increases(x as nat, 59);
            }
            lemma_pow2_adds(53, 59);
            assert(m * p <= pow2(53) * pow2(59)) by (nonlinear_arith)
                requires
                    m <= pow2(53),
                    p <= pow2(59),
            ;
            lemma_pow2_strictly_increases(112, 128);
        }
        m * p
    } else {
        proof {
            lemma_pow2_pos((-x) as nat);
        }
        m / pow2_exec((-x) as u32)
    }
}

} // verus!
