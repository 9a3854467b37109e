//! IEEE-754 binary64 arithmetic on non-negative integers and their
//! quotients, modelled exactly: a value is rounded to its 53 most significant
//! bits, a tie going to the even neighbour. Colour mixing and picture
//! fitting compute with these models where a binary64 computation decides
//! the result.
use vstd::prelude::*;

verus! {

/// `2` to the power `n`.
pub open spec fn two_pow(n: nat) -> nat
    decreases n,
{
    if n == 0 {
        1
    } else {
        2 * two_pow((n - 1) as nat)
    }
}

/// The number of binary digits of `v`; zero has none.
pub open spec fn bit_len(v: nat) -> nat
    decreases v,
{
    if v == 0 {
        0
    } else {
        1 + bit_len(v / 2)
    }
}

/// `v` rounded to its 53 most significant bits, a tie going to the even
/// neighbour: the value a binary64 operation with exact result `v` yields.
pub open spec fn round_binary64(v: nat) -> nat {
    if bit_len(v) <= 53 {
        v
    } else {
        let p = two_pow((bit_len(v) - 53) as nat);
        let r = v % p;
        let up = r > p / 2 || (r == p / 2 && (v / p) % 2 == 1);
        if up {
            (v - r + p) as nat
        } else {
            (v - r) as nat
        }
    }
}

pub proof fn lemma_two_pow_mono(i: nat, j: nat)
    requires
        i <= j,
    ensures
        1 <= two_pow(i) <= two_pow(j),
    decreases j,
{
    if j > 0 {
        if i == j {
            lemma_two_pow_mono((i - 1) as nat, (j - 1) as nat);
        } else {
            lemma_two_pow_mono(i, (j - 1) as nat);
        }
    }
}

/// A positive `v` lies between the powers of two of its bit length.
pub proof fn lemma_bit_len_bounds(v: nat)
    requires
        v > 0,
    ensures
        bit_len(v) >= 1,
        two_pow((bit_len(v) - 1) as nat) <= v < two_pow(bit_len(v)),
    decreases v,
{
    let b = bit_len(v / 2);
    assert(bit_len(v) == b + 1);
    assert(two_pow(b + 1) == 2 * two_pow(b));
    if v / 2 > 0 {
        lemma_bit_len_bounds(v / 2);
        assert(two_pow(b) == 2 * two_pow((b - 1) as nat));
    } else {
        assert(two_pow(0) == 1);
    }
}

/// A value below `2^k` has at most `k` digits.
pub proof fn lemma_bit_len_at_most(v: nat, k: nat)
    requires
        v < two_pow(k),
    ensures
        bit_len(v) <= k,
    decreases k,
{
    if v > 0 {
        if k == 0 {
            assert(false);
        } else {
            lemma_bit_len_at_most(v / 2, (k - 1) as nat);
        }
    }
}

pub proof fn lemma_two_pow_values()
    ensures
        two_pow(55) == 0x80_0000_0000_0000nat,
        two_pow(66) == 0x4_0000_0000_0000_0000nat,
        two_pow(63) == 0x8000_0000_0000_0000nat,
        two_pow(64) == 0x1_0000_0000_0000_0000nat,
        two_pow(52) == 0x10_0000_0000_0000nat,
        two_pow(53) == 0x20_0000_0000_0000nat,
{
    reveal_with_fuel(two_pow, 67);
}

/// `round_binary64` on a value below `2^66`; the result is at most twice it.
pub fn round_binary64_exec(v: u128) -> (r: u128)
    requires
        v < 0x4_0000_0000_0000_0000u128,
    ensures
        r == round_binary64(v as nat),
        r <= 2 * v,
{
    proof {
        lemma_two_pow_values();
        lemma_bit_len_at_most(v as nat, 66);
    }
    let mut n: u32 = 0;
    let mut w: u128 = v;
    while w > 0
        invariant
            n as nat + bit_len(w as nat) == bit_len(v as nat),
            bit_len(v as nat) <= 66,
        decreases w,
    {
        w = w / 2;
        n = n + 1;
    }
    if n <= 53 {
        return v;
    }
    let s: u32 = n - 53;
    let mut p: u128 = 1;
    let mut i: u32 = 0;
    while i < s
        invariant
            i <= s,
            s <= 13,
            p == two_pow(i as nat),
        decreases s - i,
    {
        proof {
            lemma_two_pow_mono((i + 1) as nat, 13);
            reveal_with_fuel(two_pow, 14);
        }
        p = p * 2;
        i = i + 1;
    }
    proof {
        lemma_bit_len_bounds(v as nat);
        lemma_two_pow_mono(s as nat, (n - 1) as nat);
    }
    let rem: u128 = v % p;
    let q: u128 = v / p;
    let half: u128 = p / 2;
    if rem > half || (rem == half && q % 2 == 1) {
        v - rem + p
    } else {
        v - rem
    }
}

pub proof fn lemma_two_pow_add(a: nat, b: nat)
    ensures
        two_pow(a + b) == two_pow(a) * two_pow(b),
    decreases a,
{
    if a > 0 {
        let a1 = (a - 1) as nat;
        lemma_two_pow_add(a1, b);
        assert(a + b == (a1 + b) + 1);
        assert(two_pow(a + b) == 2 * two_pow(a1 + b));
        assert(two_pow(a) == 2 * two_pow(a1));
        let x = two_pow(a1);
        let y = two_pow(b);
        assert(two_pow(a1 + b) == x * y);
        assert(2 * (x * y) == (2 * x) * y) by (nonlinear_arith);
        assert(two_pow(a + b) == two_pow(a) * y);
    } else {
        assert(two_pow(0) == 1);
        assert(two_pow(a + b) == two_pow(b));
        assert(two_pow(a) * two_pow(b) == two_pow(b));
    }
}

/// `2^k` for `k < 127`.
pub fn two_pow_exec(k: u32) -> (p: u128)
    requires
        k < 127,
    ensures
        p == two_pow(k as nat),
{
    let mut p: u128 = 1;
    let mut i: u32 = 0;
    while i < k
        invariant
            i <= k,
            k < 127,
            p == two_pow(i as nat),
        decreases k - i,
    {
        proof {
            lemma_two_pow_mono(i as nat, 126);
            lemma_two_pow_add(126, 1);
            reveal_with_fuel(two_pow, 2);
            lemma_two_pow_127();
        }
        p = p * 2;
        i = i + 1;
    }
    p
}

proof fn lemma_two_pow_127()
    ensures
        two_pow(127) == 0x8000_0000_0000_0000_0000_0000_0000_0000nat,
{
    lemma_two_pow_values();
    lemma_two_pow_add(64, 63);
}

/// The number of binary digits of `v`, computed.
pub fn bit_len_exec(v: u128) -> (n: u32)
    ensures
        n == bit_len(v as nat),
        n <= 128,
{
    proof {
        lemma_two_pow_127();
        lemma_two_pow_add(127, 1);
        reveal_with_fuel(two_pow, 2);
        lemma_bit_len_at_most(v as nat, 128);
    }
    let mut n: u32 = 0;
    let mut w: u128 = v;
    while w > 0
        invariant
            n as nat + bit_len(w as nat) == bit_len(v as nat),
            bit_len(v as nat) <= 128,
        decreases w,
    {
        w = w / 2;
        n = n + 1;
    }
    n
}

/// `n / d * 2^t` as a numerator and a denominator.
pub open spec fn scaled(n: nat, d: nat, t: int) -> (nat, nat) {
    if t >= 0 {
        (n * two_pow(t as nat), d)
    } else {
        (n, d * two_pow((-t) as nat))
    }
}

/// `n / d * 2^t` rounded down.
pub open spec fn floor_at(n: nat, d: nat, t: int) -> nat {
    scaled(n, d, t).0 / scaled(n, d, t).1
}

/// `n / d * 2^t` rounded to the nearest integer, a tie going to the even one.
pub open spec fn nearest_at(n: nat, d: nat, t: int) -> nat {
    let (a, b) = scaled(n, d, t);
    let q = a / b;
    let r = a % b;
    if 2 * r > b || (2 * r == b && q % 2 == 1) {
        q + 1
    } else {
        q
    }
}

/// The exponent at which `n / d * 2^s` has a 53-bit integer part.
pub open spec fn ratio_exp(n: nat, d: nat, s: int) -> int {
    let e0 = bit_len(n) - bit_len(d) + s - 52;
    if floor_at(n, d, s - e0) < two_pow(52) {
        e0 - 1
    } else {
        e0
    }
}

/// The binary64 value nearest the positive `n / d * 2^s`, a tie going to
/// the even mantissa, as `(mant, exp)` standing for `mant * 2^exp` with
/// `2^52 <= mant < 2^53`.
pub open spec fn round_ratio(n: nat, d: nat, s: int) -> (nat, int) {
    let e = ratio_exp(n, d, s);
    let m = nearest_at(n, d, s - e);
    if m == two_pow(53) {
        (two_pow(52), e + 1)
    } else {
        (m, e)
    }
}

proof fn lemma_div_between(a: nat, b: nat, lo: nat, hi: nat)
    requires
        b > 0,
        lo * b <= a,
        a < hi * b,
    ensures
        lo <= a / b < hi,
{
    let q = a / b;
    let r = a % b;
    assert(a == b * q + r && 0 <= r < b) by (nonlinear_arith)
        requires
            b > 0,
            q == a / b,
            r == a % b,
    ;
    assert(lo <= q) by (nonlinear_arith)
        requires
            lo * b <= b * q + r,
            r < b,
            b > 0,
    ;
    assert(q < hi) by (nonlinear_arith)
        requires
            b * q + r < hi * b,
            r >= 0,
            b > 0,
    ;
}

/// Doubling the scale doubles the integer part, give or take one.
proof fn lemma_floor_at_next(n: nat, d: nat, t: int)
    requires
        d > 0,
    ensures
        2 * floor_at(n, d, t) <= floor_at(n, d, t + 1) <= 2 * floor_at(n, d, t) + 1,
{
    lemma_two_pow_mono(0, 0);
    if t >= 0 {
        let a = n * two_pow(t as nat);
        assert(two_pow((t + 1) as nat) == 2 * two_pow(t as nat));
        assert(n * two_pow((t + 1) as nat) == 2 * a) by (nonlinear_arith)
            requires
                two_pow((t + 1) as nat) == 2 * two_pow(t as nat),
                a == n * two_pow(t as nat),
        ;
        let q = a / d;
        let r = a % d;
        assert(a == d * q + r && 0 <= r < d) by (nonlinear_arith)
            requires
                d > 0,
                q == a / d,
                r == a % d,
        ;
        assert(2 * q * d <= 2 * a && 2 * a < (2 * q + 2) * d) by (nonlinear_arith)
            requires
                a == d * q + r,
                0 <= r < d,
        ;
        lemma_div_between(2 * a, d, 2 * q, 2 * q + 2);
    } else if t == -1 {
        let b = d * two_pow(1);
        assert(two_pow(1) == 2 * two_pow(0) && two_pow(0) == 1);
        let q = n / b;
        let r = n % b;
        assert(n == b * q + r && 0 <= r < b) by (nonlinear_arith)
            requires
                b > 0,
                q == n / b,
                r == n % b,
        ;
        assert(n * two_pow(0) == n);
        assert(2 * q * d <= n && n < (2 * q + 2) * d) by (nonlinear_arith)
            requires
                n == b * q + r,
                0 <= r < b,
                b == 2 * d,
        ;
        lemma_div_between(n, d, 2 * q, 2 * q + 2);
    } else {
        let k = (-t - 1) as nat;
        let b1 = d * two_pow(k);
        lemma_two_pow_mono(0, k);
        assert(two_pow(k + 1) == 2 * two_pow(k));
        assert((-t) as nat == k + 1);
        assert(d * two_pow(k + 1) == 2 * b1) by (nonlinear_arith)
            requires
                two_pow(k + 1) == 2 * two_pow(k),
                b1 == d * two_pow(k),
        ;
        assert(b1 > 0) by (nonlinear_arith)
            requires
                d > 0,
                two_pow(k) >= 1,
                b1 == d * two_pow(k),
        ;
        let q = n / (2 * b1);
        let r = n % (2 * b1);
        assert(n == (2 * b1) * q + r && 0 <= r < 2 * b1) by (nonlinear_arith)
            requires
                b1 > 0,
                q == n / (2 * b1),
                r == n % (2 * b1),
        ;
        assert(2 * q * b1 <= n && n < (2 * q + 2) * b1) by (nonlinear_arith)
            requires
                n == (2 * b1) * q + r,
                0 <= r < 2 * b1,
        ;
        lemma_div_between(n, b1, 2 * q, 2 * q + 2);
    }
}

/// At the exponent `bit_len(n) - bit_len(d) + s - 52` the integer part has
/// 52 or 53 bits.
proof fn lemma_floor_at_first_guess(n: nat, d: nat, s: int)
    requires
        n > 0,
        d > 0,
    ensures
        two_pow(51) <= floor_at(n, d, s - (bit_len(n) - bit_len(d) + s - 52)) < two_pow(53),
{
    lemma_bit_len_bounds(n);
    lemma_bit_len_bounds(d);
    let bn = bit_len(n);
    let bd = bit_len(d);
    let t = 52 - bn + bd;
    assert(s - (bit_len(n) - bit_len(d) + s - 52) == t);
    let pn1 = two_pow((bn - 1) as nat);
    let pn = two_pow(bn);
    let pd1 = two_pow((bd - 1) as nat);
    let pd = two_pow(bd);
    if t >= 0 {
        let tt = t as nat;
        let a = n * two_pow(tt);
        lemma_two_pow_add(bn, tt);
        lemma_two_pow_add((bn - 1) as nat, tt);
        lemma_two_pow_add(53, (bd - 1) as nat);
        lemma_two_pow_add(51, bd);
        assert(bn + tt == 53 + (bd - 1) as nat);
        assert((bn - 1) as nat + tt == 51 + bd);
        let w = two_pow(tt);
        lemma_two_pow_mono(0, tt);
        assert(a < pn * w && pn1 * w <= a) by (nonlinear_arith)
            requires
                a == n * w,
                pn1 <= n < pn,
                w >= 1,
        ;
        lemma_two_pow_mono(0, tt);
        assert(two_pow(53) * pd1 <= two_pow(53) * d && two_pow(51) * d < two_pow(51) * pd) by (nonlinear_arith)
            requires
                pd1 <= d < pd,
                two_pow(53) >= 1,
                two_pow(51) >= 1,
        ;
        lemma_two_pow_mono(0, 53);
        lemma_two_pow_mono(0, 51);
        lemma_div_between(a, d, two_pow(51), two_pow(53));
    } else {
        let k = (-t) as nat;
        let b = d * two_pow(k);
        lemma_two_pow_add(53, (bd - 1) as nat);
        lemma_two_pow_add(53 + (bd - 1) as nat, k);
        lemma_two_pow_add(51, bd);
        lemma_two_pow_add(51 + bd, k);
        assert(bn == 53 + (bd - 1) as nat + k);
        assert((bn - 1) as nat == 51 + bd + k);
        let w = two_pow(k);
        lemma_two_pow_mono(0, k);
        lemma_two_pow_mono(0, 53);
        lemma_two_pow_mono(0, 51);
        assert(two_pow(53) * pd1 * w <= two_pow(53) * b && two_pow(51) * b < two_pow(51) * pd * w) by (nonlinear_arith)
            requires
                pd1 <= d < pd,
                b == d * w,
                w >= 1,
                two_pow(53) >= 1,
                two_pow(51) >= 1,
        ;
        assert(b > 0) by (nonlinear_arith)
            requires
                b == d * w,
                w >= 1,
                d > 0,
        ;
        lemma_div_between(n, b, two_pow(51), two_pow(53));
    }
}

/// The integer part at the chosen exponent has exactly 53 bits, so the
/// rounded mantissa lies in `[2^52, 2^53)`.
pub proof fn lemma_round_ratio_normal(n: nat, d: nat, s: int)
    requires
        n > 0,
        d > 0,
    ensures
        two_pow(52) <= floor_at(n, d, s - ratio_exp(n, d, s)) < two_pow(53),
        two_pow(52) <= round_ratio(n, d, s).0 < two_pow(53),
        floor_at(n, d, s - ratio_exp(n, d, s)) <= nearest_at(n, d, s - ratio_exp(n, d, s))
            <= floor_at(n, d, s - ratio_exp(n, d, s)) + 1,
{
    let e0 = bit_len(n) - bit_len(d) + s - 52;
    lemma_floor_at_first_guess(n, d, s);
    lemma_floor_at_next(n, d, s - e0);
    assert(two_pow(52) == 2 * two_pow(51));
    assert(two_pow(53) == 2 * two_pow(52));
    assert(s - (e0 - 1) == (s - e0) + 1);
    let t = s - ratio_exp(n, d, s);
    let (a, b) = scaled(n, d, t);
    lemma_two_pow_mono(0, (-t) as nat);
    assert(b > 0) by (nonlinear_arith)
        requires
            b == (if t >= 0 { d } else { d * two_pow((-t) as nat) }),
            d > 0,
            two_pow((-t) as nat) >= 1,
    ;
    assert(a % b < b);
    assert(nearest_at(n, d, t) == (if 2 * (a % b) > b || (2 * (a % b) == b && (a / b) % 2 == 1) {
        a / b + 1
    } else {
        a / b
    }));
}

/// `scaled(n, d, t)`, computed.
fn scaled_exec(n: u128, d: u128, t: i32, bn: u32, bd: u32) -> (r: (u128, u128))
    requires
        d > 0,
        n < two_pow(bn as nat),
        d < two_pow(bd as nat),
        bn <= 120,
        bd <= 120,
        t >= 0 ==> bn + t <= 120,
        t < 0 ==> bd - t <= 120,
    ensures
        (r.0 as nat, r.1 as nat) == scaled(n as nat, d as nat, t as int),
        r.1 > 0,
        r.0 < two_pow(126),
        r.1 < two_pow(126),
{
    if t >= 0 {
        let k = t as u32;
        proof {
            lemma_two_pow_add(bn as nat, k as nat);
            lemma_two_pow_mono((bn + k) as nat, 126);
            lemma_two_pow_mono(0, k as nat);
            lemma_two_pow_mono(bd as nat, 126);
        }
        let p = two_pow_exec(k);
        assert(n * p < two_pow(bn as nat) * p) by (nonlinear_arith)
            requires
                n < two_pow(bn as nat),
                p >= 1,
        ;
        proof {
            lemma_two_pow_127();
            lemma_two_pow_add(126, 1);
            reveal_with_fuel(two_pow, 2);
        }
        (n * p, d)
    } else {
        let k = (0 - t) as u32;
        proof {
            lemma_two_pow_add(bd as nat, k as nat);
            lemma_two_pow_mono((bd + k) as nat, 126);
            lemma_two_pow_mono(0, k as nat);
            lemma_two_pow_mono(bn as nat, 126);
        }
        let p = two_pow_exec(k);
        assert(d * p < two_pow(bd as nat) * p && d * p > 0) by (nonlinear_arith)
            requires
                d < two_pow(bd as nat),
                d > 0,
                p >= 1,
        ;
        proof {
            lemma_two_pow_127();
            lemma_two_pow_add(126, 1);
            reveal_with_fuel(two_pow, 2);
        }
        (n, d * p)
    }
}

/// `round_ratio(n, d, s)`, computed.
pub fn round_ratio_exec(n: u128, d: u128, s: i32) -> (r: (u128, i32))
    requires
        0 < n < 0x100_0000_0000_0000_0000_0000_0000_0000u128,
        0 < d < 0x40_0000_0000_0000u128,
        -200 <= s <= 200,
    ensures
        (r.0 as nat, r.1 as int) == round_ratio(n as nat, d as nat, s as int),
        0x10_0000_0000_0000 <= r.0 < 0x20_0000_0000_0000,
        s - 200 <= r.1 <= s + 200,
        bit_len(n as nat) - bit_len(d as nat) + s - 53 <= r.1 <= bit_len(n as nat) - bit_len(
            d as nat,
        ) + s - 51,
{
    proof {
        lemma_two_pow_values();
        lemma_two_pow_add(64, 56);
        assert(two_pow(56) == 0x100_0000_0000_0000nat) by {
            reveal_with_fuel(two_pow, 57);
        }
        assert(two_pow(54) == 2 * two_pow(53));
        lemma_bit_len_at_most(n as nat, 120);
        lemma_bit_len_at_most(d as nat, 54);
        lemma_bit_len_bounds(n as nat);
        lemma_bit_len_bounds(d as nat);
        lemma_round_ratio_normal(n as nat, d as nat, s as int);
        lemma_two_pow_127();
        lemma_two_pow_add(126, 1);
        reveal_with_fuel(two_pow, 2);
    }
    let bn = bit_len_exec(n);
    let bd = bit_len_exec(d);
    let e0: i32 = bn as i32 - bd as i32 + s - 52;
    let t0: i32 = s - e0;
    let (a0, b0) = scaled_exec(n, d, t0, bn, bd);
    let q0 = a0 / b0;
    let e: i32 = if q0 < 0x10_0000_0000_0000 {
        e0 - 1
    } else {
        e0
    };
    let t: i32 = s - e;
    let (a, b) = scaled_exec(n, d, t, bn, bd);
    let q = a / b;
    let rem = a % b;
    let m = if 2 * rem > b || (2 * rem == b && q % 2 == 1) {
        q + 1
    } else {
        q
    };
    if m == 0x20_0000_0000_0000 {
        (0x10_0000_0000_0000, e + 1)
    } else {
        (m, e)
    }
}

/// The order of two values given as `(mant, exp)` with 53-bit mantissas:
/// by exponent, then by mantissa.
pub open spec fn b64_gt(a: (nat, int), b: (nat, int)) -> bool {
    a.1 > b.1 || (a.1 == b.1 && a.0 > b.0)
}

pub fn b64_gt_exec(a: (u128, i32), b: (u128, i32)) -> (r: bool)
    ensures
        r == b64_gt((a.0 as nat, a.1 as int), (b.0 as nat, b.1 as int)),
{
    a.1 > b.1 || (a.1 == b.1 && a.0 > b.0)
}

/// A value `(mant, exp)` converted to `u32` as Rust's `as` converts a
/// binary64: rounded toward zero, saturating at `u32::MAX`.
pub open spec fn b64_to_u32(f: (nat, int)) -> nat {
    let v = if f.1 >= 0 {
        f.0 * two_pow(f.1 as nat)
    } else {
        f.0 / two_pow((-f.1) as nat)
    };
    if v > u32::MAX {
        u32::MAX as nat
    } else {
        v
    }
}

pub fn b64_to_u32_exec(f: (u128, i32)) -> (r: u32)
    requires
        0x10_0000_0000_0000 <= f.0 < 0x20_0000_0000_0000,
        -1000 <= f.1 <= 1000,
    ensures
        r == b64_to_u32((f.0 as nat, f.1 as int)),
{
    if f.1 >= 0 {
        proof {
            lemma_two_pow_mono(0, f.1 as nat);
            assert(f.0 * two_pow(f.1 as nat) >= f.0) by (nonlinear_arith)
                requires
                    two_pow(f.1 as nat) >= 1,
            ;
        }
        u32::MAX
    } else if f.1 < -126 {
        proof {
            lemma_two_pow_values();
            lemma_two_pow_mono(53, (-f.1) as nat);
            let p = two_pow((-f.1) as nat);
            let m = f.0 as nat;
            assert(m / p == 0) by (nonlinear_arith)
                requires
                    m < p,
            ;
        }
        0
    } else {
        let p = two_pow_exec((0 - f.1) as u32);
        proof {
            lemma_two_pow_mono(0, (0 - f.1) as nat);
        }
        let v = f.0 / p;
        if v > 0xffff_ffff {
            u32::MAX
        } else {
            v as u32
        }
    }
}

/// A value `(mant, exp)` rounded to the nearest integer, a tie going to
/// the even one: how `{:.0}` prints a binary64.
pub open spec fn b64_nearest_int(f: (nat, int)) -> nat {
    nearest_at(f.0, 1, f.1)
}

pub fn b64_nearest_int_exec(m: u128, e: i32) -> (r: u128)
    requires
        0x10_0000_0000_0000 <= m < 0x20_0000_0000_0000,
        -1000 <= e <= 74,
    ensures
        r == b64_nearest_int((m as nat, e as int)),
{
    proof {
        lemma_two_pow_values();
    }
    if e >= 0 {
        let p = two_pow_exec(e as u32);
        proof {
            lemma_two_pow_mono(e as nat, 74);
            lemma_two_pow_add(53, 74);
            lemma_two_pow_127();
        }
        assert(m * p < two_pow(53) * two_pow(74)) by (nonlinear_arith)
            requires
                m < two_pow(53),
                p <= two_pow(74),
                p >= 1,
        ;
        proof {
            lemma_two_pow_mono(0, e as nat);
            let a = m as nat * two_pow(e as nat);
            assert(a % 1 == 0 && a / 1 == a);
        }
        m * p
    } else if e < -60 {
        proof {
            let k = (-e) as nat;
            lemma_two_pow_mono(60, k);
            assert(two_pow(60) == two_pow(53) * two_pow(7)) by {
                lemma_two_pow_add(53, 7);
            }
            assert(two_pow(7) == 128) by {
                reveal_with_fuel(two_pow, 8);
            }
            let b = 1 * two_pow(k);
            let mm = m as nat;
            assert(mm / b == 0 && mm % b == mm) by (nonlinear_arith)
                requires
                    mm < b,
            ;
        }
        0
    } else {
        let p = two_pow_exec((0 - e) as u32);
        proof {
            lemma_two_pow_mono(0, (0 - e) as nat);
            lemma_two_pow_mono((0 - e) as nat, 64);
            assert(1 * two_pow((-e) as nat) == p);
        }
        let q = m / p;
        let rem = m % p;
        if 2 * rem > p || (2 * rem == p && q % 2 == 1) {
            q + 1
        } else {
            q
        }
    }
}

/// A 53-bit mantissa has exactly 53 binary digits.
pub proof fn lemma_mantissa_bits(m: nat)
    requires
        two_pow(52) <= m < two_pow(53),
    ensures
        bit_len(m) == 53,
{
    lemma_bit_len_exact(m, 53);
}

/// A value between `2^(k-1)` and `2^k` has `k` binary digits.
pub proof fn lemma_bit_len_exact(v: nat, k: nat)
    requires
        k >= 1,
        two_pow((k - 1) as nat) <= v < two_pow(k),
    ensures
        bit_len(v) == k,
{
    lemma_two_pow_mono(0, (k - 1) as nat);
    lemma_bit_len_at_most(v, k);
    lemma_bit_len_bounds(v);
    if bit_len(v) < k {
        lemma_two_pow_mono(bit_len(v), (k - 1) as nat);
    }
}

/// The sum of two positive values `(mant, exp)` as binary64 addition gives
/// it: the exact sum, rounded.
pub open spec fn b64_add(a: (nat, int), b: (nat, int)) -> (nat, int) {
    if a.1 >= b.1 {
        round_ratio(a.0 * two_pow((a.1 - b.1) as nat) + b.0, 1, b.1)
    } else {
        round_ratio(b.0 * two_pow((b.1 - a.1) as nat) + a.0, 1, a.1)
    }
}

/// A value far below the last bit of another leaves it unchanged.
proof fn lemma_add_far(mb: nat, ms: nat, diff: nat, es: int)
    requires
        two_pow(52) <= mb < two_pow(53),
        ms < two_pow(53),
        diff >= 60,
    ensures
        round_ratio(mb * two_pow(diff) + ms, 1, es) == (mb, es + diff),
{
    let p = two_pow(diff);
    let n = mb * p + ms;
    lemma_two_pow_mono(54, diff);
    lemma_two_pow_add(52, diff);
    lemma_two_pow_add(53, diff);
    assert(two_pow(54) == 2 * two_pow(53));
    assert(two_pow(52) * p <= n && n < two_pow(53) * p) by (nonlinear_arith)
        requires
            two_pow(52) <= mb,
            mb + 1 <= two_pow(53),
            ms < two_pow(54),
            two_pow(54) <= p,
            n == mb * p + ms,
    ;
    lemma_bit_len_exact(n, 53 + diff);
    assert(bit_len(1) == 1 + bit_len(0));
    let e0 = bit_len(n) - bit_len(1) + es - 52;
    assert(e0 == es + diff);
    assert(scaled(n, 1, es - e0) == (n, 1 * p));
    vstd::arithmetic::div_mod::lemma_fundamental_div_mod_converse_div(n as int, p as int, mb as int, ms as int);
    vstd::arithmetic::div_mod::lemma_fundamental_div_mod_converse_mod(n as int, p as int, mb as int, ms as int);
    assert(floor_at(n, 1, es - e0) == mb);
    assert(ratio_exp(n, 1, es) == e0);
    assert(nearest_at(n, 1, es - e0) == mb);
}

/// `b64_add`, computed, for exponents within 200 of zero.
pub fn b64_add_exec(a: (u128, i32), b: (u128, i32)) -> (r: (u128, i32))
    requires
        0x10_0000_0000_0000 <= a.0 < 0x20_0000_0000_0000,
        0x10_0000_0000_0000 <= b.0 < 0x20_0000_0000_0000,
        -190 <= a.1 <= 190,
        -190 <= b.1 <= 190,
    ensures
        (r.0 as nat, r.1 as int) == b64_add((a.0 as nat, a.1 as int), (b.0 as nat, b.1 as int)),
        0x10_0000_0000_0000 <= r.0 < 0x20_0000_0000_0000,
        (if a.1 >= b.1 { a.1 } else { b.1 }) - 1 <= r.1 <= (if a.1 >= b.1 { a.1 } else { b.1 }) + 2,
{
    proof {
        lemma_two_pow_values();
    }
    let (big, small) = if a.1 >= b.1 {
        (a, b)
    } else {
        (b, a)
    };
    let diff: u32 = (big.1 - small.1) as u32;
    if diff >= 60 {
        proof {
            lemma_add_far(big.0 as nat, small.0 as nat, diff as nat, small.1 as int);
        }
        return big;
    }
    let p = two_pow_exec(diff);
    proof {
        lemma_two_pow_mono(0, diff as nat);
        lemma_two_pow_mono(diff as nat, 59);
        lemma_two_pow_add(53, 59);
        lemma_two_pow_add(52, diff as nat);
        lemma_two_pow_add(53, diff as nat);
        lemma_two_pow_add(54, diff as nat);
        assert(two_pow(54) == 2 * two_pow(53));
        assert(two_pow(59) == 0x800_0000_0000_0000nat) by {
            reveal_with_fuel(two_pow, 60);
        }
    }
    assert(big.0 * p + small.0 < two_pow(54) * p && two_pow(52) * p <= big.0 * p + small.0
        && big.0 * p + small.0 < two_pow(53) * two_pow(59) + two_pow(53)) by (nonlinear_arith)
        requires
            two_pow(52) <= big.0 < two_pow(53),
            small.0 < two_pow(53),
            1 <= p <= two_pow(59),
            two_pow(54) == 2 * two_pow(53),
    ;
    let n = big.0 * p + small.0;
    proof {
        lemma_bit_len_at_most(n as nat, (54 + diff) as nat);
        lemma_bit_len_bounds(n as nat);
        if bit_len(n as nat) < 53 + diff {
            lemma_two_pow_mono(bit_len(n as nat), (52 + diff) as nat);
        }
        assert(bit_len(1) == 1 + bit_len(0));
    }
    round_ratio_exec(n, 1, small.1)
}

} // verus!
