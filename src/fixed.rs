//! Fixed-point units and the integer arithmetic that the simulation is built on.
use vstd::prelude::*;

verus! {

/// Units per pixel of position and per radian of angle.
pub const SCALE: i64 = 400;

/// Angle steps in one full turn (2π radians at `SCALE` steps per radian).
pub const TURN: u64 = 2513;

/// The fixed-point value of 1.0 for sines and cosines.
pub const TRIG_ONE: i64 = 16384;

/// The fixed-point value of 1.0 for the heartbeat envelope.
pub const ENVELOPE_ONE: u64 = 1024;

/// The fixed-point value of 1.0 for saturation and value.
pub const COLOR_ONE: u64 = 1000;

/// One past the largest uniform draw: a draw `u` stands for `u / RAND_ONE` in `[0, 1)`.
pub const RAND_ONE: u64 = 65536;

/// Division that rounds toward zero, as integer division in Rust does.
pub open spec fn div_trunc(a: int, d: int) -> int {
    if a >= 0 {
        a / d
    } else {
        -((-a) / d)
    }
}

/// `b` raised to the power `e`.
pub open spec fn pow(b: int, e: nat) -> int
    decreases e,
{
    if e == 0 {
        1
    } else {
        b * pow(b, (e - 1) as nat)
    }
}

/// The absolute value of an integer.
pub open spec fn abs(a: int) -> int {
    if a >= 0 {
        a
    } else {
        -a
    }
}

/// A quotient is bounded by `m` when the dividend is bounded by `m` times the divisor.
pub proof fn lemma_div_trunc_bound(a: int, d: int, m: int)
    requires
        d > 0,
        m >= 0,
        abs(a) <= m * d,
    ensures
        abs(div_trunc(a, d)) <= m,
{
    if a >= 0 {
        assert(a / d <= m) by (nonlinear_arith)
            requires
                d > 0,
                0 <= a <= m * d,
        ;
    } else {
        assert((-a) / d <= m) by (nonlinear_arith)
            requires
                d > 0,
                0 <= -a <= m * d,
        ;
    }
}

proof fn lemma_pow_nonneg(b: int, e: nat)
    requires
        b >= 0,
    ensures
        pow(b, e) >= 0,
    decreases e,
{
    if e > 0 {
        lemma_pow_nonneg(b, (e - 1) as nat);
        assert(b * pow(b, (e - 1) as nat) >= 0) by (nonlinear_arith)
            requires
                b >= 0,
                pow(b, (e - 1) as nat) >= 0,
        ;
    }
}

/// Raising to a fixed power keeps the order of nonnegative bases.
pub proof fn lemma_pow_base_mono(a: int, b: int, e: nat)
    requires
        0 <= a <= b,
    ensures
        pow(a, e) <= pow(b, e),
    decreases e,
{
    if e > 0 {
        let e1 = (e - 1) as nat;
        lemma_pow_base_mono(a, b, e1);
        lemma_pow_nonneg(a, e1);
        assert(a * pow(a, e1) <= b * pow(b, e1)) by (nonlinear_arith)
            requires
                0 <= a <= b,
                0 <= pow(a, e1) <= pow(b, e1),
        ;
    }
}

proof fn lemma_pow_exp_mono(b: int, i: nat, k: nat)
    requires
        b >= 1,
        i <= k,
    ensures
        pow(b, i) <= pow(b, k),
    decreases k - i,
{
    if i < k {
        lemma_pow_exp_mono(b, i, (k - 1) as nat);
        lemma_pow_nonneg(b, (k - 1) as nat);
        assert(pow(b, (k - 1) as nat) <= b * pow(b, (k - 1) as nat)) by (nonlinear_arith)
            requires
                b >= 1,
                pow(b, (k - 1) as nat) >= 0,
        ;
    }
}

/// The `k`-th root of `t`, rounded down.
pub open spec fn root_floor(t: int, k: nat) -> int {
    choose|r: int| 0 <= r && #[trigger] pow(r, k) <= t < pow(r + 1, k)
}

/// Rounded-down roots are unique: two candidates for the same `t` are equal.
proof fn lemma_root_unique(t: int, k: nat, r: int, q: int)
    requires
        0 <= r && pow(r, k) <= t < pow(r + 1, k),
        0 <= q && pow(q, k) <= t < pow(q + 1, k),
    ensures
        r == q,
{
    if r < q {
        lemma_pow_base_mono(r + 1, q, k);
    } else if q < r {
        lemma_pow_base_mono(q + 1, r, k);
    }
}

/// `b` raised to the power `k`.
fn pow_u128(b: u64, k: u32) -> (r: u128)
    requires
        pow(b as int, k as nat) <= u128::MAX,
    ensures
        r == pow(b as int, k as nat),
{
    let mut acc: u128 = 1;
    let mut i: u32 = 0;
    while i < k
        invariant
            i <= k,
            acc == pow(b as int, i as nat),
            pow(b as int, k as nat) <= u128::MAX,
        decreases k - i,
    {
        proof {
            if b >= 1 {
                lemma_pow_exp_mono(b as int, (i + 1) as nat, k as nat);
            }
            assert(pow(b as int, (i + 1) as nat) == b * pow(b as int, i as nat));
            assert(acc * b == b * acc) by (nonlinear_arith);
        }
        acc = acc * (b as u128);
        i = i + 1;
    }
    acc
}

/// The `k`-th root of `t`, rounded down: the `r` with `r^k <= t < (r+1)^k`.
pub fn floor_root(t: u128, k: u32, hi: u64) -> (r: u64)
    requires
        k >= 1,
        hi < u64::MAX,
        pow(hi + 1, k as nat) <= u128::MAX,
        t < pow(hi + 1, k as nat),
    ensures
        r <= hi,
        pow(r as int, k as nat) <= t,
        t < pow(r + 1, k as nat),
        r == root_floor(t as int, k as nat),
{
    let mut lo: u64 = 0;
    let mut up: u64 = hi + 1;
    proof {
        assert(pow(0, k as nat) == 0) by {
            reveal_with_fuel(pow, 2);
        }
    }
    while up - lo > 1
        invariant
            lo < up <= hi + 1,
            hi < u64::MAX,
            pow(lo as int, k as nat) <= t,
            t < pow(up as int, k as nat),
            pow(hi + 1, k as nat) <= u128::MAX,
        decreases up - lo,
    {
        let mid: u64 = lo + (up - lo) / 2;
        proof {
            lemma_pow_base_mono(mid as int, hi + 1, k as nat);
        }
        if pow_u128(mid, k) <= t {
            lo = mid;
        } else {
            up = mid;
        }
    }
    proof {
        let w = root_floor(t as int, k as nat);
        assert(0 <= lo && pow(lo as int, k as nat) <= t < pow(lo + 1, k as nat));
        lemma_root_unique(t as int, k as nat, lo as int, w);
    }
    lo
}

/// The square root of `n`, rounded down.
pub fn isqrt(n: u64) -> (r: u64)
    ensures
        r * r <= n < (r + 1) * (r + 1),
        r == root_floor(n as int, 2),
{
    proof {
        reveal_with_fuel(pow, 3);
        assert(0x1_0000_0000int * 0x1_0000_0000int == 0x1_0000_0000_0000_0000int);
    }
    let r = floor_root(n as u128, 2, 0xffff_ffff);
    proof {
        reveal_with_fuel(pow, 3);
    }
    r
}

} // verus!
