//! Fixed-point signal arithmetic.
//!
//! Every sensor reading, connection weight and neuron value in the library
//! is an integer at scale [`SCALE`]: 10000 stands for 1.0. A gene's i16
//! weight is already such a signal, covering about [-3.3, 3.3].
use vstd::prelude::*;
use vstd::math::abs;

verus! {

/// The fixed-point unit: this many integer steps stand for 1.0.
pub const SCALE: i64 = 10000;

/// The product of two signals, scaled back down, rounding the magnitude
/// towards zero.
pub open spec fn scale_mul_spec(a: int, b: int) -> int {
    if (a >= 0) == (b >= 0) {
        (abs(a) * abs(b)) as int / (SCALE as int)
    } else {
        -((abs(a) * abs(b)) as int / (SCALE as int))
    }
}

/// Multiply two signals: `a * b` at scale, e.g. 1.0 * x == x.
pub fn scale_mul(a: i64, b: i64) -> (r: i64)
    requires
        -1000000000 <= a <= 1000000000,
        -1000000000 <= b <= 1000000000,
    ensures
        r == scale_mul_spec(a as int, b as int),
        abs(r as int) <= (abs(a as int) * abs(b as int)) as int / (SCALE as int),
{
    let neg = (a < 0) != (b < 0);
    let ma = if a < 0 {
        -a
    } else {
        a
    };
    let mb = if b < 0 {
        -b
    } else {
        b
    };
    proof {
        assert(0 <= ma * mb <= 1000000000000000000) by (nonlinear_arith)
            requires
                0 <= ma <= 1000000000,
                0 <= mb <= 1000000000,
        ;
    }
    let q = (ma * mb) / SCALE;
    if neg {
        -q
    } else {
        q
    }
}

/// Bounds of the rational squash kernel on [0, 3.0): non-negative and at
/// most 1.0, because `s*(27s^2+9m^2) - m*(27s^2+m^2)` is the cube of
/// `3s - m`.
proof fn lemma_squash_kernel(m: int, s: int)
    requires
        s >= 1,
        0 <= m < 3 * s,
    ensures
        0 <= m * (27 * s * s + m * m) / (27 * s * s + 9 * m * m) <= s,
        m == 0 ==> m * (27 * s * s + m * m) / (27 * s * s + 9 * m * m) == 0,
{
    assert(s * (27 * s * s + 9 * m * m) - m * (27 * s * s + m * m) == (3 * s - m) * (3 * s - m) * (3
        * s - m)) by (nonlinear_arith);
    assert((3 * s - m) * (3 * s - m) * (3 * s - m) >= 0) by (nonlinear_arith)
        requires
            3 * s - m >= 0,
    ;
    assert(0 <= m * (27 * s * s + m * m) && 1 <= 27 * s * s + 9 * m * m) by (nonlinear_arith)
        requires
            m >= 0,
            s >= 1,
    ;
    assert(0 <= m * (27 * s * s + m * m) / (27 * s * s + 9 * m * m) <= s) by (nonlinear_arith)
        requires
            1 <= 27 * s * s + 9 * m * m,
            0 <= m * (27 * s * s + m * m) <= s * (27 * s * s + 9 * m * m),
    ;
}

/// The library's sigmoid squash: an odd, rational approximation of the
/// hyperbolic tangent at scale, clamped to exactly 1.0 from 3.0 outward.
/// On [-3.0, 3.0] it is `x * (27 + x^2) / (27 + 9 x^2)` in real terms.
pub open spec fn squash_spec(x: int) -> int {
    let m = abs(x) as int;
    let s = SCALE as int;
    if m >= 3 * s {
        if x >= 0 {
            s
        } else {
            -s
        }
    } else {
        let q = m * (27 * s * s + m * m) / (27 * s * s + 9 * m * m);
        if x >= 0 {
            q
        } else {
            -q
        }
    }
}

/// A squashed signal never leaves [-1.0, 1.0].
pub proof fn lemma_squash_range(x: int)
    ensures
        -SCALE <= squash_spec(x) <= SCALE,
        x == 0 ==> squash_spec(x) == 0,
        x >= 0 ==> squash_spec(x) >= 0,
        x <= 0 ==> squash_spec(x) <= 0,
{
    let s = SCALE as int;
    let m = abs(x) as int;
    if m < 3 * s {
        lemma_squash_kernel(m, s);
    }
}

/// Squash a signal through the library's sigmoid.
pub fn squash(x: i64) -> (r: i64)
    requires
        -1000000000000000 <= x <= 1000000000000000,
    ensures
        r == squash_spec(x as int),
        -SCALE <= r <= SCALE,
{
    proof {
        lemma_squash_range(x as int);
    }
    let neg = x < 0;
    let m = if x < 0 {
        -x
    } else {
        x
    };
    let q = if m >= 3 * SCALE {
        SCALE
    } else {
        let mu = m as u64;
        proof {
            assert(0 <= mu * mu <= 900000000 && 0 <= mu * (2700000000 + mu * mu)
                <= 1000000000000000000) by (nonlinear_arith)
                requires
                    0 <= mu < 30000,
            ;
        }
        let c: u64 = 2700000000;
        let m2 = mu * mu;
        let qu = (mu * (c + m2)) / (c + 9 * m2);
        proof {
            let mi = mu as int;
            let s = SCALE as int;
            assert(9 * mi * mi == 9 * (mi * mi)) by (nonlinear_arith);
            assert(qu as int == mi * (27 * s * s + mi * mi) / (27 * s * s + 9 * mi * mi));
            lemma_squash_kernel(mi, s);
        }
        qu as i64
    };
    if neg {
        -q
    } else {
        q
    }
}

} // verus!
