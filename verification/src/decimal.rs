//! Decimal numbers held as a mantissa and a scale, the representation of `rust_decimal::Decimal`.

use vstd::prelude::*;

use rust_decimal::{Decimal, RoundingStrategy};

verus! {

/// Largest magnitude of a mantissa: 2^96 - 1.
pub const MAX_MANTISSA: i128 = 0xFFFF_FFFF_FFFF_FFFF_FFFF_FFFFi128;

/// Largest number of fractional digits.
pub const MAX_SCALE: u32 = 28;

/// The number `mantissa / 10^scale`.
#[derive(Clone, Copy, Debug)]
pub struct Dec {
    pub mantissa: i128,
    pub scale: u32,
}

pub open spec fn pow10(n: nat) -> nat
    decreases n,
{
    if n == 0 {
        1
    } else {
        10 * pow10((n - 1) as nat)
    }
}

pub open spec fn abs(x: int) -> int {
    if x < 0 {
        -x
    } else {
        x
    }
}

/// Mantissa of `m / 10^s` rounded to `dp` fractional digits, a tie going away from zero.
pub open spec fn rounded_mantissa(m: int, s: nat, dp: nat) -> int {
    if s <= dp {
        m
    } else {
        let d = pow10((s - dp) as nat) as int;
        let q = abs(m) / d + (if 2 * (abs(m) % d) >= d {
            1int
        } else {
            0int
        });
        if m < 0 {
            -q
        } else {
            q
        }
    }
}

impl Dec {
    /// Within the range that `rust_decimal::Decimal` can hold.
    pub open spec fn wf(self) -> bool {
        &&& -MAX_MANTISSA <= self.mantissa <= MAX_MANTISSA
        &&& self.scale <= MAX_SCALE
    }

    /// The value `self` rounded to `dp` fractional digits, as `round_dp_with_strategy` with
    /// `MidpointAwayFromZero` gives it.
    pub open spec fn rounded(self, dp: nat) -> Dec {
        if self.scale <= dp {
            self
        } else {
            Dec { mantissa: rounded_mantissa(self.mantissa as int, self.scale as nat, dp) as i128, scale: dp as u32 }
        }
    }

    /// Builds `mantissa / 10^scale` when it is within range, `None` otherwise (as
    /// `Decimal::try_from_i128_with_scale` does).
    pub fn from_parts(mantissa: i128, scale: u32) -> (r: Option<Dec>)
        ensures
            r is Some <==> (-MAX_MANTISSA <= mantissa <= MAX_MANTISSA && scale <= MAX_SCALE),
            r matches Some(d) ==> d.mantissa == mantissa && d.scale == scale && d.wf(),
    {
        if scale <= MAX_SCALE && -MAX_MANTISSA <= mantissa && mantissa <= MAX_MANTISSA {
            Some(Dec { mantissa, scale })
        } else {
            None
        }
    }

    pub fn is_zero(&self) -> (b: bool)
        ensures
            b == (self.mantissa == 0),
    {
        self.mantissa == 0
    }

    /// Strictly greater than zero.
    pub fn is_positive(&self) -> (b: bool)
        ensures
            b == (self.mantissa > 0),
    {
        self.mantissa > 0
    }

    /// Strictly less than zero.
    pub fn is_negative(&self) -> (b: bool)
        ensures
            b == (self.mantissa < 0),
    {
        self.mantissa < 0
    }
}

pub proof fn lemma_pow10_positive(n: nat)
    ensures
        pow10(n) > 0,
    decreases n,
{
    if n > 0 {
        lemma_pow10_positive((n - 1) as nat);
    }
}

/// Rounding to `dp` places leaves at most `dp` fractional digits.
pub proof fn lemma_rounded_scale(x: Dec, dp: nat)
    ensures
        x.rounded(dp).scale <= dp || x.rounded(dp) == x,
        x.scale <= dp ==> x.rounded(dp) == x,
        x.scale > dp ==> x.rounded(dp).scale == dp,
{
}

/// Rounding twice to the same number of places gives what rounding once gives.
pub proof fn lemma_rounding_idempotent(x: Dec, dp: nat)
    requires
        dp <= u32::MAX,
    ensures
        x.rounded(dp).rounded(dp) == x.rounded(dp),
{
}

/// The rounded mantissa, scaled back, differs from the original mantissa by at most half a
/// unit of the last kept place.
pub proof fn lemma_rounding_within_half_unit(m: int, s: nat, dp: nat)
    requires
        s > dp,
    ensures
        ({
            let d = pow10((s - dp) as nat) as int;
            2 * abs(rounded_mantissa(m, s, dp) * d - m) <= d
        }),
{
    let d = pow10((s - dp) as nat) as int;
    lemma_pow10_positive((s - dp) as nat);
    let a = abs(m);
    let q0 = a / d;
    let rem = a % d;
    vstd::arithmetic::div_mod::lemma_fundamental_div_mod(a, d);
    assert(a == d * q0 + rem);
    assert(0 <= rem < d);
    let q = q0 + (if 2 * rem >= d {
        1int
    } else {
        0int
    });
    assert(2 * abs(q * d - a) <= d) by (nonlinear_arith)
        requires
            a == d * q0 + rem,
            0 <= rem < d,
            q == q0 + (if 2 * rem >= d {
                1int
            } else {
                0int
            }),
    ;
    if m < 0 {
        assert((-q) * d - m == -(q * d - a)) by (nonlinear_arith)
            requires
                a == -m,
        ;
    }
}

/// A value that already has no digits beyond `dp` places keeps its value when rounded.
pub proof fn lemma_rounding_keeps_exact_values(m: int, s: nat, dp: nat)
    requires
        s > dp,
        m % (pow10((s - dp) as nat) as int) == 0,
    ensures
        rounded_mantissa(m, s, dp) * (pow10((s - dp) as nat) as int) == m,
{
    let d = pow10((s - dp) as nat) as int;
    lemma_pow10_positive((s - dp) as nat);
    let a = abs(m);
    vstd::arithmetic::div_mod::lemma_fundamental_div_mod(a, d);
    vstd::arithmetic::div_mod::lemma_fundamental_div_mod(m, d);
    if m < 0 {
        let k = m / d;
        assert(a == (-k) * d) by (nonlinear_arith)
            requires
                a == -m,
                m == d * k + m % d,
                m % d == 0,
        ;
        vstd::arithmetic::div_mod::lemma_mod_multiples_basic(-k, d);
    }
    assert(a == d * (a / d));
    let q = a / d;
    if m < 0 {
        assert((-q) * d == m) by (nonlinear_arith)
            requires
                a == -m,
                a == d * q,
        ;
    } else {
        assert(q * d == m) by (nonlinear_arith)
            requires
                a == m,
                a == d * q,
        ;
    }
}

/// Calls `rust_decimal::Decimal::round_dp_with_strategy` with `MidpointAwayFromZero` on the
/// decimal `mantissa / 10^scale`. Claimed, from that function's source: a value with at most
/// `dp` fractional digits comes back unchanged; otherwise the magnitude is divided by
/// `10^(scale - dp)`, one is added when the remainder is at least half the divisor, the sign is
/// kept, and the scale becomes `dp`.
#[verifier::external_body]
pub(crate) fn round_dp_away_from_zero(x: Dec, dp: u32) -> (r: Dec)
    requires
        x.wf(),
    ensures
        r == x.rounded(dp as nat),
{
    let d = Decimal::from_i128_with_scale(x.mantissa, x.scale);
    let r = d.round_dp_with_strategy(dp, RoundingStrategy::MidpointAwayFromZero);
    Dec { mantissa: r.mantissa(), scale: r.scale() }
}

} // verus!
