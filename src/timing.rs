use vstd::prelude::*;

use crate::truehd::ThdMetadata;

verus! {

/// A video frame rate as the rational `numerator / denominator` frames per
/// second.
#[derive(Debug, Clone, Copy, PartialEq, Eq, Structural)]
pub struct Framerate {
    pub numerator: i32,
    pub denominator: i32,
}

#[derive(Debug, Clone, Copy, PartialEq, Eq, Structural)]
pub struct VideoMetadata {
    pub framerate: Framerate,
}

impl VideoMetadata {
    /// A frame rate that durations can be measured with: a positive number
    /// of frames per second.
    pub open spec fn valid(&self) -> bool {
        self.framerate.numerator > 0 && self.framerate.denominator >= 0
    }

    pub fn is_valid(&self) -> (r: bool)
        ensures
            r == self.valid(),
    {
        self.framerate.numerator > 0 && self.framerate.denominator >= 0
    }
}

/// `a / b` rounded to the nearest integer, halves away from zero.
pub open spec fn round_div(a: int, b: int) -> int
    recommends
        b > 0,
{
    if a >= 0 {
        (2 * a + b) / (2 * b)
    } else {
        -((2 * (-a) + b) / (2 * b))
    }
}

/// Bound on the magnitude of a drift's numerator and denominator, so that a
/// drift times a sample rate stays within `i128`.
pub const DRIFT_LIMIT: i128 = 0x4000_0000_0000_0000_0000_0000;

/// `num / den + n / d` as a drift holds it: over the same denominator where
/// `d` divides `den`, else over `den * d`; none where a step leaves `i128` or
/// the result exceeds `DRIFT_LIMIT`.
pub open spec fn spec_add_fraction(num: int, den: int, n: int, d: int) -> Option<(int, int)> {
    if den % d == 0 {
        let p = n * (den / d);
        if i128::MIN <= p <= i128::MAX && -DRIFT_LIMIT <= num + p <= DRIFT_LIMIT {
            Some((num + p, den))
        } else {
            None
        }
    } else {
        let d2 = den * d;
        let p1 = num * d;
        let p2 = n * den;
        if d2 <= DRIFT_LIMIT && i128::MIN <= p1 <= i128::MAX && i128::MIN <= p2 <= i128::MAX
            && -DRIFT_LIMIT <= p1 + p2 <= DRIFT_LIMIT {
            Some((p1 + p2, d2))
        } else {
            None
        }
    }
}

/// What `spec_add_fraction` gives is the exact sum: `s / d2 == num / den + n / d`.
pub proof fn lemma_add_fraction_value(num: int, den: int, n: int, d: int)
    requires
        den > 0,
        d > 0,
        spec_add_fraction(num, den, n, d) is Some,
    ensures
        ({
            let (s, d2) = spec_add_fraction(num, den, n, d)->Some_0;
            &&& d2 > 0
            &&& s * den * d == (num * d + n * den) * d2
        }),
{
    if den % d == 0 {
        let m = den / d;
        assert(den == m * d) by (nonlinear_arith)
            requires
                den % d == 0,
                m == den / d,
                d > 0,
        ;
        assert((num + n * m) * den * d == (num * d + n * den) * den) by (nonlinear_arith)
            requires
                den == m * d,
        ;
    } else {
        assert(den * d > 0) by (nonlinear_arith)
            requires
                den > 0,
                d > 0,
        ;
        assert((num * d + n * den) * den * d == (num * d + n * den) * (den * d)) by (nonlinear_arith);
    }
}

/// Scaling both sides of a division by the same positive factor keeps its value.
pub proof fn lemma_div_scaled(x: int, y: int, k: int)
    requires
        y > 0,
        k > 0,
    ensures
        (x * k) / (y * k) == x / y,
{
    let q = x / y;
    let r = x % y;
    assert(x == q * y + r && 0 <= r < y) by (nonlinear_arith)
        requires
            y > 0,
            q == x / y,
            r == x % y,
    ;
    assert(x * k == q * (y * k) + r * k && 0 <= r * k < y * k) by (nonlinear_arith)
        requires
            x == q * y + r,
            0 <= r < y,
            k > 0,
    ;
    vstd::arithmetic::div_mod::lemma_fundamental_div_mod_converse(x * k, y * k, q, r * k);
}

/// Rounding `a / b` and `c / d` gives the same integer where the two
/// fractions are equal.
pub proof fn lemma_round_div_proportional(a: int, b: int, c: int, d: int)
    requires
        b > 0,
        d > 0,
        a * d == c * b,
    ensures
        round_div(a, b) == round_div(c, d),
{
    assert(a >= 0 <==> c >= 0) by (nonlinear_arith)
        requires
            b > 0,
            d > 0,
            a * d == c * b,
    ;
    let x = if a >= 0 { a } else { -a };
    let z = if a >= 0 { c } else { -c };
    if a >= 0 {
        assert(x * d == z * b);
    } else {
        assert(x * d == z * b) by (nonlinear_arith)
            requires
                a * d == c * b,
                x == -a,
                z == -c,
        ;
    }
    lemma_div_scaled(2 * x + b, 2 * b, d);
    lemma_div_scaled(2 * z + d, 2 * d, b);
    assert((2 * x + b) * d == (2 * z + d) * b) by (nonlinear_arith)
        requires
            x * d == z * b,
    ;
    assert((2 * b) * d == (2 * d) * b) by (nonlinear_arith);
}

/// The drift of audio against video: cumulative audio duration minus
/// cumulative video duration, held exactly as the fraction `num / den`
/// seconds.
#[derive(Debug, Clone, Copy, PartialEq, Eq, Structural)]
pub struct ThdOverrun {
    pub num: i128,
    pub den: i128,
    /// The sample rate at which the drift is counted in samples.
    pub sample_rate: u32,
}

impl ThdOverrun {
    pub open spec fn wf(&self) -> bool {
        &&& 0 < self.den <= DRIFT_LIMIT
        &&& -DRIFT_LIMIT <= self.num <= DRIFT_LIMIT
    }

    /// The drift in samples, rounded to the nearest sample.
    pub open spec fn spec_samples(&self) -> int {
        round_div(self.num * self.sample_rate, self.den as int)
    }

    /// No drift.
    pub fn new(sample_rate: u32) -> (r: ThdOverrun)
        ensures
            r == (ThdOverrun { num: 0, den: 1, sample_rate }),
            r.wf(),
    {
        ThdOverrun { num: 0, den: 1, sample_rate }
    }

    /// Adds `n / d` seconds to the drift; false, leaving the drift as it
    /// was, where the result is out of range.
    pub fn add_fraction(&mut self, n: i128, d: i128) -> (r: bool)
        requires
            old(self).wf(),
            d > 0,
        ensures
            final(self).wf(),
            final(self).sample_rate == old(self).sample_rate,
            r == spec_add_fraction(old(self).num as int, old(self).den as int, n as int, d as int) is Some,
            r ==> (final(self).num as int, final(self).den as int) == spec_add_fraction(
                old(self).num as int,
                old(self).den as int,
                n as int,
                d as int,
            )->Some_0,
            !r ==> *final(self) == *old(self),
    {
        if self.den % d == 0 {
            let p = match n.checked_mul(self.den / d) {
                Some(p) => p,
                None => {
                    return false;
                },
            };
            let s = match self.num.checked_add(p) {
                Some(s) => s,
                None => {
                    return false;
                },
            };
            if s < -DRIFT_LIMIT || s > DRIFT_LIMIT {
                return false;
            }
            self.num = s;
            true
        } else {
            let d2 = match self.den.checked_mul(d) {
                Some(x) => x,
                None => {
                    return false;
                },
            };
            let p1 = match self.num.checked_mul(d) {
                Some(x) => x,
                None => {
                    return false;
                },
            };
            let p2 = match n.checked_mul(self.den) {
                Some(x) => x,
                None => {
                    return false;
                },
            };
            if d2 > DRIFT_LIMIT {
                return false;
            }
            let s = match p1.checked_add(p2) {
                Some(x) => x,
                None => {
                    return false;
                },
            };
            if s < -DRIFT_LIMIT || s > DRIFT_LIMIT {
                return false;
            }
            proof {
                assert(d2 > 0) by (nonlinear_arith)
                    requires
                        d2 == self.den * d,
                        self.den > 0,
                        d > 0,
                ;
            }
            self.num = s;
            self.den = d2;
            true
        }
    }

    /// Takes `frames` frames of a stream with parameters `metadata` off the
    /// drift, `frames * frame_size / sample_rate` seconds; false, leaving the
    /// drift as it was, where the result is out of range.
    pub fn sub_frames(&mut self, frames: u32, metadata: &ThdMetadata) -> (r: bool)
        requires
            old(self).wf(),
            metadata.sample_rate > 0,
        ensures
            final(self).wf(),
            final(self).sample_rate == old(self).sample_rate,
            r == spec_add_fraction(
                old(self).num as int,
                old(self).den as int,
                -(frames * metadata.frame_size),
                metadata.sample_rate as int,
            ) is Some,
            r ==> (final(self).num as int, final(self).den as int) == spec_add_fraction(
                old(self).num as int,
                old(self).den as int,
                -(frames * metadata.frame_size),
                metadata.sample_rate as int,
            )->Some_0,
            !r ==> *final(self) == *old(self),
    {
        proof {
            assert(frames * metadata.frame_size <= 0xffff_ffff * 0xffff_ffff) by (nonlinear_arith)
                requires
                    frames <= 0xffff_ffff,
                    metadata.frame_size <= 0xffff_ffff,
            ;
        }
        let n: i128 = -((frames as i128) * (metadata.frame_size as i128));
        self.add_fraction(n, metadata.sample_rate as i128)
    }

    /// The drift in samples, rounded to the nearest sample (halves away
    /// from zero).
    pub fn samples(&self) -> (r: i128)
        requires
            self.wf(),
        ensures
            r as int == self.spec_samples(),
    {
        proof {
            assert(-DRIFT_LIMIT * 0xffff_ffff <= self.num * self.sample_rate <= DRIFT_LIMIT
                * 0xffff_ffff) by (nonlinear_arith)
                requires
                    -DRIFT_LIMIT <= self.num <= DRIFT_LIMIT,
                    0 <= self.sample_rate <= 0xffff_ffff,
            ;
        }
        rounded_div(self.num * (self.sample_rate as i128), self.den)
    }
}

/// `n / b` rounded to the nearest integer, halves away from zero.
pub fn rounded_div(n: i128, b: i128) -> (r: i128)
    requires
        b > 0,
        n > i128::MIN,
    ensures
        r as int == round_div(n as int, b as int),
{
    let a: i128 = if n >= 0 { n } else { -n };
    let q: i128 = a / b;
    let rem: i128 = a % b;
    let up: bool = rem >= b - rem;
    proof {
        let ai = a as int;
        let bi = b as int;
        assert(ai == q * bi + rem && 0 <= rem < bi && q >= 0) by (nonlinear_arith)
            requires
                ai >= 0,
                bi > 0,
                q == ai / bi,
                rem == ai % bi,
        ;
        if up {
            assert(q < i128::MAX) by (nonlinear_arith)
                requires
                    ai == q * bi + rem,
                    0 <= rem < bi,
                    2 * rem >= bi,
                    q >= 0,
                    ai <= i128::MAX,
            {
                assert(bi >= 2);
                assert(q * bi >= 2 * q);
            }
        }
    }
    let m: i128 = if up { q + 1 } else { q };
    proof {
        let ai = a as int;
        let bi = b as int;
        if up {
            assert((2 * ai + bi) / (2 * bi) == q + 1) by (nonlinear_arith)
                requires
                    ai == q * bi + rem,
                    0 <= rem < bi,
                    2 * rem >= bi,
            {
                assert(2 * ai + bi == (q + 1) * (2 * bi) + (2 * rem - bi));
                assert(0 <= 2 * rem - bi < 2 * bi);
            }
        } else {
            assert((2 * ai + bi) / (2 * bi) == q) by (nonlinear_arith)
                requires
                    ai == q * bi + rem,
                    0 <= rem < bi,
                    2 * rem < bi,
            {
                assert(2 * ai + bi == q * (2 * bi) + (2 * rem + bi));
                assert(0 <= 2 * rem + bi < 2 * bi);
            }
        }
    }
    if n >= 0 {
        m
    } else {
        -m
    }
}

} // verus!
