//! Linear calibration through two points, in exact arithmetic.
//!
//! A calibration is kept as the two points that it goes through: two raw
//! values with the references that they stand for. A raw value is shown as the
//! point on the line through the two, rounded down, so that each of the two
//! raw values is shown as its reference exactly, whatever the values are.

use vstd::prelude::*;
use vstd::arithmetic::div_mod::{
    lemma_div_multiples_vanish,
    lemma_fundamental_div_mod,
    lemma_fundamental_div_mod_converse,
};
use crate::drivers::codec::{
    get_signed,
    le_bytes,
    le_value,
    lemma_le_bytes_len,
    lemma_le_round_trip,
    lemma_radix_values,
    lemma_signed_round_trip,
    put_signed,
    to_signed,
    to_unsigned,
};

verus! {

/// The line through `(raw_low, reference_low)` and `(raw_high,
/// reference_high)`.
#[derive(Clone, Copy, Debug)]
pub struct LinearCalibration {
    /// The lower of the two raw values.
    pub raw_low: i64,
    /// What the lower raw value stands for.
    pub reference_low: i64,
    /// The higher of the two raw values.
    pub raw_high: i64,
    /// What the higher raw value stands for.
    pub reference_high: i64,
}

impl LinearCalibration {
    /// What holds of every calibration that is applied: its two raw values
    /// differ, the lower in front.
    pub open spec fn valid(&self) -> bool {
        self.raw_low < self.raw_high
    }

    /// The calibration that changes nothing.
    pub open spec fn neutral() -> Self {
        LinearCalibration { raw_low: 0, reference_low: 0, raw_high: 1, reference_high: 1 }
    }

    /// How far the references lie apart.
    pub open spec fn rise(&self) -> int {
        self.reference_high - self.reference_low
    }

    /// How far the raw values lie apart.
    pub open spec fn run(&self) -> int {
        self.raw_high - self.raw_low
    }

    /// The point of the line at the raw value `value`, rounded down.
    pub open spec fn shown(&self, value: int) -> int {
        self.reference_low + self.rise() * (value - self.raw_low) / self.run()
    }

    /// The calibrated value for the raw value `value`: the point of the line,
    /// rounded down; nothing where it cannot be held in 64 bits.
    pub open spec fn applied(&self, value: i64) -> Option<i64> {
        if i64::MIN <= self.shown(value as int) <= i64::MAX {
            Some(self.shown(value as int) as i64)
        } else {
            None
        }
    }

    /// Whether the calibration goes through the points `(v1, p1)` and `(v2,
    /// p2)`: both lie on its line, so that its slope is `(p2 - p1) / (v2 -
    /// v1)` and its intercept is `p1` less the slope times `v1`.
    pub open spec fn through(&self, p1: i64, v1: i64, p2: i64, v2: i64) -> bool {
        &&& self.valid()
        &&& v1 != v2
        &&& self.rise() * (v1 - self.raw_low) == (p1 - self.reference_low) * self.run()
        &&& self.rise() * (v2 - self.raw_low) == (p2 - self.reference_low) * self.run()
    }

    /// The calibration that a fit through the points `(v1, p1)` and `(v2, p2)`
    /// gives: the two points, the one with the lower raw value in front.
    pub open spec fn fitted(p1: i64, v1: i64, p2: i64, v2: i64) -> Self {
        if v1 < v2 {
            LinearCalibration { raw_low: v1, reference_low: p1, raw_high: v2, reference_high: p2 }
        } else {
            LinearCalibration { raw_low: v2, reference_low: p2, raw_high: v1, reference_high: p1 }
        }
    }

    /// Whether there is a calibration through the two points: their raw
    /// values differ.
    pub open spec fn fits(p1: i64, v1: i64, p2: i64, v2: i64) -> bool {
        v1 != v2
    }

    /// The persisted form: the four numbers in two's complement.
    pub open spec fn encoded(&self) -> Seq<u8> {
        le_bytes(to_unsigned(self.raw_low as int, 8), 8) + le_bytes(
            to_unsigned(self.reference_low as int, 8),
            8,
        ) + le_bytes(to_unsigned(self.raw_high as int, 8), 8) + le_bytes(
            to_unsigned(self.reference_high as int, 8),
            8,
        )
    }

    /// The calibration that the partition `bytes` holds. A partition whose raw
    /// values do not lie apart, the lower in front, holds the calibration that
    /// changes nothing.
    pub open spec fn decoded(bytes: Seq<u8>) -> Self {
        let stored = LinearCalibration {
            raw_low: to_signed(le_value(bytes.subrange(0, 8)), 8) as i64,
            reference_low: to_signed(le_value(bytes.subrange(8, 16)), 8) as i64,
            raw_high: to_signed(le_value(bytes.subrange(16, 24)), 8) as i64,
            reference_high: to_signed(le_value(bytes.subrange(24, 32)), 8) as i64,
        };
        if stored.valid() {
            stored
        } else {
            Self::neutral()
        }
    }

    /// The calibration that changes nothing.
    pub fn identity() -> (calibration: Self)
        ensures
            calibration == Self::neutral(),
            calibration.valid(),
    {
        LinearCalibration { raw_low: 0, reference_low: 0, raw_high: 1, reference_high: 1 }
    }

    /// The calibration through the points `(v1, p1)` and `(v2, p2)`: there is
    /// one wherever the raw values differ.
    pub fn two_point(p1: i64, v1: i64, p2: i64, v2: i64) -> (r: Option<Self>)
        ensures
            r is Some == Self::fits(p1, v1, p2, v2),
            r matches Some(calibration) ==> calibration == Self::fitted(p1, v1, p2, v2)
                && calibration.through(p1, v1, p2, v2),
    {
        if v1 == v2 {
            None
        } else if v1 < v2 {
            let calibration = LinearCalibration {
                raw_low: v1,
                reference_low: p1,
                raw_high: v2,
                reference_high: p2,
            };
            assert(calibration.rise() * (v1 - v1) == (p1 - p1) * calibration.run())
                by (nonlinear_arith);
            Some(calibration)
        } else {
            let calibration = LinearCalibration {
                raw_low: v2,
                reference_low: p2,
                raw_high: v1,
                reference_high: p1,
            };
            assert(calibration.rise() * (v2 - v2) == (p2 - p2) * calibration.run())
                by (nonlinear_arith);
            Some(calibration)
        }
    }

    /// The calibrated value for the raw value `value`.
    pub fn apply(&self, value: i64) -> (calibrated: Option<i64>)
        requires
            self.valid(),
        ensures
            calibrated == self.applied(value),
    {
        let rise: i128 = self.reference_high as i128 - self.reference_low as i128;
        let step: i128 = value as i128 - self.raw_low as i128;
        let run: u128 = (self.raw_high as i128 - self.raw_low as i128) as u128;
        let up: u128 = if rise >= 0 {
            rise as u128
        } else {
            (-rise) as u128
        };
        let along: u128 = if step >= 0 {
            step as u128
        } else {
            (-step) as u128
        };
        assert(up * along <= 0xFFFF_FFFF_FFFF_FFFE_0000_0000_0000_0001) by (nonlinear_arith)
            requires
                0 <= up <= 0xFFFF_FFFF_FFFF_FFFF,
                0 <= along <= 0xFFFF_FFFF_FFFF_FFFF,
        ;
        let area: u128 = up * along;
        let whole: u128 = area / run;
        let rest: u128 = area % run;
        let falling: bool = (rise < 0) != (step < 0);
        proof {
            lemma_fundamental_div_mod(area as int, run as int);
            lemma_quotient(
                rise as int,
                step as int,
                run as int,
                falling,
                whole as int,
                rest as int,
            );
        }
        if whole > 0x1_0000_0000_0000_0000 {
            return None;
        }
        let quotient: i128 = if !falling {
            whole as i128
        } else if rest == 0 {
            -(whole as i128)
        } else {
            -(whole as i128) - 1
        };
        let shown: i128 = self.reference_low as i128 + quotient;
        if shown < i64::MIN as i128 || shown > i64::MAX as i128 {
            None
        } else {
            Some(shown as i64)
        }
    }

    /// Reads the calibration from its partition.
    pub fn from_bytes(bytes: &[u8; 32]) -> (calibration: Self)
        ensures
            calibration == Self::decoded(bytes@),
            calibration.valid(),
    {
        let stored = LinearCalibration {
            raw_low: get_signed(bytes.as_slice(), 0, 8),
            reference_low: get_signed(bytes.as_slice(), 8, 8),
            raw_high: get_signed(bytes.as_slice(), 16, 8),
            reference_high: get_signed(bytes.as_slice(), 24, 8),
        };
        if stored.raw_low < stored.raw_high {
            stored
        } else {
            LinearCalibration::identity()
        }
    }

    /// Appends the persisted form to `out`.
    pub fn put(&self, out: &mut Vec<u8>)
        ensures
            final(out)@ == old(out)@ + self.encoded(),
    {
        proof {
            lemma_radix_values();
        }
        put_signed(out, self.raw_low, 8);
        put_signed(out, self.reference_low, 8);
        put_signed(out, self.raw_high, 8);
        put_signed(out, self.reference_high, 8);
        assert(out@ =~= old(out)@ + self.encoded());
    }
}

/// The quotient of `rise * step` by `run`, rounded down, from the quotient and
/// the remainder of the product of their sizes: where the product is negative
/// and leaves a remainder, rounding down goes one further from zero.
pub proof fn lemma_quotient(rise: int, step: int, run: int, falling: bool, whole: int, rest: int)
    requires
        run > 0,
        falling == ((rise < 0) != (step < 0)),
        0 <= rest < run,
        (if rise >= 0 {
            rise
        } else {
            -rise
        }) * (if step >= 0 {
            step
        } else {
            -step
        }) == run * whole + rest,
    ensures
        rise * step / run == if !falling {
            whole
        } else if rest == 0 {
            -whole
        } else {
            -whole - 1
        },
{
    let up = if rise >= 0 {
        rise
    } else {
        -rise
    };
    let along = if step >= 0 {
        step
    } else {
        -step
    };
    if !falling {
        assert(rise * step == up * along) by (nonlinear_arith)
            requires
                (rise == up && step == along) || (rise == -up && step == -along),
        ;
        assert(rise * step == whole * run + rest) by (nonlinear_arith)
            requires
                rise * step == up * along,
                up * along == run * whole + rest,
        ;
        lemma_fundamental_div_mod_converse(rise * step, run, whole, rest);
    } else {
        assert(rise * step == -(up * along)) by (nonlinear_arith)
            requires
                (rise == up && step == -along) || (rise == -up && step == along),
        ;
        if rest == 0 {
            assert(rise * step == (-whole) * run + 0) by (nonlinear_arith)
                requires
                    rise * step == -(up * along),
                    up * along == run * whole + rest,
                    rest == 0,
            ;
            lemma_fundamental_div_mod_converse(rise * step, run, -whole, 0);
        } else {
            assert(rise * step == (-whole - 1) * run + (run - rest)) by (nonlinear_arith)
                requires
                    rise * step == -(up * along),
                    up * along == run * whole + rest,
            ;
            lemma_fundamental_div_mod_converse(rise * step, run, -whole - 1, run - rest);
        }
    }
}

/// The persisted form fills a partition.
pub proof fn lemma_encoded_len(calibration: LinearCalibration)
    ensures
        calibration.encoded().len() == 32,
{
    lemma_le_bytes_len(to_unsigned(calibration.raw_low as int, 8), 8);
    lemma_le_bytes_len(to_unsigned(calibration.reference_low as int, 8), 8);
    lemma_le_bytes_len(to_unsigned(calibration.raw_high as int, 8), 8);
    lemma_le_bytes_len(to_unsigned(calibration.reference_high as int, 8), 8);
}

/// A calibration that is applied, read back from its own persisted form, is the
/// same calibration.
pub proof fn lemma_calibration_round_trip(calibration: LinearCalibration)
    requires
        calibration.valid(),
    ensures
        calibration.encoded().len() == 32,
        LinearCalibration::decoded(calibration.encoded()) == calibration,
{
    lemma_radix_values();
    let first = to_unsigned(calibration.raw_low as int, 8);
    let second = to_unsigned(calibration.reference_low as int, 8);
    let third = to_unsigned(calibration.raw_high as int, 8);
    let fourth = to_unsigned(calibration.reference_high as int, 8);
    lemma_signed_round_trip(calibration.raw_low as int, 8);
    lemma_signed_round_trip(calibration.reference_low as int, 8);
    lemma_signed_round_trip(calibration.raw_high as int, 8);
    lemma_signed_round_trip(calibration.reference_high as int, 8);
    lemma_le_round_trip(first, 8);
    lemma_le_round_trip(second, 8);
    lemma_le_round_trip(third, 8);
    lemma_le_round_trip(fourth, 8);
    let bytes = calibration.encoded();
    assert(bytes.subrange(0, 8) =~= le_bytes(first, 8));
    assert(bytes.subrange(8, 16) =~= le_bytes(second, 8));
    assert(bytes.subrange(16, 24) =~= le_bytes(third, 8));
    assert(bytes.subrange(24, 32) =~= le_bytes(fourth, 8));
}

/// The two-point law: a calibration through `(v1, p1)` and `(v2, p2)` shows
/// `v1` as `p1` and `v2` as `p2`, exactly.
pub proof fn lemma_two_point_law(calibration: LinearCalibration, p1: i64, v1: i64, p2: i64, v2: i64)
    requires
        calibration.through(p1, v1, p2, v2),
    ensures
        calibration.applied(v1) == Some(p1),
        calibration.applied(v2) == Some(p2),
{
    let run = calibration.run();
    lemma_div_multiples_vanish(p1 - calibration.reference_low, run);
    lemma_div_multiples_vanish(p2 - calibration.reference_low, run);
    assert((p1 - calibration.reference_low) * run == run * (p1 - calibration.reference_low))
        by (nonlinear_arith);
    assert((p2 - calibration.reference_low) * run == run * (p2 - calibration.reference_low))
        by (nonlinear_arith);
}

/// Every fit through two points with different raw values succeeds, and the
/// calibration that it gives shows each of the two raw values as its
/// reference.
pub proof fn lemma_fit_shows_its_points(p1: i64, v1: i64, p2: i64, v2: i64)
    requires
        v1 != v2,
    ensures
        LinearCalibration::fits(p1, v1, p2, v2),
        LinearCalibration::fitted(p1, v1, p2, v2).through(p1, v1, p2, v2),
        LinearCalibration::fitted(p1, v1, p2, v2).applied(v1) == Some(p1),
        LinearCalibration::fitted(p1, v1, p2, v2).applied(v2) == Some(p2),
{
    let calibration = LinearCalibration::fitted(p1, v1, p2, v2);
    assert(calibration.rise() * 0 == 0 * calibration.run()) by (nonlinear_arith);
    lemma_two_point_law(calibration, p1, v1, p2, v2);
}

} // verus!
