//! Wheel-speed patterns and the arithmetic that derives them.
//!
//! A [`SpeedPattern`] is one of three wheel-speed layouts: the same speed on
//! every wheel, a left/right split, or one speed per wheel.  Derived
//! patterns (differential turns, drifts, scaled copies) multiply a speed by
//! a ratio and truncate toward zero; results outside the `i32` range are
//! clamped to it.  Ratios are carried as exact fractions by [`Scale`], and
//! the movement geometry lives in [`MovementConfig`].

use vstd::prelude::*;

verus! {

/// Default distance between the wheels of one axle, in the same length unit
/// as a turn radius.
pub const DEFAULT_TRACK_WIDTH: u32 = 100;

/// Default multiplier for the diagonal wheel of a drift, as the exact
/// fraction 153/100.
pub const DEFAULT_DIAGONAL_NUM: i32 = 153;

/// Denominator of [`DEFAULT_DIAGONAL_NUM`].
pub const DEFAULT_DIAGONAL_DEN: u32 = 100;

/// One of three wheel-speed layouts.  A pure value: two patterns are equal
/// exactly when their speeds are.
#[derive(Clone, Copy, Debug, PartialEq, Eq, Structural, Hash)]
pub enum SpeedPattern {
    /// All wheels run at the same speed.
    Uniform(i32),
    /// Left wheels share one speed, right wheels another.
    LeftRight { left: i32, right: i32 },
    /// Every wheel has its own speed.
    PerWheel { front_left: i32, rear_left: i32, front_right: i32, rear_right: i32 },
}

/// The shape of a [`SpeedPattern`], without its speeds.
#[derive(Clone, Copy, Debug, PartialEq, Eq, Structural, Hash)]
pub enum PatternType {
    Uniform,
    LeftRight,
    PerWheel,
}

/// Which way a turn goes.
#[derive(Clone, Copy, Debug, PartialEq, Eq, Structural, Hash)]
pub enum TurnDirection {
    Left,
    Right,
}

/// The wheel that stays fixed during a drift.
#[derive(Clone, Copy, Debug, PartialEq, Eq, Structural, Hash)]
pub enum FixedAxis {
    FrontLeft,
    RearLeft,
    RearRight,
    FrontRight,
}

/// Quotient of `n / d` truncated toward zero.
pub open spec fn div_trunc(n: int, d: int) -> int
    recommends
        d >= 1,
{
    if n >= 0 {
        n / d
    } else {
        -((-n) / d)
    }
}

/// `v` forced into the `i32` range.
pub open spec fn clamp_i32(v: int) -> int {
    if v > i32::MAX {
        i32::MAX as int
    } else if v < i32::MIN {
        i32::MIN as int
    } else {
        v
    }
}

/// `v * num / den`, truncated toward zero and clamped to the `i32` range:
/// the effect of scaling one wheel speed by the fraction `num / den`.
pub open spec fn scale_value(v: int, num: int, den: int) -> int
    recommends
        den >= 1,
{
    clamp_i32(div_trunc(v * num, den))
}

/// An exact fraction `num / den`, standing for a scaling factor.
#[derive(Clone, Copy, Debug, PartialEq, Eq, Structural, Hash)]
pub struct Scale {
    pub num: i32,
    pub den: u32,
}

impl Scale {
    /// A scale is well formed when its denominator is positive.
    pub open spec fn wf(self) -> bool {
        self.den >= 1
    }

    /// The value `v` scaled by this fraction, truncated toward zero and
    /// clamped to the `i32` range.
    pub open spec fn spec_apply(self, v: int) -> int
        recommends
            self.wf(),
    {
        scale_value(v, self.num as int, self.den as int)
    }

    /// The fraction `num / den`.
    pub fn new(num: i32, den: u32) -> (r: Self)
        requires
            den >= 1,
        ensures
            r == (Scale { num, den }),
            r.wf(),
    {
        Scale { num, den }
    }

    /// The whole number `k` as a scale.
    pub fn from_int(k: i32) -> (r: Self)
        ensures
            r == (Scale { num: k, den: 1u32 }),
            r.wf(),
    {
        Scale { num: k, den: 1 }
    }
}

/// Geometry constants for derived movement patterns.
#[derive(Clone, Copy, Debug, PartialEq, Eq, Structural, Hash)]
pub struct MovementConfig {
    /// Distance between the wheels that share an axle.
    pub track_width: u32,
    /// Factor for the wheel diagonally opposite the fixed one in a drift.
    pub diagonal_multiplier: Scale,
}

impl MovementConfig {
    /// A configuration is well formed when the track width is positive and
    /// the diagonal multiplier is.
    pub open spec fn wf(self) -> bool {
        self.track_width >= 1 && self.diagonal_multiplier.wf()
    }
}

impl Default for MovementConfig {
    /// Track width 100 and diagonal multiplier 153/100.
    fn default() -> (r: Self)
        ensures
            r.track_width == DEFAULT_TRACK_WIDTH,
            r.diagonal_multiplier == (Scale { num: DEFAULT_DIAGONAL_NUM, den: DEFAULT_DIAGONAL_DEN }),
            r.wf(),
    {
        MovementConfig {
            track_width: DEFAULT_TRACK_WIDTH,
            diagonal_multiplier: Scale { num: DEFAULT_DIAGONAL_NUM, den: DEFAULT_DIAGONAL_DEN },
        }
    }
}

impl SpeedPattern {
    /// The pattern's speeds in wheel order: front left, rear left, front
    /// right, rear right.
    pub open spec fn spec_speeds(self) -> Seq<i32> {
        match self {
            SpeedPattern::Uniform(speed) => seq![speed, speed, speed, speed],
            SpeedPattern::LeftRight { left, right } => seq![left, left, right, right],
            SpeedPattern::PerWheel { front_left, rear_left, front_right, rear_right } => seq![
                front_left,
                rear_left,
                front_right,
                rear_right,
            ],
        }
    }

    /// The pattern's shape.
    pub open spec fn spec_pattern_type(self) -> PatternType {
        match self {
            SpeedPattern::Uniform(..) => PatternType::Uniform,
            SpeedPattern::LeftRight { .. } => PatternType::LeftRight,
            SpeedPattern::PerWheel { .. } => PatternType::PerWheel,
        }
    }

    /// This pattern with every speed scaled by `factor`, truncating toward
    /// zero and clamping to the `i32` range.
    pub open spec fn spec_scaled(self, factor: Scale) -> SpeedPattern
        recommends
            factor.wf(),
    {
        match self {
            SpeedPattern::Uniform(speed) => SpeedPattern::Uniform(
                factor.spec_apply(speed as int) as i32,
            ),
            SpeedPattern::LeftRight { left, right } => SpeedPattern::LeftRight {
                left: factor.spec_apply(left as int) as i32,
                right: factor.spec_apply(right as int) as i32,
            },
            SpeedPattern::PerWheel { front_left, rear_left, front_right, rear_right } => SpeedPattern::PerWheel {
                front_left: factor.spec_apply(front_left as int) as i32,
                rear_left: factor.spec_apply(rear_left as int) as i32,
                front_right: factor.spec_apply(front_right as int) as i32,
                rear_right: factor.spec_apply(rear_right as int) as i32,
            },
        }
    }

    /// The speeds in wheel order: front left, rear left, front right, rear
    /// right.
    pub fn to_array(&self) -> (r: [i32; 4])
        ensures
            r@ == self.spec_speeds(),
    {
        let r = match *self {
            SpeedPattern::Uniform(speed) => [speed, speed, speed, speed],
            SpeedPattern::LeftRight { left, right } => [left, left, right, right],
            SpeedPattern::PerWheel { front_left, rear_left, front_right, rear_right } => [
                front_left,
                rear_left,
                front_right,
                rear_right,
            ],
        };
        proof {
            assert(r@ =~= self.spec_speeds());
        }
        r
    }

    /// The pattern's shape.
    pub fn pattern_type(&self) -> (r: PatternType)
        ensures
            r == self.spec_pattern_type(),
    {
        match self {
            SpeedPattern::Uniform(..) => PatternType::Uniform,
            SpeedPattern::LeftRight { .. } => PatternType::LeftRight,
            SpeedPattern::PerWheel { .. } => PatternType::PerWheel,
        }
    }

    /// This pattern with every speed scaled by `factor`.
    pub fn scaled(self, factor: Scale) -> (r: SpeedPattern)
        requires
            factor.wf(),
        ensures
            r == self.spec_scaled(factor),
    {
        match self {
            SpeedPattern::Uniform(speed) => SpeedPattern::Uniform(
                scale_i32(speed, factor.num, factor.den),
            ),
            SpeedPattern::LeftRight { left, right } => SpeedPattern::LeftRight {
                left: scale_i32(left, factor.num, factor.den),
                right: scale_i32(right, factor.num, factor.den),
            },
            SpeedPattern::PerWheel { front_left, rear_left, front_right, rear_right } => SpeedPattern::PerWheel {
                front_left: scale_i32(front_left, factor.num, factor.den),
                rear_left: scale_i32(rear_left, factor.num, factor.den),
                front_right: scale_i32(front_right, factor.num, factor.den),
                rear_right: scale_i32(rear_right, factor.num, factor.den),
            },
        }
    }
}

/// Magnitude of `v` as a `u64`.
fn abs_u64(v: i32) -> (r: u64)
    ensures
        r == if v >= 0 { v as int } else { -(v as int) },
{
    if v >= 0 {
        v as u64
    } else {
        let wide: i64 = -(v as i64);
        wide as u64
    }
}

/// Signed quotient `mag / den`, negated when `neg` holds, clamped to the
/// `i32` range.
fn signed_quotient(mag: u64, den: u64, neg: bool) -> (r: i32)
    requires
        den >= 1,
    ensures
        r == clamp_i32(
            if neg {
                -(mag as int / den as int)
            } else {
                mag as int / den as int
            },
        ),
{
    let q: u64 = mag / den;
    if neg {
        if q >= 2147483648u64 {
            i32::MIN
        } else {
            -(q as i32)
        }
    } else {
        if q > 2147483647u64 {
            i32::MAX
        } else {
            q as i32
        }
    }
}

/// `v * num / den`, truncated toward zero and clamped to the `i32` range.
pub fn scale_i32(v: i32, num: i32, den: u32) -> (r: i32)
    requires
        den >= 1,
    ensures
        r == scale_value(v as int, num as int, den as int),
{
    let mag_v: u64 = abs_u64(v);
    let mag_n: u64 = abs_u64(num);
    let neg: bool = (v < 0) != (num < 0);
    proof {
        assert(mag_v * mag_n <= 0x8000_0000u64 * 0x8000_0000u64) by (nonlinear_arith)
            requires
                mag_v <= 0x8000_0000u64,
                mag_n <= 0x8000_0000u64,
        ;
    }
    let prod: u64 = mag_v * mag_n;
    proof {
        lemma_abs_mul(v as int, num as int);
        assert(v as int * num as int == if neg {
            -(prod as int)
        } else {
            prod as int
        });
    }
    signed_quotient(prod, den as u64, neg)
}

/// The product of two values in terms of the product of their magnitudes,
/// with the sign following the factors' signs.
proof fn lemma_abs_mul(a: int, b: int)
    ensures
        a >= 0 && b >= 0 ==> a * b >= 0,
        a < 0 && b < 0 ==> a * b >= 0 && a * b == (-a) * (-b),
        a >= 0 && b < 0 ==> a * b <= 0 && -(a * b) == a * (-b),
        a < 0 && b >= 0 ==> a * b <= 0 && -(a * b) == (-a) * b,
{
    assert(a < 0 && b < 0 ==> a * b >= 0 && a * b == (-a) * (-b)) by (nonlinear_arith);
    assert(a >= 0 && b < 0 ==> a * b <= 0 && -(a * b) == a * (-b)) by (nonlinear_arith);
    assert(a < 0 && b >= 0 ==> a * b <= 0 && -(a * b) == (-a) * b) by (nonlinear_arith);
    assert(a >= 0 && b >= 0 ==> a * b >= 0) by (nonlinear_arith);
}

/// The inner speed of a differential turn: `outer * radius / (radius +
/// track_width)`, truncated toward zero.
pub open spec fn spec_differential_inner(outer: int, radius: int, track_width: int) -> int
    recommends
        radius >= 0,
        track_width >= 1,
{
    clamp_i32(div_trunc(outer * radius, radius + track_width))
}

/// The inner wheel speed of a differential turn with the given radius and
/// outer wheel speed.
pub fn differential_inner(outer: i32, radius: u32, track_width: u32) -> (r: i32)
    requires
        track_width >= 1,
    ensures
        r == spec_differential_inner(outer as int, radius as int, track_width as int),
{
    let mag_o: u64 = abs_u64(outer);
    let rad: u64 = radius as u64;
    proof {
        assert(mag_o * rad <= 0x8000_0000u64 * 0xFFFF_FFFFu64) by (nonlinear_arith)
            requires
                mag_o <= 0x8000_0000u64,
                rad <= 0xFFFF_FFFFu64,
        ;
    }
    let prod: u64 = mag_o * rad;
    let den: u64 = rad + track_width as u64;
    let neg: bool = outer < 0;
    proof {
        lemma_abs_mul(outer as int, radius as int);
        assert(outer as int * radius as int == if neg {
            -(prod as int)
        } else {
            prod as int
        });
    }
    signed_quotient(prod, den, neg)
}

} // verus!
