//! Easing curves over fixed-point progress.
//!
//! Progress and alpha are fractions of [`ALPHA_ONE`]: the integer `a` stands for
//! `a / 65536`. Every curve maps `0` to `0` and [`ALPHA_ONE`] to [`ALPHA_ONE`], and
//! stays between the two: a curve that would leave that range is cut off at its ends.
//!
//! A curve belongs to a family, which gives the shape of a slow start, and eases in, out
//! or both. Easing out is easing in seen from the end, and easing both ways is the one
//! after the other, each at half size.

use vstd::prelude::*;

verus! {

/// The alpha that stands for `1.0`.
pub const ALPHA_ONE: u32 = 65536;

/// How far a curve that starts by going backwards goes back: `1.70158`, as a fraction.
pub const BACK_OVERSHOOT: u32 = 111515;

/// How far such a curve goes back when it eases both ways: `1.70158 * 1.525`, as a
/// fraction.
pub const BACK_OVERSHOOT_BOTH: u32 = 170060;

/// The product of two fractions, rounded down.
pub open spec fn frac_mul(a: int, b: int) -> int {
    a * b / (ALPHA_ONE as int)
}

/// The `n`-th power of the fraction `t`, each product rounded down; `n` is at least 1.
pub open spec fn frac_pow(t: int, n: nat) -> int
    decreases n,
{
    if n <= 1 {
        t
    } else {
        frac_mul(frac_pow(t, (n - 1) as nat), t)
    }
}

/// Whether `r` is the square root of `x`, rounded down.
pub open spec fn is_root(x: int, r: int) -> bool {
    0 <= r && r * r <= x < (r + 1) * (r + 1)
}

/// The square root of `x`, rounded down.
pub open spec fn root(x: int) -> int {
    choose|r: int| is_root(x, r)
}

/// The slow start of a quarter circle: `1 - sqrt(1 - t^2)`.
pub open spec fn circ_in(t: int) -> int {
    ALPHA_ONE - root(ALPHA_ONE * ALPHA_ONE - t * t)
}

/// The start of a curve that first goes back by `c` and then forwards:
/// `t^2 * ((c + 1) * t - c)`, and nothing while that is negative.
pub open spec fn back_in(t: int, c: int) -> int {
    let rise = frac_mul(c + ALPHA_ONE, t) - c;
    if rise <= 0 {
        0
    } else {
        frac_mul(frac_mul(t, t), rise)
    }
}

/// The end of a fall with three bounces, each lower than the one before, in four arcs of
/// parabolas that end at `4/11`, `8/11`, `10/11` and `1`.
pub open spec fn bounce_out(t: int) -> int {
    if 11 * t < 4 * ALPHA_ONE {
        (11 * t) * (11 * t) / (16 * ALPHA_ONE)
    } else if 11 * t < 8 * ALPHA_ONE {
        (11 * t - 6 * ALPHA_ONE) * (11 * t - 6 * ALPHA_ONE) / (16 * ALPHA_ONE) + 3 * ALPHA_ONE / 4
    } else if 11 * t < 10 * ALPHA_ONE {
        (11 * t - 9 * ALPHA_ONE) * (11 * t - 9 * ALPHA_ONE) / (16 * ALPHA_ONE) + 15 * ALPHA_ONE
            / 16
    } else {
        (22 * t - 21 * ALPHA_ONE) * (22 * t - 21 * ALPHA_ONE) / (64 * ALPHA_ONE) + 63 * ALPHA_ONE
            / 64
    }
}

/// The shape of a slow start.
#[derive(Clone, Copy, Debug, PartialEq, Eq, Structural)]
pub enum Family {
    /// A power of progress: the first power is a straight line.
    Power(u32),
    /// A quarter circle.
    Circ,
    /// A curve that first goes back a little.
    Back,
    /// A fall with bounces, seen from its end.
    Bounce,
}

/// Which end of a curve is eased.
#[derive(Clone, Copy, Debug, PartialEq, Eq, Structural)]
pub enum Easing {
    In,
    Out,
    InOut,
}

impl Family {
    /// The slow start of the family at progress `t`; `both` says that the curve eases
    /// both ways, which matters to the curve that goes back.
    pub open spec fn start(self, t: int, both: bool) -> int {
        match self {
            Family::Power(n) => frac_pow(t, n as nat),
            Family::Circ => circ_in(t),
            Family::Back => back_in(
                t,
                if both {
                    BACK_OVERSHOOT_BOTH as int
                } else {
                    BACK_OVERSHOOT as int
                },
            ),
            Family::Bounce => ALPHA_ONE - bounce_out(ALPHA_ONE - t),
        }
    }
}

/// The shape of the curve that maps elapsed progress to alpha.
#[derive(Clone, Copy, Debug, PartialEq, Eq, Structural, Hash)]
pub enum Interpolation {
    Linear,
    QuadIn,
    QuadOut,
    QuadInOut,
    CubicIn,
    CubicOut,
    CubicInOut,
    QuartIn,
    QuartOut,
    QuartInOut,
    QuintIn,
    QuintOut,
    QuintInOut,
    CircIn,
    CircOut,
    CircInOut,
    BackIn,
    BackOut,
    BackInOut,
    BounceIn,
    BounceOut,
    BounceInOut,
}

impl Interpolation {
    /// The family of the curve.
    pub open spec fn family(self) -> Family {
        match self {
            Interpolation::Linear => Family::Power(1),
            Interpolation::QuadIn | Interpolation::QuadOut | Interpolation::QuadInOut => {
                Family::Power(2)
            },
            Interpolation::CubicIn | Interpolation::CubicOut | Interpolation::CubicInOut => {
                Family::Power(3)
            },
            Interpolation::QuartIn | Interpolation::QuartOut | Interpolation::QuartInOut => {
                Family::Power(4)
            },
            Interpolation::QuintIn | Interpolation::QuintOut | Interpolation::QuintInOut => {
                Family::Power(5)
            },
            Interpolation::CircIn | Interpolation::CircOut | Interpolation::CircInOut => {
                Family::Circ
            },
            Interpolation::BackIn | Interpolation::BackOut | Interpolation::BackInOut => {
                Family::Back
            },
            Interpolation::BounceIn | Interpolation::BounceOut | Interpolation::BounceInOut => {
                Family::Bounce
            },
        }
    }

    /// Which end of the curve is eased; a linear curve eases neither, and counts as `In`.
    pub open spec fn easing(self) -> Easing {
        match self {
            Interpolation::Linear
            | Interpolation::QuadIn
            | Interpolation::CubicIn
            | Interpolation::QuartIn
            | Interpolation::QuintIn
            | Interpolation::CircIn
            | Interpolation::BackIn
            | Interpolation::BounceIn => Easing::In,
            Interpolation::QuadOut
            | Interpolation::CubicOut
            | Interpolation::QuartOut
            | Interpolation::QuintOut
            | Interpolation::CircOut
            | Interpolation::BackOut
            | Interpolation::BounceOut => Easing::Out,
            Interpolation::QuadInOut
            | Interpolation::CubicInOut
            | Interpolation::QuartInOut
            | Interpolation::QuintInOut
            | Interpolation::CircInOut
            | Interpolation::BackInOut
            | Interpolation::BounceInOut => Easing::InOut,
        }
    }

    /// The curve's value at progress `t`; progress past the end counts as the end.
    pub open spec fn curve(self, t: int) -> int {
        let t = if t > ALPHA_ONE {
            ALPHA_ONE as int
        } else {
            t
        };
        let family = self.family();
        match self.easing() {
            Easing::In => family.start(t, false),
            Easing::Out => ALPHA_ONE - family.start(ALPHA_ONE - t, false),
            Easing::InOut => if 2 * t < ALPHA_ONE {
                family.start(2 * t, true) / 2
            } else {
                ALPHA_ONE - family.start(2 * (ALPHA_ONE - t), true) / 2
            },
        }
    }

    /// The family of the curve.
    pub fn family_of(&self) -> (f: Family)
        ensures
            f == self.family(),
    {
        match self {
            Interpolation::Linear => Family::Power(1),
            Interpolation::QuadIn | Interpolation::QuadOut | Interpolation::QuadInOut => {
                Family::Power(2)
            },
            Interpolation::CubicIn | Interpolation::CubicOut | Interpolation::CubicInOut => {
                Family::Power(3)
            },
            Interpolation::QuartIn | Interpolation::QuartOut | Interpolation::QuartInOut => {
                Family::Power(4)
            },
            Interpolation::QuintIn | Interpolation::QuintOut | Interpolation::QuintInOut => {
                Family::Power(5)
            },
            Interpolation::CircIn | Interpolation::CircOut | Interpolation::CircInOut => {
                Family::Circ
            },
            Interpolation::BackIn | Interpolation::BackOut | Interpolation::BackInOut => {
                Family::Back
            },
            Interpolation::BounceIn | Interpolation::BounceOut | Interpolation::BounceInOut => {
                Family::Bounce
            },
        }
    }

    /// Which end of the curve is eased.
    pub fn easing_of(&self) -> (e: Easing)
        ensures
            e == self.easing(),
    {
        match self {
            Interpolation::Linear
            | Interpolation::QuadIn
            | Interpolation::CubicIn
            | Interpolation::QuartIn
            | Interpolation::QuintIn
            | Interpolation::CircIn
            | Interpolation::BackIn
            | Interpolation::BounceIn => Easing::In,
            Interpolation::QuadOut
            | Interpolation::CubicOut
            | Interpolation::QuartOut
            | Interpolation::QuintOut
            | Interpolation::CircOut
            | Interpolation::BackOut
            | Interpolation::BounceOut => Easing::Out,
            Interpolation::QuadInOut
            | Interpolation::CubicInOut
            | Interpolation::QuartInOut
            | Interpolation::QuintInOut
            | Interpolation::CircInOut
            | Interpolation::BackInOut
            | Interpolation::BounceInOut => Easing::InOut,
        }
    }

    /// Maps progress `a` to alpha along this curve.
    ///
    /// Progress past [`ALPHA_ONE`] counts as [`ALPHA_ONE`]. The result is a fraction too.
    pub fn alpha(&self, a: u32) -> (r: u32)
        ensures
            r == self.curve(a as int),
            r <= ALPHA_ONE,
    {
        let t: u32 = if a > ALPHA_ONE {
            ALPHA_ONE
        } else {
            a
        };
        let family = self.family_of();
        proof {
            self.lemma_family();
            family.lemma_start_range(t as int, false);
            family.lemma_start_range(ALPHA_ONE - t, false);
        }
        match self.easing_of() {
            Easing::In => start_of(family, t, false),
            Easing::Out => ALPHA_ONE - start_of(family, ALPHA_ONE - t, false),
            Easing::InOut => {
                if t < ALPHA_ONE / 2 {
                    proof {
                        family.lemma_start_range(2 * t, true);
                    }
                    start_of(family, 2 * t, true) / 2
                } else {
                    proof {
                        family.lemma_start_range(2 * (ALPHA_ONE - t), true);
                    }
                    ALPHA_ONE - start_of(family, 2 * (ALPHA_ONE - t), true) / 2
                }
            },
        }
    }

    /// The power of a family of powers lies between one and five.
    pub proof fn lemma_family(self)
        ensures
            self.family() matches Family::Power(n) ==> 1 <= n <= 5,
    {
    }

    /// Every curve starts at `0`, ends at [`ALPHA_ONE`] and stays between the two.
    pub proof fn lemma_curve_range(self, t: int)
        requires
            0 <= t,
        ensures
            0 <= self.curve(t) <= ALPHA_ONE,
            self.curve(0) == 0,
            t >= ALPHA_ONE ==> self.curve(t) == ALPHA_ONE,
    {
        let family = self.family();
        let c = if t > ALPHA_ONE {
            ALPHA_ONE as int
        } else {
            t
        };
        self.lemma_family();
        family.lemma_start_range(c, false);
        family.lemma_start_range(ALPHA_ONE - c, false);
        family.lemma_start_range(0, false);
        family.lemma_start_range(0, true);
        family.lemma_start_range(ALPHA_ONE as int, false);
        family.lemma_start_range(ALPHA_ONE as int, true);
        if 2 * c < ALPHA_ONE {
            family.lemma_start_range(2 * c, true);
        } else {
            family.lemma_start_range(2 * (ALPHA_ONE - c), true);
        }
    }

    /// A linear curve leaves progress as it is.
    pub proof fn lemma_linear_is_identity(t: int)
        requires
            0 <= t <= ALPHA_ONE,
        ensures
            Interpolation::Linear.curve(t) == t,
    {
    }
}

impl Default for Interpolation {
    fn default() -> (r: Interpolation)
        ensures
            r == Interpolation::Linear,
    {
        Interpolation::Linear
    }
}

impl Family {
    /// The slow start of every family begins at zero, ends at one, and stays between the
    /// two.
    pub proof fn lemma_start_range(self, t: int, both: bool)
        requires
            0 <= t <= ALPHA_ONE,
        ensures
            0 <= self.start(t, both) <= ALPHA_ONE,
            t == 0 ==> self.start(t, both) == 0,
            t == ALPHA_ONE ==> self.start(t, both) == ALPHA_ONE,
    {
        match self {
            Family::Power(n) => {
                lemma_frac_pow_bounds(t, n as nat);
            },
            Family::Circ => {
                lemma_circ_bounds(t);
            },
            Family::Back => {
                lemma_back_bounds(t, BACK_OVERSHOOT as int);
                lemma_back_bounds(t, BACK_OVERSHOOT_BOTH as int);
            },
            Family::Bounce => {
                lemma_bounce_bounds(ALPHA_ONE - t);
            },
        }
    }
}

/// A power of a fraction is a fraction, and the powers of `0` and of one are themselves.
pub proof fn lemma_frac_pow_bounds(t: int, n: nat)
    requires
        0 <= t <= ALPHA_ONE,
    ensures
        0 <= frac_pow(t, n) <= ALPHA_ONE,
        t == 0 ==> frac_pow(t, n) == 0,
        t == ALPHA_ONE ==> frac_pow(t, n) == ALPHA_ONE,
    decreases n,
{
    if n > 1 {
        lemma_frac_pow_bounds(t, (n - 1) as nat);
        let p = frac_pow(t, (n - 1) as nat);
        lemma_frac_mul_bounds(p, t);
    }
}

/// A product of fractions is a fraction.
pub proof fn lemma_frac_mul_bounds(a: int, b: int)
    requires
        0 <= a <= ALPHA_ONE,
        0 <= b <= ALPHA_ONE,
    ensures
        0 <= frac_mul(a, b) <= ALPHA_ONE,
        frac_mul(a, b) <= a,
        frac_mul(a, b) <= b,
        a == 0 || b == 0 ==> frac_mul(a, b) == 0,
        a == ALPHA_ONE ==> frac_mul(a, b) == b,
        b == ALPHA_ONE ==> frac_mul(a, b) == a,
{
    assert(0 <= a * b <= 65536 * 65536) by (nonlinear_arith)
        requires
            0 <= a <= 65536,
            0 <= b <= 65536,
    ;
    assert(a * b / 65536 <= a && a * b / 65536 <= b) by (nonlinear_arith)
        requires
            0 <= a <= 65536,
            0 <= b <= 65536,
    ;
    assert(a == 0 || b == 0 ==> a * b == 0) by (nonlinear_arith);
    assert(a == 65536 ==> a * b / 65536 == b) by (nonlinear_arith);
    assert(b == 65536 ==> a * b / 65536 == a) by (nonlinear_arith);
}

/// A number has one square root, rounded down.
pub proof fn lemma_root_unique(x: int, r: int)
    requires
        is_root(x, r),
    ensures
        root(x) == r,
{
    let s = root(x);
    assert(is_root(x, s));
    assert(s == r) by (nonlinear_arith)
        requires
            0 <= r,
            0 <= s,
            r * r <= x < (r + 1) * (r + 1),
            s * s <= x < (s + 1) * (s + 1),
    ;
}

/// The quarter circle begins at zero, ends at one, and stays between the two.
pub proof fn lemma_circ_bounds(t: int)
    requires
        0 <= t <= ALPHA_ONE,
    ensures
        0 <= circ_in(t) <= ALPHA_ONE,
        t == 0 ==> circ_in(t) == 0,
        t == ALPHA_ONE ==> circ_in(t) == ALPHA_ONE,
{
    let x = ALPHA_ONE * ALPHA_ONE - t * t;
    assert(0 <= x <= 65536 * 65536) by (nonlinear_arith)
        requires
            x == 65536 * 65536 - t * t,
            0 <= t <= 65536,
    ;
    lemma_root_exists(x);
    let r = root(x);
    assert(r <= 65536) by (nonlinear_arith)
        requires
            0 <= r,
            r * r <= x,
            x <= 65536 * 65536,
    ;
    if t == 0 {
        assert(is_root(x, 65536)) by (nonlinear_arith)
            requires
                x == 65536 * 65536,
        ;
        lemma_root_unique(x, 65536);
    }
    if t == ALPHA_ONE {
        assert(x == 0) by (nonlinear_arith)
            requires
                x == 65536 * 65536 - t * t,
                t == 65536,
        ;
        assert(is_root(x, 0));
        lemma_root_unique(x, 0);
    }
}

/// Every number that is not negative has a square root, rounded down.
pub proof fn lemma_root_exists(x: int)
    requires
        0 <= x,
    ensures
        is_root(x, root(x)),
    decreases x,
{
    if x == 0 {
        assert(is_root(0, 0));
    } else {
        lemma_root_exists(x - 1);
        let r = root(x - 1);
        if (r + 1) * (r + 1) <= x {
            assert(is_root(x, r + 1)) by (nonlinear_arith)
                requires
                    0 <= r,
                    r * r <= x - 1 < (r + 1) * (r + 1),
                    (r + 1) * (r + 1) <= x,
            ;
        } else {
            assert(is_root(x, r));
        }
    }
}

/// The curve that goes back begins at zero, ends at one, and stays between the two.
pub proof fn lemma_back_bounds(t: int, c: int)
    requires
        0 <= t <= ALPHA_ONE,
        0 <= c,
    ensures
        0 <= back_in(t, c) <= ALPHA_ONE,
        t == 0 ==> back_in(t, c) == 0,
        t == ALPHA_ONE ==> back_in(t, c) == ALPHA_ONE,
{
    let rise = frac_mul(c + ALPHA_ONE, t) - c;
    assert(0 <= (c + 65536) * t / 65536 <= c + 65536) by (nonlinear_arith)
        requires
            0 <= t <= 65536,
            0 <= c,
    ;
    assert(t == 65536 ==> (c + 65536) * t / 65536 == c + 65536) by (nonlinear_arith);
    assert(t == 0 ==> (c + 65536) * t / 65536 == 0) by (nonlinear_arith);
    lemma_frac_mul_bounds(t, t);
    if rise > 0 {
        lemma_frac_mul_bounds(frac_mul(t, t), rise);
    }
}

/// The fall with bounces begins at zero, ends at one, and stays between the two.
pub proof fn lemma_bounce_bounds(t: int)
    requires
        0 <= t <= ALPHA_ONE,
    ensures
        0 <= bounce_out(t) <= ALPHA_ONE,
        t == 0 ==> bounce_out(t) == 0,
        t == ALPHA_ONE ==> bounce_out(t) == ALPHA_ONE,
{
    if 11 * t < 4 * ALPHA_ONE {
        let s = 11 * t;
        assert(0 <= s * s / 1048576 <= 65536) by (nonlinear_arith)
            requires
                0 <= s < 262144,
        ;
        assert(s == 0 ==> s * s / 1048576 == 0) by (nonlinear_arith);
    } else if 11 * t < 8 * ALPHA_ONE {
        let s = 11 * t - 6 * ALPHA_ONE;
        assert(0 <= s * s / 1048576 <= 16384) by (nonlinear_arith)
            requires
                -131072 <= s < 131072,
        ;
    } else if 11 * t < 10 * ALPHA_ONE {
        let s = 11 * t - 9 * ALPHA_ONE;
        assert(0 <= s * s / 1048576 <= 4096) by (nonlinear_arith)
            requires
                -65536 <= s < 65536,
        ;
    } else {
        let s = 22 * t - 21 * ALPHA_ONE;
        assert(0 <= s * s / 4194304 <= 1024) by (nonlinear_arith)
            requires
                -65536 <= s <= 65536,
        ;
        assert(s == 65536 ==> s * s / 4194304 == 1024) by (nonlinear_arith);
    }
}

/// The product of two fractions, rounded down.
fn mul_fraction(a: u32, b: u32) -> (r: u32)
    requires
        a <= ALPHA_ONE,
        b <= ALPHA_ONE,
    ensures
        r == frac_mul(a as int, b as int),
        r <= ALPHA_ONE,
{
    proof {
        lemma_frac_mul_bounds(a as int, b as int);
        assert(0 <= a * b <= 65536 * 65536) by (nonlinear_arith)
            requires
                0 <= a <= 65536,
                0 <= b <= 65536,
        ;
    }
    let wide: u64 = (a as u64) * (b as u64);
    (wide / (ALPHA_ONE as u64)) as u32
}

/// The `n`-th power of the fraction `t`.
fn pow_fraction(t: u32, n: u32) -> (r: u32)
    requires
        t <= ALPHA_ONE,
        1 <= n,
    ensures
        r == frac_pow(t as int, n as nat),
        r <= ALPHA_ONE,
{
    let mut r: u32 = t;
    let mut i: u32 = 1;
    while i < n
        invariant
            1 <= i <= n,
            t <= ALPHA_ONE,
            r <= ALPHA_ONE,
            r == frac_pow(t as int, i as nat),
        decreases n - i,
    {
        r = mul_fraction(r, t);
        i = i + 1;
    }
    r
}

/// The square root of `x`, rounded down.
fn root_of(x: u64) -> (r: u32)
    requires
        x <= 0x1_0000_0000,
    ensures
        r == root(x as int),
        r <= ALPHA_ONE,
{
    // the root lies between `low` and `high`, the latter left out
    let mut low: u64 = 0;
    let mut high: u64 = 65537;
    while high - low > 1
        invariant
            0 <= low < high <= 65537,
            low * low <= x,
            x < high * high,
        decreases high - low,
    {
        let mid: u64 = low + (high - low) / 2;
        assert(mid * mid <= 65537 * 65537) by (nonlinear_arith)
            requires
                0 <= mid <= 65537,
        ;
        if mid * mid <= x {
            low = mid;
        } else {
            high = mid;
        }
    }
    proof {
        assert(is_root(x as int, low as int));
        lemma_root_unique(x as int, low as int);
        assert(low <= 65536) by (nonlinear_arith)
            requires
                low * low <= x,
                x <= 0x1_0000_0000,
                0 <= low,
        ;
    }
    low as u32
}

/// The start of the curve that goes back by `c`.
fn back_start(t: u32, c: u32) -> (r: u32)
    requires
        t <= ALPHA_ONE,
        c <= 0x10_0000,
    ensures
        r == back_in(t as int, c as int),
{
    proof {
        lemma_back_bounds(t as int, c as int);
        lemma_frac_mul_bounds(t as int, t as int);
        assert(0 <= (c + 65536) * t / 65536 <= c + 65536 && (c + 65536) * t <= 0x11_0000 * 65536)
            by (nonlinear_arith)
            requires
                0 <= t <= 65536,
                0 <= c <= 0x10_0000,
        ;
    }
    let forth: u64 = ((c as u64 + ALPHA_ONE as u64) * (t as u64)) / (ALPHA_ONE as u64);
    if forth <= c as u64 {
        0
    } else {
        let rise: u64 = forth - c as u64;
        let square: u64 = mul_fraction(t, t) as u64;
        proof {
            lemma_frac_mul_bounds(square as int, rise as int);
            assert(square * rise <= 65536 * 65536) by (nonlinear_arith)
                requires
                    0 <= square <= 65536,
                    0 <= rise <= 65536,
            ;
        }
        ((square * rise) / (ALPHA_ONE as u64)) as u32
    }
}

/// The end of the fall with bounces.
fn bounce_end(t: u32) -> (r: u32)
    requires
        t <= ALPHA_ONE,
    ensures
        r == bounce_out(t as int),
        r <= ALPHA_ONE,
{
    proof {
        lemma_bounce_bounds(t as int);
    }
    let one: i64 = ALPHA_ONE as i64;
    let t: i64 = t as i64;
    let (s, scale, base): (i64, i64, i64) = if 11 * t < 4 * one {
        (11 * t, 16, 0)
    } else if 11 * t < 8 * one {
        (11 * t - 6 * one, 16, 3 * one / 4)
    } else if 11 * t < 10 * one {
        (11 * t - 9 * one, 16, 15 * one / 16)
    } else {
        (22 * t - 21 * one, 64, 63 * one / 64)
    };
    assert(0 <= s * s <= 262144 * 262144) by (nonlinear_arith)
        requires
            -262144 <= s <= 262144,
    ;
    ((s * s) / (scale * one) + base) as u32
}

/// The slow start of the family at progress `t`.
fn start_of(family: Family, t: u32, both: bool) -> (r: u32)
    requires
        t <= ALPHA_ONE,
        family matches Family::Power(n) ==> 1 <= n,
    ensures
        r == family.start(t as int, both),
        r <= ALPHA_ONE,
{
    proof {
        family.lemma_start_range(t as int, both);
    }
    match family {
        Family::Power(n) => pow_fraction(t, n),
        Family::Circ => {
            assert(0 <= 65536 * 65536 - t * t <= 65536 * 65536) by (nonlinear_arith)
                requires
                    0 <= t <= 65536,
            ;
            let square: u64 = (t as u64) * (t as u64);
            ALPHA_ONE - root_of((ALPHA_ONE as u64) * (ALPHA_ONE as u64) - square)
        },
        Family::Back => back_start(
            t,
            if both {
                BACK_OVERSHOOT_BOTH
            } else {
                BACK_OVERSHOOT
            },
        ),
        Family::Bounce => ALPHA_ONE - bounce_end(ALPHA_ONE - t),
    }
}

/// An alpha as the effects use it: an alpha past one counts as one.
pub open spec fn clamped_alpha(alpha: u32) -> u32 {
    if alpha > ALPHA_ONE {
        ALPHA_ONE
    } else {
        alpha
    }
}

/// Cuts an alpha off at one.
pub fn clamp_alpha(alpha: u32) -> (a: u32)
    ensures
        a == clamped_alpha(alpha),
        a <= ALPHA_ONE,
{
    if alpha > ALPHA_ONE {
        ALPHA_ONE
    } else {
        alpha
    }
}

} // verus!
