//! Two-dimensional vectors over fixed-point components.

use crate::fixed::{
    abs_int, div_away_fixed, fx_div_away, fx_mul, is_sqrt_floor, isqrt, isqrt_ceil,
    lemma_adiv_sign, lemma_sqrt_ceil, lemma_sqrt_floor, lemma_sqrt_floor_is,
    lemma_sqrt_floor_monotone, lemma_sqrt_floor_zero, lemma_square_monotone, lemma_tdiv,
    lemma_tdiv_cancels, mul_div, mul_div_wide, mul_fixed, sat, saturate, sqrt_ceil, sqrt_floor,
    tdiv, trunc_div, SCALE,
};
use crate::random::{advance, output, Rng};
use vstd::prelude::*;

verus! {

/// How often `random_in_radius` draws a point of the enclosing square before
/// it settles for the centre.
pub const DISK_TRIES: u32 = 64;

/// A vector of the plane; each component counts thousandths of a unit.
/// A vector whose components are both under this bound in magnitude is
/// stretched by this factor before its direction is taken, so that the
/// direction of a short vector is as fine as that of a long one.
pub const STRETCH: i64 = 0x8000_0000;

#[derive(Clone, Copy, Debug, PartialEq, Eq, Structural)]
pub struct Vector2 {
    pub x: i64,
    pub y: i64,
}

/// A length or radius as the vectors take it: a negative one counts as zero.
pub open spec fn at_least_zero(r: int) -> int {
    if r < 0 {
        0
    } else {
        r
    }
}

/// One coordinate of a point of the square of half-width `radius`, taken
/// from one output of the random source.
pub open spec fn square_coordinate(out: u64, radius: int) -> int
    recommends
        0 <= radius <= i64::MAX,
{
    (out as int) % (2 * radius + 1) - radius
}

/// The first of up to `tries` points of the square, drawn from `state`
/// onwards, that lies in the disk of radius `radius`, with the state that the
/// drawing leaves; the centre if none of them does.
pub open spec fn disk_sample(state: u64, radius: int, tries: nat) -> (Vector2, u64)
    recommends
        0 <= radius <= i64::MAX,
    decreases tries,
{
    if tries == 0 {
        (Vector2 { x: 0, y: 0 }, state)
    } else {
        let s1 = advance(state);
        let s2 = advance(s1);
        let x = square_coordinate(output(s1), radius);
        let y = square_coordinate(output(s2), radius);
        if x * x + y * y <= radius * radius {
            (Vector2 { x: x as i64, y: y as i64 }, s2)
        } else {
            disk_sample(s2, radius, (tries - 1) as nat)
        }
    }
}

impl Default for Vector2 {
    /// The zero vector.
    fn default() -> (r: Self)
        ensures
            r == Vector2::spec_zero(),
    {
        Vector2 { x: 0, y: 0 }
    }
}

impl core::ops::Add for Vector2 {
    type Output = Vector2;

    /// `a + b` is the sum.
    fn add(self, rhs: Vector2) -> (r: Vector2) {
        Vector2::add(self, rhs)
    }
}

impl vstd::std_specs::ops::AddSpecImpl for Vector2 {
    open spec fn obeys_add_spec() -> bool {
        true
    }

    open spec fn add_req(self, rhs: Vector2) -> bool {
        true
    }

    open spec fn add_spec(self, rhs: Vector2) -> Vector2 {
        self.spec_add(rhs)
    }
}

impl core::ops::Sub for Vector2 {
    type Output = Vector2;

    /// `a - b` is the difference.
    fn sub(self, rhs: Vector2) -> (r: Vector2) {
        Vector2::sub(self, rhs)
    }
}

impl vstd::std_specs::ops::SubSpecImpl for Vector2 {
    open spec fn obeys_sub_spec() -> bool {
        true
    }

    open spec fn sub_req(self, rhs: Vector2) -> bool {
        true
    }

    open spec fn sub_spec(self, rhs: Vector2) -> Vector2 {
        self.spec_sub(rhs)
    }
}

impl core::ops::Neg for Vector2 {
    type Output = Vector2;

    /// `-a` is the opposite vector.
    fn neg(self) -> (r: Vector2) {
        Vector2::neg(self)
    }
}

impl vstd::std_specs::ops::NegSpecImpl for Vector2 {
    open spec fn obeys_neg_spec() -> bool {
        true
    }

    open spec fn neg_req(self) -> bool {
        true
    }

    open spec fn neg_spec(self) -> Vector2 {
        self.spec_neg()
    }
}

impl core::ops::Mul<i64> for Vector2 {
    type Output = Vector2;

    /// `a * s` is the vector scaled by the fixed-point number `s`.
    fn mul(self, rhs: i64) -> (r: Vector2) {
        self.scale(rhs)
    }
}

impl vstd::std_specs::ops::MulSpecImpl<i64> for Vector2 {
    open spec fn obeys_mul_spec() -> bool {
        true
    }

    open spec fn mul_req(self, rhs: i64) -> bool {
        true
    }

    open spec fn mul_spec(self, rhs: i64) -> Vector2 {
        self.spec_scale(rhs as int)
    }
}

impl core::ops::Mul for Vector2 {
    type Output = i64;

    /// `a * b` is the dot product.
    fn mul(self, rhs: Vector2) -> (r: i64) {
        self.dot(rhs)
    }
}

impl vstd::std_specs::ops::MulSpecImpl for Vector2 {
    open spec fn obeys_mul_spec() -> bool {
        true
    }

    open spec fn mul_req(self, rhs: Vector2) -> bool {
        true
    }

    open spec fn mul_spec(self, rhs: Vector2) -> i64 {
        self.spec_dot(rhs) as i64
    }
}

impl core::ops::Rem<i64> for Vector2 {
    type Output = Vector2;

    /// `a % limit` is the vector with its length clamped to `limit`.
    fn rem(self, rhs: i64) -> (r: Vector2) {
        Vector2::rem(self, rhs)
    }
}

impl vstd::std_specs::ops::RemSpecImpl<i64> for Vector2 {
    open spec fn obeys_rem_spec() -> bool {
        true
    }

    open spec fn rem_req(self, rhs: i64) -> bool {
        true
    }

    open spec fn rem_spec(self, rhs: i64) -> Vector2 {
        self.spec_rem(rhs as int)
    }
}

impl Vector2 {
    /// The zero vector.
    pub open spec fn spec_zero() -> Vector2 {
        Vector2 { x: 0, y: 0 }
    }

    /// The squared length, in squared fixed-point steps and without rounding.
    pub open spec fn norm_sq(self) -> nat {
        (self.x * self.x + self.y * self.y) as nat
    }

    /// The length in fixed-point steps, rounded down and not yet saturated.
    pub open spec fn len_floor(self) -> nat {
        sqrt_floor(self.norm_sq())
    }

    /// The sum, each component saturating.
    pub open spec fn spec_add(self, rhs: Vector2) -> Vector2 {
        Vector2 { x: sat(self.x + rhs.x) as i64, y: sat(self.y + rhs.y) as i64 }
    }

    /// The difference, each component saturating.
    pub open spec fn spec_sub(self, rhs: Vector2) -> Vector2 {
        Vector2 { x: sat(self.x - rhs.x) as i64, y: sat(self.y - rhs.y) as i64 }
    }

    /// The opposite vector, each component saturating.
    pub open spec fn spec_neg(self) -> Vector2 {
        Vector2 { x: sat(-self.x) as i64, y: sat(-self.y) as i64 }
    }

    /// The vector with both components multiplied by the fixed-point number
    /// `factor`.
    pub open spec fn spec_scale(self, factor: int) -> Vector2 {
        Vector2 { x: fx_mul(self.x as int, factor) as i64, y: fx_mul(self.y as int, factor) as i64 }
    }

    /// The vector with both components divided by the fixed-point number
    /// `divisor` and rounded away from zero, so that a component is zero
    /// only where it was; zero where `divisor` is zero.
    pub open spec fn spec_div(self, divisor: int) -> Vector2 {
        Vector2 {
            x: fx_div_away(self.x as int, divisor) as i64,
            y: fx_div_away(self.y as int, divisor) as i64,
        }
    }

    /// The dot product as a fixed-point number, rounded once and saturating.
    pub open spec fn spec_dot(self, other: Vector2) -> int {
        sat(tdiv(self.x * other.x + self.y * other.y, SCALE as int))
    }

    /// The squared length as a fixed-point number, saturating.
    pub open spec fn spec_length_sqr(self) -> int {
        sat(tdiv(self.norm_sq() as int, SCALE as int))
    }

    /// The squared length as a fixed-point number, rounded up and
    /// saturating: zero for the zero vector only.
    pub open spec fn spec_length_sqr_up(self) -> int {
        sat((self.norm_sq() + (SCALE - 1)) / (SCALE as int))
    }

    /// The length as a fixed-point number, rounded down and saturating.
    pub open spec fn spec_length(self) -> int {
        sat(self.len_floor() as int)
    }

    /// No component reaches the stretch bound.
    pub open spec fn is_short(self) -> bool {
        -STRETCH < self.x < STRETCH && -STRETCH < self.y < STRETCH
    }

    /// A vector of the same direction that is long enough for its length to
    /// be taken finely: a short vector times the stretch factor, any other
    /// vector itself.
    pub open spec fn stretched(self) -> Vector2 {
        if self.is_short() {
            Vector2 { x: (self.x * STRETCH) as i64, y: (self.y * STRETCH) as i64 }
        } else {
            self
        }
    }

    /// The length of the stretched vector, rounded up.
    pub open spec fn len_fine(self) -> nat {
        sqrt_ceil(self.stretched().norm_sq())
    }

    /// The vector of the same direction whose length is `target`; the zero
    /// vector has no direction and stays zero. The stretched vector is
    /// divided by its length rounded up, and each component is rounded
    /// toward zero: the outcome is never longer than `target`.
    pub open spec fn spec_mag(self, target: int) -> Vector2 {
        let long = self.stretched();
        let len = self.len_fine() as int;
        if len == 0 {
            Vector2::spec_zero()
        } else {
            Vector2 {
                x: mul_div(long.x as int, target, len) as i64,
                y: mul_div(long.y as int, target, len) as i64,
            }
        }
    }

    /// The unit vector of the same direction; zero for the zero vector.
    pub open spec fn spec_norm(self) -> Vector2 {
        self.spec_mag(SCALE as int)
    }

    /// The vector itself where it is no longer than `limit`, and else the
    /// vector cut down to that length; a negative limit counts as zero.
    pub open spec fn spec_rem(self, limit: int) -> Vector2 {
        let bound = at_least_zero(limit);
        if self.norm_sq() <= bound * bound {
            self
        } else {
            self.spec_mag(bound)
        }
    }

    /// The vector of the components `x` and `y`, in thousandths.
    pub fn new(x: i64, y: i64) -> (r: Self)
        ensures
            r == (Vector2 { x, y }),
    {
        Self { x, y }
    }

    /// A copy of `vec`.
    pub fn from(vec: &Vector2) -> (r: Self)
        ensures
            r == *vec,
    {
        Vector2::new(vec.x, vec.y)
    }

    /// Both components, `x` first.
    pub fn get_components(&self) -> (r: (i64, i64))
        ensures
            r == (self.x, self.y),
    {
        (self.x, self.y)
    }

    /// The squared length without rounding.
    pub fn length_sqr_wide(&self) -> (r: u128)
        ensures
            r == self.norm_sq(),
            r <= 0x8000_0000_0000_0000_0000_0000_0000_0000u128,
    {
        let ax: u128 = if self.x < 0 { (-(self.x as i128)) as u128 } else { self.x as u128 };
        let ay: u128 = if self.y < 0 { (-(self.y as i128)) as u128 } else { self.y as u128 };
        assert(ax * ax <= 0x4000_0000_0000_0000_0000_0000_0000_0000u128 && ax * ax == self.x
            * self.x) by (nonlinear_arith)
            requires
                ax <= 0x8000_0000_0000_0000u128,
                ax == self.x || ax == -self.x,
        ;
        assert(ay * ay <= 0x4000_0000_0000_0000_0000_0000_0000_0000u128 && ay * ay == self.y
            * self.y) by (nonlinear_arith)
            requires
                ay <= 0x8000_0000_0000_0000u128,
                ay == self.y || ay == -self.y,
        ;
        ax * ax + ay * ay
    }

    /// The length, rounded down and not saturated.
    pub fn length_wide(&self) -> (r: u64)
        ensures
            r == self.len_floor(),
            is_sqrt_floor(self.norm_sq(), r as nat),
    {
        isqrt(self.length_sqr_wide())
    }

    /// The squared length.
    pub fn length_sqr(&self) -> (r: i64)
        ensures
            r == self.spec_length_sqr(),
            r >= 0,
    {
        let wide: u128 = self.length_sqr_wide();
        let q: u128 = wide / 1000;
        if q > 9223372036854775807u128 {
            i64::MAX
        } else {
            q as i64
        }
    }

    /// The squared length, rounded up.
    pub fn length_sqr_up(&self) -> (r: i64)
        ensures
            r == self.spec_length_sqr_up(),
            r >= 0,
            r == 0 <==> self.norm_sq() == 0,
    {
        let wide: u128 = self.length_sqr_wide();
        let q: u128 = (wide + 999) / 1000;
        if q > 9223372036854775807u128 {
            i64::MAX
        } else {
            q as i64
        }
    }

    /// The length, rounded down.
    pub fn length(&self) -> (r: i64)
        ensures
            r == self.spec_length(),
            r >= 0,
    {
        let len: u64 = self.length_wide();
        if len > 9223372036854775807u64 {
            i64::MAX
        } else {
            len as i64
        }
    }

    /// The dot product with `other`.
    pub fn dot(&self, other: Vector2) -> (r: i64)
        ensures
            r == self.spec_dot(other),
    {
        assert(-0x4000_0000_0000_0000_0000_0000_0000_0000 < self.x * other.x
            <= 0x4000_0000_0000_0000_0000_0000_0000_0000) by (nonlinear_arith)
            requires
                -0x8000_0000_0000_0000 <= self.x <= 0x7fff_ffff_ffff_ffff,
                -0x8000_0000_0000_0000 <= other.x <= 0x7fff_ffff_ffff_ffff,
        ;
        assert(-0x4000_0000_0000_0000_0000_0000_0000_0000 < self.y * other.y
            <= 0x4000_0000_0000_0000_0000_0000_0000_0000) by (nonlinear_arith)
            requires
                -0x8000_0000_0000_0000 <= self.y <= 0x7fff_ffff_ffff_ffff,
                -0x8000_0000_0000_0000 <= other.y <= 0x7fff_ffff_ffff_ffff,
        ;
        let p: i128 = (self.x as i128) * (other.x as i128);
        let q: i128 = (self.y as i128) * (other.y as i128);
        if p == 0x4000_0000_0000_0000_0000_0000_0000_0000i128 && q
            == 0x4000_0000_0000_0000_0000_0000_0000_0000i128 {
            return i64::MAX;
        }
        saturate(trunc_div(p + q, 1000))
    }

    /// The sum with `rhs`.
    pub fn add(self, rhs: Vector2) -> (r: Vector2)
        ensures
            r == self.spec_add(rhs),
    {
        Vector2::new(
            saturate(self.x as i128 + rhs.x as i128),
            saturate(self.y as i128 + rhs.y as i128),
        )
    }

    /// The difference to `rhs`.
    pub fn sub(self, rhs: Vector2) -> (r: Vector2)
        ensures
            r == self.spec_sub(rhs),
    {
        Vector2::new(
            saturate(self.x as i128 - rhs.x as i128),
            saturate(self.y as i128 - rhs.y as i128),
        )
    }

    /// The opposite vector.
    pub fn neg(self) -> (r: Vector2)
        ensures
            r == self.spec_neg(),
    {
        Vector2::new(saturate(-(self.x as i128)), saturate(-(self.y as i128)))
    }

    /// Multiplies both components by the fixed-point number `factor`.
    pub fn scale(self, factor: i64) -> (r: Vector2)
        ensures
            r == self.spec_scale(factor as int),
    {
        Vector2::new(mul_fixed(self.x, factor), mul_fixed(self.y, factor))
    }

    /// Divides both components by the fixed-point number `divisor`, rounding
    /// away from zero.
    pub fn div(self, divisor: i64) -> (r: Vector2)
        ensures
            r == self.spec_div(divisor as int),
    {
        Vector2::new(div_away_fixed(self.x, divisor), div_away_fixed(self.y, divisor))
    }

    /// The vector stretched for its direction to be taken: see `stretched`.
    pub fn stretch(self) -> (r: Vector2)
        ensures
            r == self.stretched(),
    {
        if -STRETCH < self.x && self.x < STRETCH && -STRETCH < self.y && self.y < STRETCH {
            Vector2::new(self.x * STRETCH, self.y * STRETCH)
        } else {
            self
        }
    }

    /// Scales the vector to the length `target`.
    pub fn mag(self, target: i64) -> (r: Vector2)
        ensures
            r == self.spec_mag(target as int),
    {
        let long = self.stretch();
        let len: u128 = isqrt_ceil(long.length_sqr_wide());
        if len == 0 {
            return Vector2::default();
        }
        Vector2::new(
            mul_div_wide(long.x, target, len as i128),
            mul_div_wide(long.y, target, len as i128),
        )
    }

    /// Normalizes the vector; the zero vector is returned as it is.
    pub fn norm(self) -> (r: Vector2)
        ensures
            r == self.spec_norm(),
    {
        self.mag(SCALE)
    }

    /// Clamps the length of the vector to `limit`.
    pub fn rem(self, limit: i64) -> (r: Vector2)
        ensures
            r == self.spec_rem(limit as int),
    {
        let bound: u128 = if limit < 0 { 0 } else { limit as u128 };
        assert(bound * bound <= 0x4000_0000_0000_0000_0000_0000_0000_0000u128)
            by (nonlinear_arith)
            requires
                bound <= 0x8000_0000_0000_0000u128,
        ;
        if self.length_sqr_wide() <= bound * bound {
            return self;
        }
        self.mag(if limit < 0 { 0 } else { limit })
    }

    /// A point of the disk of radius `r` round the origin, spread over the
    /// disk's area evenly, but not exactly so. Points of the enclosing
    /// square are drawn until one lies in the disk. Each coordinate is the
    /// remainder of a 48-bit output of the random source by the width of
    /// the square, so that some coordinates come a little more often than
    /// others, by less than the width over 2^48 of their share. And where
    /// `DISK_TRIES` points in a row lie outside the disk, for which the
    /// chance is under one in 10^20, the centre is returned, which is then
    /// that much more likely than any other point. A negative radius counts
    /// as zero.
    pub fn random_in_radius(r: i64, rng: &mut Rng) -> (v: Vector2)
        ensures
            v == disk_sample(old(rng).state, at_least_zero(r as int), DISK_TRIES as nat).0,
            final(rng).state == disk_sample(
                old(rng).state,
                at_least_zero(r as int),
                DISK_TRIES as nat,
            ).1,
            v.norm_sq() <= at_least_zero(r as int) * at_least_zero(r as int),
            v.len_floor() <= at_least_zero(r as int),
    {
        let radius: i64 = if r < 0 { 0 } else { r };
        let span: u64 = 2 * (radius as u64) + 1;
        let wide_radius: u128 = radius as u128;
        assert(wide_radius * wide_radius <= 0x4000_0000_0000_0000_0000_0000_0000_0000u128)
            by (nonlinear_arith)
            requires
                wide_radius <= 0x8000_0000_0000_0000u128,
        ;
        let limit: u128 = wide_radius * wide_radius;
        let mut left: u32 = DISK_TRIES;
        while left > 0
            invariant
                radius == at_least_zero(r as int),
                span == 2 * radius + 1,
                limit == radius * radius,
                disk_sample(rng.state, radius as int, left as nat) == disk_sample(
                    old(rng).state,
                    radius as int,
                    DISK_TRIES as nat,
                ),
            decreases left,
        {
            let ghost before = rng.state;
            let a: u64 = rng.next() % span;
            let b: u64 = rng.next() % span;
            let x: i64 = (a as i128 - radius as i128) as i64;
            let y: i64 = (b as i128 - radius as i128) as i64;
            let point = Vector2::new(x, y);
            proof {
                let s1 = advance(before);
                let s2 = advance(s1);
                assert(rng.state == s2);
                assert(x == square_coordinate(output(s1), radius as int));
                assert(y == square_coordinate(output(s2), radius as int));
                assert(x * x + y * y >= 0) by (nonlinear_arith);
                assert(point.norm_sq() == x * x + y * y);
                assert(disk_sample(before, radius as int, left as nat) == if x * x + y * y
                    <= radius * radius {
                    (point, s2)
                } else {
                    disk_sample(s2, radius as int, (left - 1) as nat)
                });
            }
            if point.length_sqr_wide() <= limit {
                proof {
                    lemma_length_within(point, radius as nat);
                }
                return point;
            }
            left = left - 1;
        }
        proof {
            lemma_zero_length();
        }
        Vector2::default()
    }
}

/// The zero vector has length zero.
pub proof fn lemma_zero_length()
    ensures
        Vector2::spec_zero().norm_sq() == 0,
        Vector2::spec_zero().len_floor() == 0,
{
    lemma_sqrt_floor_zero();
}

/// A vector whose squared length is at most `r * r` is at most `r` long.
pub proof fn lemma_length_within(v: Vector2, r: nat)
    requires
        v.norm_sq() <= r * r,
    ensures
        v.len_floor() <= r,
{
    lemma_sqrt_floor(v.norm_sq());
    assert(is_sqrt_floor(r * r, r)) by (nonlinear_arith);
    lemma_sqrt_floor_monotone(v.norm_sq(), v.len_floor(), r * r, r);
}

/// Neither component of a vector is longer than the vector.
pub proof fn lemma_component_within_length(v: Vector2)
    ensures
        abs_int(v.x as int) <= v.len_floor(),
        abs_int(v.y as int) <= v.len_floor(),
{
    let l = v.len_floor();
    let ax = abs_int(v.x as int);
    let ay = abs_int(v.y as int);
    lemma_sqrt_floor(v.norm_sq());
    assert(ax * ax == v.x * v.x && ay * ay == v.y * v.y && ax * ax >= 0 && ay * ay >= 0)
        by (nonlinear_arith)
        requires
            ax == v.x || ax == -v.x,
            ay == v.y || ay == -v.y,
    ;
    if ax > l {
        lemma_square_monotone(l + 1, ax as nat);
    }
    if ay > l {
        lemma_square_monotone(l + 1, ay as nat);
    }
}

/// Where `a * s <= c * t` and `b * s <= d * t` among numbers that are not
/// negative, the sums of squares are related in the same way.
pub proof fn lemma_sum_of_squares_scaled(a: int, b: int, s: int, c: int, d: int, t: int)
    requires
        0 <= a,
        0 <= b,
        0 <= s,
        0 <= c,
        0 <= d,
        0 <= t,
        a * s <= c * t,
        b * s <= d * t,
    ensures
        (a * a + b * b) * (s * s) <= (c * c + d * d) * (t * t),
{
    let p = a * s;
    let q = c * t;
    let u = b * s;
    let w = d * t;
    assert(p >= 0 && q >= 0 && u >= 0 && w >= 0) by (nonlinear_arith)
        requires
            p == a * s,
            q == c * t,
            u == b * s,
            w == d * t,
            0 <= a,
            0 <= b,
            0 <= s,
            0 <= c,
            0 <= d,
            0 <= t,
    ;
    lemma_square_monotone(p as nat, q as nat);
    lemma_square_monotone(u as nat, w as nat);
    assert(p * p == (a * a) * (s * s)) by (nonlinear_arith)
        requires
            p == a * s,
    ;
    assert(q * q == (c * c) * (t * t)) by (nonlinear_arith)
        requires
            q == c * t,
    ;
    assert(u * u == (b * b) * (s * s)) by (nonlinear_arith)
        requires
            u == b * s,
    ;
    assert(w * w == (d * d) * (t * t)) by (nonlinear_arith)
        requires
            w == d * t,
    ;
    assert((a * a + b * b) * (s * s) == (a * a) * (s * s) + (b * b) * (s * s))
        by (nonlinear_arith);
    assert((c * c + d * d) * (t * t) == (c * c) * (t * t) + (d * d) * (t * t))
        by (nonlinear_arith);
}

/// One component `c` of a vector of length `len`, scaled by `target / len`:
/// nothing saturates, and the outcome times `len` does not exceed `c` times
/// `target` in magnitude, and falls short of it by less than `len`.
pub proof fn lemma_scaled_component(c: int, target: int, len: int)
    requires
        i64::MIN <= c <= i64::MAX,
        abs_int(c) <= len,
        0 <= target <= i64::MAX,
        len > 0,
    ensures
        mul_div(c, target, len) == tdiv(c * target, len),
        abs_int(mul_div(c, target, len)) * len <= abs_int(c) * target,
        abs_int(c) * target < (abs_int(mul_div(c, target, len)) + 1) * len,
        abs_int(mul_div(c, target, len)) <= target,
        c >= 0 ==> mul_div(c, target, len) >= 0,
        c <= 0 ==> mul_div(c, target, len) <= 0,
{
    let q = tdiv(c * target, len);
    let m = abs_int(c);
    lemma_tdiv(c * target, len);
    assert(abs_int(c * target) == m * target && (c >= 0 ==> c * target >= 0) && (c <= 0 ==> c
        * target <= 0)) by (nonlinear_arith)
        requires
            m == abs_int(c),
            target >= 0,
    ;
    assert(abs_int(q) <= target) by (nonlinear_arith)
        requires
            abs_int(q) * len <= m * target,
            m <= len,
            len > 0,
            target >= 0,
            abs_int(q) >= 0,
    ;
}

/// The stretched vector of a vector that is not zero has a component of at
/// least the stretch bound, and so has its length.
pub proof fn lemma_stretched_is_long(v: Vector2)
    requires
        v != Vector2::spec_zero(),
    ensures
        v.len_fine() >= STRETCH,
        (v.len_fine() - 1) * (v.len_fine() - 1) < v.stretched().norm_sq(),
        v.stretched().norm_sq() <= v.len_fine() * v.len_fine(),
        abs_int(v.stretched().x as int) <= v.len_fine(),
        abs_int(v.stretched().y as int) <= v.len_fine(),
        v.x > 0 <==> v.stretched().x > 0,
        v.x < 0 <==> v.stretched().x < 0,
        v.y > 0 <==> v.stretched().y > 0,
        v.y < 0 <==> v.stretched().y < 0,
{
    let w = v.stretched();
    let n = w.norm_sq();
    let ax = abs_int(w.x as int);
    let ay = abs_int(w.y as int);
    lemma_sqrt_ceil(n);
    lemma_component_within_length(w);
    assert(ax >= STRETCH || ay >= STRETCH);
    assert(v.len_fine() >= STRETCH);
    assert(ax * ax == w.x * w.x && ay * ay == w.y * w.y && ax * ax >= 0 && ay * ay >= 0)
        by (nonlinear_arith)
        requires
            ax == w.x || ax == -w.x,
            ay == w.y || ay == -w.y,
    ;
    assert(n > 0) by (nonlinear_arith)
        requires
            n == ax * ax + ay * ay,
            ax >= 1 || ay >= 1,
            ax >= 0,
            ay >= 0,
    ;
}

/// A vector that is not zero, scaled to the length `target`, is never
/// longer than `target`, and shorter by rounding only: by no more than
/// four steps and one part in 2^30 of `target`.
pub proof fn lemma_mag_length(v: Vector2, target: i64)
    requires
        v != Vector2::spec_zero(),
        0 <= target,
    ensures
        v.spec_mag(target as int).norm_sq() <= target * target,
        v.spec_mag(target as int).len_floor() <= target,
        (v.spec_mag(target as int).norm_sq() + 4 * target + 2) * 0x4000_0000 >= (target * target)
            * 0x3fff_ffff,
        9 <= target <= STRETCH ==> v.spec_mag(target as int).len_floor() + 4 >= target,
{
    let w = v.stretched();
    let n = w.norm_sq() as int;
    let l = v.len_fine() as int;
    let t = target as int;
    let r = v.spec_mag(t);
    lemma_stretched_is_long(v);
    lemma_scaled_component(w.x as int, t, l);
    lemma_scaled_component(w.y as int, t, l);
    let ax = abs_int(w.x as int);
    let ay = abs_int(w.y as int);
    let qx = abs_int(r.x as int);
    let qy = abs_int(r.y as int);
    let big = qx * qx + qy * qy;
    assert(big == r.x * r.x + r.y * r.y && big >= 0) by (nonlinear_arith)
        requires
            big == qx * qx + qy * qy,
            qx == r.x || qx == -r.x,
            qy == r.y || qy == -r.y,
    ;
    assert(ax * ax == w.x * w.x && ay * ay == w.y * w.y && ax * ax >= 0 && ay * ay >= 0)
        by (nonlinear_arith)
        requires
            ax == w.x || ax == -w.x,
            ay == w.y || ay == -w.y,
    ;
    assert(r.norm_sq() == big && n == ax * ax + ay * ay);
    let tt = t * t;
    let ll = l * l;
    assert(tt >= 0 && ll > 0) by (nonlinear_arith)
        requires
            tt == t * t,
            ll == l * l,
            l > 0,
    ;

    // never longer
    lemma_sum_of_squares_scaled(qx, qy, l, ax, ay, t);
    assert(big <= tt) by (nonlinear_arith)
        requires
            big * ll <= n * tt,
            n <= ll,
            ll > 0,
            tt >= 0,
    ;
    lemma_length_within(r, t as nat);

    // shorter by rounding only
    let top = (qx + 1) * (qx + 1) + (qy + 1) * (qy + 1);
    lemma_sum_of_squares_scaled(ax, ay, t, qx + 1, qy + 1, l);
    assert(top == big + 2 * qx + 2 * qy + 2) by (nonlinear_arith)
        requires
            top == (qx + 1) * (qx + 1) + (qy + 1) * (qy + 1),
            big == qx * qx + qy * qy,
    ;
    let k: int = 0x4000_0000;
    let under = (l - 1) * (l - 1) + 1;
    assert(under * k >= ll * (k - 1)) by (nonlinear_arith)
        requires
            under == (l - 1) * (l - 1) + 1,
            ll == l * l,
            l >= 2 * k,
            k > 0,
    ;
    assert(n * tt >= under * tt) by (nonlinear_arith)
        requires
            n >= under,
            tt >= 0,
    ;
    assert((top * k) * ll >= ((k - 1) * tt) * ll) by (nonlinear_arith)
        requires
            top * ll >= n * tt,
            n * tt >= under * tt,
            under * k >= ll * (k - 1),
            tt >= 0,
            k > 0,
    ;
    assert(top * k >= (k - 1) * tt) by (nonlinear_arith)
        requires
            (top * k) * ll >= ((k - 1) * tt) * ll,
            ll > 0,
    ;
    assert((big + 4 * t + 2) * k >= tt * (k - 1)) by (nonlinear_arith)
        requires
            top * k >= (k - 1) * tt,
            top <= big + 4 * t + 2,
            k > 0,
    ;
    if 9 <= t && t <= 2 * k {
        lemma_sqrt_floor(r.norm_sq());
        let rl = r.len_floor() as int;
        if rl + 4 < t {
            lemma_square_monotone((rl + 1) as nat, (t - 4) as nat);
            assert((t - 4) * (t - 4) == tt - 8 * t + 16) by (nonlinear_arith)
                requires
                    tt == t * t,
            ;
            assert(tt <= 2 * k * t) by (nonlinear_arith)
                requires
                    tt == t * t,
                    0 <= t <= 2 * k,
            ;
            assert(false) by (nonlinear_arith)
                requires
                    (big + 4 * t + 2) * k >= tt * (k - 1),
                    big < tt - 8 * t + 16,
                    tt <= 2 * k * t,
                    t >= 9,
                    k == 0x4000_0000,
            ;
        }
    }
}

/// The unit vector of a vector that is not zero is one unit long up to
/// rounding: never over one unit, and never under 0.997 units.
pub proof fn lemma_norm_has_unit_length(v: Vector2)
    requires
        v.len_floor() > 0,
    ensures
        997 <= v.spec_norm().len_floor() <= SCALE,
{
    lemma_zero_length();
    lemma_mag_length(v, SCALE);
    let u = v.spec_norm();
    lemma_sqrt_floor(u.norm_sq());
    if u.len_floor() < 997 {
        lemma_square_monotone(u.len_floor() + 1, 997);
    }
}

/// A vector along the first axis is as long as its first component.
pub proof fn lemma_length_along_axis(v: Vector2)
    requires
        v.x >= 0,
        v.y == 0,
    ensures
        v.norm_sq() == v.x * v.x,
        v.len_floor() == v.x,
{
    let a = v.x as nat;
    assert(v.norm_sq() == a * a) by (nonlinear_arith)
        requires
            v.norm_sq() == v.x * v.x + v.y * v.y,
            v.y == 0,
            a == v.x,
    ;
    assert(is_sqrt_floor(a * a, a)) by (nonlinear_arith);
    lemma_sqrt_floor_is(a * a, a);
}

/// A vector along the first axis, scaled to a length, is that length along
/// the axis, with nothing lost to rounding.
pub proof fn lemma_mag_along_axis(v: Vector2, target: i64)
    requires
        v.x > 0,
        v.y == 0,
        0 <= target,
    ensures
        v.spec_mag(target as int) == (Vector2 { x: target, y: 0 }),
{
    let w = v.stretched();
    let a = w.x as nat;
    assert(w.y == 0 && w.x > 0);
    assert(w.norm_sq() == a * a) by (nonlinear_arith)
        requires
            w.norm_sq() == w.x * w.x + w.y * w.y,
            w.y == 0,
            a == w.x,
    ;
    assert(is_sqrt_floor(a * a, a)) by (nonlinear_arith);
    lemma_sqrt_floor_is(a * a, a);
    lemma_tdiv_cancels(target as int, a as int);
    assert(w.x * target == target * a) by (nonlinear_arith)
        requires
            a == w.x,
    ;
    assert(w.y * target == 0) by (nonlinear_arith)
        requires
            w.y == 0,
    ;
    lemma_tdiv(0, a as int);
}

/// A vector along the first axis, clamped to a limit, is the shorter of the
/// vector and the limit along the axis.
pub proof fn lemma_rem_along_axis(v: Vector2, limit: i64)
    requires
        v.x > 0,
        v.y == 0,
    ensures
        v.spec_rem(limit as int) == (Vector2 {
            x: if v.x <= at_least_zero(limit as int) {
                v.x
            } else {
                at_least_zero(limit as int) as i64
            },
            y: 0,
        }),
{
    let b = at_least_zero(limit as int);
    let a = v.x as int;
    assert(v.norm_sq() == a * a) by (nonlinear_arith)
        requires
            v.norm_sq() == v.x * v.x + v.y * v.y,
            v.y == 0,
            a == v.x,
    ;
    assert(a <= b <==> a * a <= b * b) by (nonlinear_arith)
        requires
            a > 0,
            b >= 0,
    ;
    if a > b {
        lemma_mag_along_axis(v, b as i64);
    }
}

/// Dividing a vector by a positive number keeps each component on its side
/// of zero: none is lost to rounding.
pub proof fn lemma_div_keeps_direction(v: Vector2, divisor: i64)
    requires
        divisor > 0,
    ensures
        v.x > 0 <==> v.spec_div(divisor as int).x > 0,
        v.x < 0 <==> v.spec_div(divisor as int).x < 0,
        v.y > 0 <==> v.spec_div(divisor as int).y > 0,
        v.y < 0 <==> v.spec_div(divisor as int).y < 0,
{
    lemma_adiv_sign(v.x * SCALE, divisor as int);
    lemma_adiv_sign(v.y * SCALE, divisor as int);
}

/// `a` points nowhere against `b`: each component of `a` is zero or on the
/// side of zero on which that of `b` is.
pub open spec fn same_side(a: Vector2, b: Vector2) -> bool {
    &&& a.x > 0 ==> b.x > 0
    &&& a.x < 0 ==> b.x < 0
    &&& a.y > 0 ==> b.y > 0
    &&& a.y < 0 ==> b.y < 0
}

/// Scaling a vector to a length that is not negative turns no component of
/// it round.
pub proof fn lemma_mag_keeps_side(v: Vector2, target: i64)
    requires
        0 <= target,
    ensures
        same_side(v.spec_mag(target as int), v),
{
    if v != Vector2::spec_zero() {
        lemma_stretched_is_long(v);
        let w = v.stretched();
        lemma_scaled_component(w.x as int, target as int, v.len_fine() as int);
        lemma_scaled_component(w.y as int, target as int, v.len_fine() as int);
    } else {
        lemma_sqrt_floor_zero();
    }
}

/// Clamping the length of a vector turns no component of it round.
pub proof fn lemma_rem_keeps_side(v: Vector2, limit: i64)
    ensures
        same_side(v.spec_rem(limit as int), v),
{
    lemma_mag_keeps_side(v, if limit < 0 { 0 } else { limit });
}

/// A vector with larger components, each taken by its magnitude, is the
/// longer one.
pub proof fn lemma_longer_by_components(a: Vector2, b: Vector2)
    requires
        abs_int(a.x as int) <= abs_int(b.x as int),
        abs_int(a.y as int) <= abs_int(b.y as int),
    ensures
        a.norm_sq() <= b.norm_sq(),
        a.len_floor() <= b.len_floor(),
        a.spec_length() <= b.spec_length(),
{
    lemma_square_monotone(abs_int(a.x as int) as nat, abs_int(b.x as int) as nat);
    lemma_square_monotone(abs_int(a.y as int) as nat, abs_int(b.y as int) as nat);
    let ax = abs_int(a.x as int);
    let ay = abs_int(a.y as int);
    let bx = abs_int(b.x as int);
    let by = abs_int(b.y as int);
    assert(ax * ax == a.x * a.x && ay * ay == a.y * a.y && bx * bx == b.x * b.x && by * by == b.y
        * b.y && ax * ax >= 0 && ay * ay >= 0) by (nonlinear_arith)
        requires
            ax == a.x || ax == -a.x,
            ay == a.y || ay == -a.y,
            bx == b.x || bx == -b.x,
            by == b.y || by == -b.y,
    ;
    lemma_sqrt_floor(a.norm_sq());
    lemma_sqrt_floor(b.norm_sq());
    lemma_sqrt_floor_monotone(a.norm_sq(), a.len_floor(), b.norm_sq(), b.len_floor());
}

/// A vector whose length was clamped to `limit` is at most `limit` long, and
/// of length zero for a negative limit; one that had to be cut is `limit`
/// long up to rounding.
pub proof fn lemma_rem_bounds_length(v: Vector2, limit: i64)
    ensures
        v.spec_rem(limit as int).norm_sq() <= at_least_zero(limit as int) * at_least_zero(
            limit as int,
        ),
        v.spec_rem(limit as int).len_floor() <= at_least_zero(limit as int),
        v.len_floor() >= limit && 9 <= limit <= STRETCH ==> v.spec_rem(limit as int).len_floor()
            + 4 >= limit,
{
    let bound = at_least_zero(limit as int);
    let once = v.spec_rem(limit as int);
    lemma_zero_length();
    if v.norm_sq() <= bound * bound {
        lemma_length_within(v, bound as nat);
    } else {
        assert(bound * bound >= 0) by (nonlinear_arith);
        lemma_mag_length(v, bound as i64);
    }
}

/// Clamping the length of a vector twice to the same limit changes no more
/// than clamping it once.
pub proof fn lemma_rem_idempotent(v: Vector2, limit: i64)
    ensures
        v.spec_rem(limit as int).spec_rem(limit as int) == v.spec_rem(limit as int),
{
    lemma_rem_bounds_length(v, limit);
}

} // verus!
