//! Integer vectors in three dimensions and exact rotation by quarter turns.

use std::ops::{Add, AddAssign, Mul, MulAssign, Neg, Sub};
use vstd::prelude::*;
use vstd::std_specs::ops::{AddSpecImpl, MulSpecImpl, NegSpecImpl, SubSpecImpl};

verus! {

/// One of the three principal axes.
#[derive(Copy, Clone, Debug, PartialEq, Eq, Structural)]
pub enum Axis {
    X,
    Y,
    Z,
}

/// A vector of three 16-bit signed integers.
#[derive(Copy, Clone, Debug, PartialEq, Eq, Structural)]
pub struct Vec3 {
    pub x: i16,
    pub y: i16,
    pub z: i16,
}

/// The mathematical vector that a [`Vec3`] stands for: three unbounded integers.
pub struct IntVec3 {
    pub x: int,
    pub y: int,
    pub z: int,
}

/// Whether `n` can be held in an `i16`.
pub open spec fn fits_i16(n: int) -> bool {
    i16::MIN <= n <= i16::MAX
}

impl IntVec3 {
    /// Whether every component can be held in an `i16`.
    pub open spec fn fits(self) -> bool {
        fits_i16(self.x) && fits_i16(self.y) && fits_i16(self.z)
    }

    /// The vector of 16-bit integers with these components; meaningful where `self.fits()`.
    pub open spec fn to_vec3(self) -> Vec3 {
        Vec3 { x: self.x as i16, y: self.y as i16, z: self.z as i16 }
    }

    /// The component that lies along `axis`.
    pub open spec fn along(self, axis: Axis) -> int {
        match axis {
            Axis::X => self.x,
            Axis::Y => self.y,
            Axis::Z => self.z,
        }
    }

    pub open spec fn neg(self) -> IntVec3 {
        IntVec3 { x: -self.x, y: -self.y, z: -self.z }
    }

    pub open spec fn plus(self, rhs: IntVec3) -> IntVec3 {
        IntVec3 { x: self.x + rhs.x, y: self.y + rhs.y, z: self.z + rhs.z }
    }

    pub open spec fn minus(self, rhs: IntVec3) -> IntVec3 {
        IntVec3 { x: self.x - rhs.x, y: self.y - rhs.y, z: self.z - rhs.z }
    }

    /// The componentwise product.
    pub open spec fn times(self, rhs: IntVec3) -> IntVec3 {
        IntVec3 { x: self.x * rhs.x, y: self.y * rhs.y, z: self.z * rhs.z }
    }

    /// Every component multiplied by `k`.
    pub open spec fn scaled(self, k: int) -> IntVec3 {
        IntVec3 { x: self.x * k, y: self.y * k, z: self.z * k }
    }

    /// The sum of the componentwise products.
    pub open spec fn dot(self, rhs: IntVec3) -> int {
        self.x * rhs.x + self.y * rhs.y + self.z * rhs.z
    }

    pub open spec fn cross(self, rhs: IntVec3) -> IntVec3 {
        IntVec3 {
            x: self.y * rhs.z - self.z * rhs.y,
            y: self.z * rhs.x - self.x * rhs.z,
            z: self.x * rhs.y - self.y * rhs.x,
        }
    }

    pub open spec fn length_squared(self) -> int {
        self.dot(self)
    }

    /// The vector turned by one clockwise quarter turn about `axis`.
    pub open spec fn quarter_turn(self, axis: Axis) -> IntVec3 {
        match axis {
            Axis::X => IntVec3 { x: self.x, y: self.z, z: -self.y },
            Axis::Y => IntVec3 { x: -self.z, y: self.y, z: self.x },
            Axis::Z => IntVec3 { x: self.y, y: -self.x, z: self.z },
        }
    }

    /// The vector turned by `n_turns` clockwise quarter turns about `axis`; a negative count
    /// turns counter-clockwise.
    pub open spec fn rotate(self, axis: Axis, n_turns: int) -> IntVec3 {
        let k = n_turns % 4;
        if k == 0 {
            self
        } else if k == 1 {
            self.quarter_turn(axis)
        } else if k == 2 {
            self.quarter_turn(axis).quarter_turn(axis)
        } else {
            self.quarter_turn(axis).quarter_turn(axis).quarter_turn(axis)
        }
    }
}

impl View for Vec3 {
    type V = IntVec3;

    open spec fn view(&self) -> IntVec3 {
        IntVec3 { x: self.x as int, y: self.y as int, z: self.z as int }
    }
}

/// The product of two 16-bit integers has at most 31 significant bits.
pub proof fn lemma_product_bound(a: int, b: int)
    by (nonlinear_arith)
    requires
        fits_i16(a),
        fits_i16(b),
    ensures
        -0x4000_0000 < a * b <= 0x4000_0000,
{
}

impl Vec3 {
    pub fn new(x: i16, y: i16, z: i16) -> (v: Vec3)
        ensures
            v == (Vec3 { x, y, z }),
    {
        Vec3 { x, y, z }
    }

    pub fn zero() -> (v: Vec3)
        ensures
            v == (Vec3 { x: 0, y: 0, z: 0 }),
    {
        Self::new(0, 0, 0)
    }

    /// The component that lies along `axis`.
    pub fn along(self, axis: Axis) -> (c: i16)
        ensures
            c == self@.along(axis),
    {
        match axis {
            Axis::X => self.x,
            Axis::Y => self.y,
            Axis::Z => self.z,
        }
    }

    /// The squared Euclidean length.
    pub fn length_squared(self) -> (d: i16)
        requires
            fits_i16(self@.length_squared()),
        ensures
            d == self@.length_squared(),
    {
        Self::dot(self, self)
    }

    /// The dot product. Sums are formed in a wider type, so only the result has to fit.
    pub fn dot(lhs: Vec3, rhs: Vec3) -> (d: i16)
        requires
            fits_i16(lhs@.dot(rhs@)),
        ensures
            d == lhs@.dot(rhs@),
    {
        proof {
            lemma_product_bound(lhs.x as int, rhs.x as int);
            lemma_product_bound(lhs.y as int, rhs.y as int);
            lemma_product_bound(lhs.z as int, rhs.z as int);
        }
        let a: i64 = (lhs.x as i64) * (rhs.x as i64);
        let b: i64 = (lhs.y as i64) * (rhs.y as i64);
        let c: i64 = (lhs.z as i64) * (rhs.z as i64);
        (a + b + c) as i16
    }

    /// The cross product. Differences are formed in a wider type, so only the result has to
    /// fit.
    pub fn cross(lhs: Vec3, rhs: Vec3) -> (v: Vec3)
        requires
            lhs@.cross(rhs@).fits(),
        ensures
            v@ == lhs@.cross(rhs@),
    {
        proof {
            lemma_product_bound(lhs.y as int, rhs.z as int);
            lemma_product_bound(lhs.z as int, rhs.y as int);
            lemma_product_bound(lhs.z as int, rhs.x as int);
            lemma_product_bound(lhs.x as int, rhs.z as int);
            lemma_product_bound(lhs.x as int, rhs.y as int);
            lemma_product_bound(lhs.y as int, rhs.x as int);
        }
        let x: i64 = (lhs.y as i64) * (rhs.z as i64) - (lhs.z as i64) * (rhs.y as i64);
        let y: i64 = (lhs.z as i64) * (rhs.x as i64) - (lhs.x as i64) * (rhs.z as i64);
        let z: i64 = (lhs.x as i64) * (rhs.y as i64) - (lhs.y as i64) * (rhs.x as i64);
        Self::new(x as i16, y as i16, z as i16)
    }
}

impl NegSpecImpl for Vec3 {
    open spec fn obeys_neg_spec() -> bool {
        true
    }

    open spec fn neg_req(self) -> bool {
        self@.neg().fits()
    }

    open spec fn neg_spec(self) -> Vec3 {
        self@.neg().to_vec3()
    }
}

impl Neg for Vec3 {
    type Output = Vec3;

    fn neg(self) -> (v: Vec3)
        ensures
            v@ == self@.neg(),
    {
        Vec3::new(-self.x, -self.y, -self.z)
    }
}

impl AddSpecImpl<Vec3> for Vec3 {
    open spec fn obeys_add_spec() -> bool {
        true
    }

    open spec fn add_req(self, rhs: Vec3) -> bool {
        self@.plus(rhs@).fits()
    }

    open spec fn add_spec(self, rhs: Vec3) -> Vec3 {
        self@.plus(rhs@).to_vec3()
    }
}

impl Add<Vec3> for Vec3 {
    type Output = Vec3;

    fn add(self, rhs: Vec3) -> (v: Vec3)
        ensures
            v@ == self@.plus(rhs@),
    {
        Vec3::new(self.x + rhs.x, self.y + rhs.y, self.z + rhs.z)
    }
}

impl AddAssign<Vec3> for Vec3 {
    fn add_assign(&mut self, rhs: Vec3)
        requires
            old(self)@.plus(rhs@).fits(),
        ensures
            final(self)@ == old(self)@.plus(rhs@),
    {
        *self = *self + rhs;
    }
}

impl SubSpecImpl<Vec3> for Vec3 {
    open spec fn obeys_sub_spec() -> bool {
        true
    }

    open spec fn sub_req(self, rhs: Vec3) -> bool {
        self@.minus(rhs@).fits()
    }

    open spec fn sub_spec(self, rhs: Vec3) -> Vec3 {
        self@.minus(rhs@).to_vec3()
    }
}

impl Sub<Vec3> for Vec3 {
    type Output = Vec3;

    fn sub(self, rhs: Vec3) -> (v: Vec3)
        ensures
            v@ == self@.minus(rhs@),
    {
        Vec3::new(self.x - rhs.x, self.y - rhs.y, self.z - rhs.z)
    }
}

impl MulSpecImpl<Vec3> for Vec3 {
    open spec fn obeys_mul_spec() -> bool {
        true
    }

    open spec fn mul_req(self, rhs: Vec3) -> bool {
        self@.times(rhs@).fits()
    }

    open spec fn mul_spec(self, rhs: Vec3) -> Vec3 {
        self@.times(rhs@).to_vec3()
    }
}

impl Mul<Vec3> for Vec3 {
    type Output = Vec3;

    /// The componentwise product.
    fn mul(self, rhs: Vec3) -> (v: Vec3)
        ensures
            v@ == self@.times(rhs@),
    {
        Vec3::new(self.x * rhs.x, self.y * rhs.y, self.z * rhs.z)
    }
}

impl MulSpecImpl<i16> for Vec3 {
    open spec fn obeys_mul_spec() -> bool {
        true
    }

    open spec fn mul_req(self, rhs: i16) -> bool {
        self@.scaled(rhs as int).fits()
    }

    open spec fn mul_spec(self, rhs: i16) -> Vec3 {
        self@.scaled(rhs as int).to_vec3()
    }
}

impl Mul<i16> for Vec3 {
    type Output = Vec3;

    fn mul(self, rhs: i16) -> (v: Vec3)
        ensures
            v@ == self@.scaled(rhs as int),
    {
        self * Vec3::new(rhs, rhs, rhs)
    }
}

impl MulAssign<i16> for Vec3 {
    fn mul_assign(&mut self, rhs: i16)
        requires
            old(self)@.scaled(rhs as int).fits(),
        ensures
            final(self)@ == old(self)@.scaled(rhs as int),
    {
        *self = *self * rhs;
    }
}

impl MulSpecImpl<Vec3> for i16 {
    open spec fn obeys_mul_spec() -> bool {
        true
    }

    open spec fn mul_req(self, rhs: Vec3) -> bool {
        rhs@.scaled(self as int).fits()
    }

    open spec fn mul_spec(self, rhs: Vec3) -> Vec3 {
        rhs@.scaled(self as int).to_vec3()
    }
}

impl Mul<Vec3> for i16 {
    type Output = Vec3;

    fn mul(self, rhs: Vec3) -> (v: Vec3)
        ensures
            v@ == rhs@.scaled(self as int),
    {
        rhs * self
    }
}

/// Turning by `m` quarter turns and then by `n` about the same axis is turning by `m + n`.
pub proof fn lemma_rotate_compose(v: IntVec3, axis: Axis, m: int, n: int)
    ensures
        v.rotate(axis, m).rotate(axis, n) == v.rotate(axis, m + n),
{
    assert((m + n) % 4 == (m % 4 + n % 4) % 4) by (nonlinear_arith);
}

/// Four quarter turns, or any multiple of four, leave a vector where it is.
pub proof fn lemma_rotate_full_turns(v: IntVec3, axis: Axis, n: int)
    requires
        n % 4 == 0,
    ensures
        v.rotate(axis, n) == v,
{
}

/// A turn is undone by the same number of quarter turns the other way.
pub proof fn lemma_rotate_inverse(v: IntVec3, axis: Axis, n: int)
    ensures
        v.rotate(axis, n).rotate(axis, -n) == v,
        v.rotate(axis, -n).rotate(axis, n) == v,
{
    lemma_rotate_compose(v, axis, n, -n);
    lemma_rotate_compose(v, axis, -n, n);
}

/// A turn about an axis keeps the component along that axis.
pub proof fn lemma_rotate_keeps_axis(v: IntVec3, axis: Axis, n: int)
    ensures
        v.rotate(axis, n).along(axis) == v.along(axis),
{
}

/// `a` multiplied by a sign `c`, which is -1, 0 or 1.
pub open spec fn signed(c: int, a: int) -> int {
    if c == 0 {
        0
    } else if c == 1 {
        a
    } else {
        -a
    }
}

/// The dot product with a row of signs only adds and subtracts components.
pub proof fn lemma_signed_dot(row: IntVec3, v: IntVec3)
    by (nonlinear_arith)
    requires
        -1 <= row.x <= 1,
        -1 <= row.y <= 1,
        -1 <= row.z <= 1,
    ensures
        row.dot(v) == signed(row.x, v.x) + signed(row.y, v.y) + signed(row.z, v.z),
{
}

impl Vec3 {
    /// Returns `v` turned about `axis` by `n_turns` clockwise quarter turns; a negative
    /// count turns it counter-clockwise. The result is exact: the sines and cosines of
    /// multiples of a right angle are integers.
    pub fn rotate_around_axis(v: Vec3, axis: Axis, n_turns: i16) -> (r: Vec3)
        requires
            v@.rotate(axis, n_turns as int).fits(),
        ensures
            r@ == v@.rotate(axis, n_turns as int),
    {
        if n_turns == 0 {
            return v;
        }
        // The usual rotation matrices turn counter-clockwise, so the count is negated
        // before it is brought into 0..=3.
        let mut n: i16 = n_turns % 4;
        n = -n;
        if n < 0 {
            n += 4;
        }
        assert(n == (-(n_turns as int)) % 4);
        // cos_vals[i] and sin_vals[i] are the cosine and sine of i right angles.
        let cos_vals: [i16; 4] = [1, 0, -1, 0];
        let sin_vals: [i16; 4] = [0, 1, 0, -1];
        let c: i16 = cos_vals[n as usize];
        let s: i16 = sin_vals[n as usize];
        let rot = match axis {
            Axis::X => Matrix3::new(Vec3::new(1, 0, 0), Vec3::new(0, c, -s), Vec3::new(0, s, c)),
            Axis::Y => Matrix3::new(Vec3::new(c, 0, s), Vec3::new(0, 1, 0), Vec3::new(-s, 0, c)),
            Axis::Z => Matrix3::new(Vec3::new(c, -s, 0), Vec3::new(s, c, 0), Vec3::new(0, 0, 1)),
        };
        proof {
            lemma_signed_dot(rot.0[0]@, v@);
            lemma_signed_dot(rot.0[1]@, v@);
            lemma_signed_dot(rot.0[2]@, v@);
        }
        assert(rot.apply(v@) == v@.rotate(axis, n_turns as int));
        rot * v
    }
}

/// A 3×3 matrix of 16-bit integers, held as its three rows.
#[derive(Copy, Clone, Debug, PartialEq, Eq)]
pub struct Matrix3(pub [Vec3; 3]);

impl Matrix3 {
    /// The product of the matrix and a column vector: the dot product of each row with `v`.
    pub open spec fn apply(self, v: IntVec3) -> IntVec3 {
        IntVec3 { x: self.0[0]@.dot(v), y: self.0[1]@.dot(v), z: self.0[2]@.dot(v) }
    }

    /// The matrix whose rows are `r1`, `r2` and `r3`, from top to bottom.
    pub fn new(r1: Vec3, r2: Vec3, r3: Vec3) -> (m: Matrix3)
        ensures
            m.0[0] == r1,
            m.0[1] == r2,
            m.0[2] == r3,
    {
        Matrix3([r1, r2, r3])
    }
}

impl MulSpecImpl<Vec3> for Matrix3 {
    open spec fn obeys_mul_spec() -> bool {
        true
    }

    open spec fn mul_req(self, rhs: Vec3) -> bool {
        self.apply(rhs@).fits()
    }

    open spec fn mul_spec(self, rhs: Vec3) -> Vec3 {
        self.apply(rhs@).to_vec3()
    }
}

impl Mul<Vec3> for Matrix3 {
    type Output = Vec3;

    fn mul(self, rhs: Vec3) -> (v: Vec3)
        ensures
            v@ == self.apply(rhs@),
    {
        Vec3::new(
            Vec3::dot(self.0[0], rhs),
            Vec3::dot(self.0[1], rhs),
            Vec3::dot(self.0[2], rhs),
        )
    }
}

} // verus!
