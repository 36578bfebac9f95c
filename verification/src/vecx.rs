//! Coordinate tuples and the working-plane permutation.
//!
//! The tuples are generic containers; the arithmetic is provided on the
//! integer step grid (`i32` components), where every result is exact.

use vstd::prelude::*;
use vstd::std_specs::ops::{AddSpecImpl, DivSpecImpl, MulSpecImpl, NegSpecImpl, SubSpecImpl};

verus! {

/// `true` when the mathematical integer `x` is representable as an `i32`.
pub open spec fn fits_i32(x: int) -> bool {
    i32::MIN <= x <= i32::MAX
}

/// Absolute value of a mathematical integer.
pub open spec fn abs_int(x: int) -> int {
    if x < 0 {
        -x
    } else {
        x
    }
}

/// The larger of two mathematical integers.
pub open spec fn max_int(a: int, b: int) -> int {
    if a > b {
        a
    } else {
        b
    }
}

/// Quotient rounded toward zero, as machine division computes it.
pub open spec fn trunc_div(a: int, b: int) -> int
    recommends
        b != 0,
{
    if a >= 0 {
        a / b
    } else {
        -((-a) / b)
    }
}

/// A coordinate triple. The first two components lie in the working plane,
/// the third is the linear axis.
#[derive(Eq, PartialEq, Copy, Clone, Debug, Default)]
pub struct Vec3<T>(pub T, pub T, pub T);

/// A coordinate pair in the working plane.
#[derive(Eq, PartialEq, Copy, Clone, Debug, Default)]
pub struct Vec2<T>(pub T, pub T);

/// Five coordinates: three translation axes and two rotary axes.
pub struct Vec5<T>(pub T, pub T, pub T, pub T, pub T);

/// A point of the step grid in the working plane.
pub type Point = Vec2<i32>;

/// A point of the step grid in space.
pub type Point3 = Vec3<i32>;

impl<T: Copy> Vec3<T> {
    /// Builds a triple from its three components.
    pub fn new(axis0: T, axis1: T, axis2: T) -> (r: Self)
        ensures
            r == Vec3(axis0, axis1, axis2),
    {
        Vec3(axis0, axis1, axis2)
    }

    /// Builds a triple from its in-plane pair and its linear component.
    #[inline]
    pub fn new_from_plane(plane: Vec2<T>, linear: T) -> (r: Self)
        ensures
            r == Vec3(plane.0, plane.1, linear),
    {
        Vec3(plane.0, plane.1, linear)
    }

    /// The in-plane pair.
    #[inline]
    pub fn plane(&self) -> (r: Vec2<T>)
        ensures
            r == Vec2(self.0, self.1),
    {
        Vec2(self.0, self.1)
    }

    /// The component along the linear axis.
    #[inline]
    pub fn linear(&self) -> (r: T)
        ensures
            r == self.2,
    {
        self.2
    }
}

impl Vec3<i32> {
    /// Dot product over the mathematical integers.
    pub open spec fn dot_int(self, other: Self) -> int {
        self.0 * other.0 + self.1 * other.1 + self.2 * other.2
    }

    /// Squared Euclidean length over the mathematical integers.
    pub open spec fn norm_sqr_int(self) -> int {
        self.dot_int(self)
    }

    /// Largest component over the mathematical integers.
    pub open spec fn max_component(self) -> int {
        max_int(max_int(self.0 as int, self.1 as int), self.2 as int)
    }

    /// Every product and every partial sum of `dot_int` is representable.
    pub open spec fn dot_fits(self, other: Self) -> bool {
        &&& fits_i32(self.0 * other.0)
        &&& fits_i32(self.1 * other.1)
        &&& fits_i32(self.2 * other.2)
        &&& fits_i32(self.0 * other.0 + self.1 * other.1)
        &&& fits_i32(self.dot_int(other))
    }

    /// No component is the one value whose negation is not representable.
    pub open spec fn negatable(self) -> bool {
        self.0 > i32::MIN && self.1 > i32::MIN && self.2 > i32::MIN
    }

    /// The origin.
    pub fn zero() -> (r: Self)
        ensures
            r == Vec3(0i32, 0i32, 0i32),
    {
        Vec3(0, 0, 0)
    }

    /// Dot product.
    #[inline]
    pub fn dot(&self, other: Self) -> (r: i32)
        requires
            self.dot_fits(other),
        ensures
            r == self.dot_int(other),
    {
        (self.0 * other.0) + (self.1 * other.1) + (self.2 * other.2)
    }

    /// Componentwise absolute value.
    pub fn abs(&self) -> (r: Self)
        requires
            self.negatable(),
        ensures
            r.0 == abs_int(self.0 as int),
            r.1 == abs_int(self.1 as int),
            r.2 == abs_int(self.2 as int),
    {
        Vec3(
            if self.0 < 0 {
                -self.0
            } else {
                self.0
            },
            if self.1 < 0 {
                -self.1
            } else {
                self.1
            },
            if self.2 < 0 {
                -self.2
            } else {
                self.2
            },
        )
    }

    /// The largest of the three components.
    pub fn max_element(&self) -> (r: i32)
        ensures
            r == self.max_component(),
    {
        let t: i32 = if self.0 > self.1 {
            self.0
        } else {
            self.1
        };
        if t > self.2 {
            t
        } else {
            self.2
        }
    }

    /// The unit vector of the axis that holds the largest component. Among
    /// equal components the later axis wins.
    pub fn max_element_index(&self) -> (r: Self)
        ensures
            self.2 >= self.0 && self.2 >= self.1 ==> r == Vec3(0i32, 0i32, 1i32),
            !(self.2 >= self.0 && self.2 >= self.1) && self.1 >= self.0 ==> r == Vec3(
                0i32,
                1i32,
                0i32,
            ),
            !(self.2 >= self.0 && self.2 >= self.1) && !(self.1 >= self.0) ==> r == Vec3(
                1i32,
                0i32,
                0i32,
            ),
    {
        let mut unit = Vec3(1i32, 0i32, 0i32);
        let t: i32 = if self.0 > self.1 {
            self.0
        } else {
            unit = Vec3(0, 1, 0);
            self.1
        };
        if t > self.2 {
        } else {
            unit = Vec3(0, 0, 1);
        }
        unit
    }

    /// Squared Euclidean length.
    #[inline]
    pub fn distance_sqr(&self) -> (r: i32)
        requires
            self.dot_fits(*self),
        ensures
            r == self.norm_sqr_int(),
    {
        self.0 * self.0 + self.1 * self.1 + self.2 * self.2
    }
}

/// Componentwise difference. Every component of the result must be
/// representable.
impl core::ops::Sub for Vec3<i32> {
    type Output = Self;

    #[inline]
    fn sub(self, rhs: Self) -> Self {
        Vec3(self.0 - rhs.0, self.1 - rhs.1, self.2 - rhs.2)
    }
}

impl SubSpecImpl for Vec3<i32> {
    open spec fn obeys_sub_spec() -> bool {
        true
    }

    open spec fn sub_req(self, rhs: Self) -> bool {
        fits_i32(self.0 - rhs.0) && fits_i32(self.1 - rhs.1) && fits_i32(self.2 - rhs.2)
    }

    open spec fn sub_spec(self, rhs: Self) -> Self {
        Vec3((self.0 - rhs.0) as i32, (self.1 - rhs.1) as i32, (self.2 - rhs.2) as i32)
    }
}

/// Componentwise sum. Every component of the result must be representable.
impl core::ops::Add for Vec3<i32> {
    type Output = Self;

    #[inline]
    fn add(self, rhs: Self) -> Self {
        Vec3(self.0 + rhs.0, self.1 + rhs.1, self.2 + rhs.2)
    }
}

impl AddSpecImpl for Vec3<i32> {
    open spec fn obeys_add_spec() -> bool {
        true
    }

    open spec fn add_req(self, rhs: Self) -> bool {
        fits_i32(self.0 + rhs.0) && fits_i32(self.1 + rhs.1) && fits_i32(self.2 + rhs.2)
    }

    open spec fn add_spec(self, rhs: Self) -> Self {
        Vec3((self.0 + rhs.0) as i32, (self.1 + rhs.1) as i32, (self.2 + rhs.2) as i32)
    }
}

/// Componentwise negation. No component may be `i32::MIN`.
impl core::ops::Neg for Vec3<i32> {
    type Output = Self;

    #[inline]
    fn neg(self) -> Self {
        Vec3(-self.0, -self.1, -self.2)
    }
}

impl NegSpecImpl for Vec3<i32> {
    open spec fn obeys_neg_spec() -> bool {
        true
    }

    open spec fn neg_req(self) -> bool {
        self.negatable()
    }

    open spec fn neg_spec(self) -> Self {
        Vec3((-self.0) as i32, (-self.1) as i32, (-self.2) as i32)
    }
}

/// Every component multiplied by a scalar. Every component of the result
/// must be representable.
impl core::ops::Mul<i32> for &Vec3<i32> {
    type Output = Vec3<i32>;

    #[inline]
    fn mul(self, rhs: i32) -> Vec3<i32> {
        Vec3(self.0 * rhs, self.1 * rhs, self.2 * rhs)
    }
}

impl MulSpecImpl<i32> for &Vec3<i32> {
    open spec fn obeys_mul_spec() -> bool {
        true
    }

    open spec fn mul_req(self, rhs: i32) -> bool {
        fits_i32(self.0 * rhs) && fits_i32(self.1 * rhs) && fits_i32(self.2 * rhs)
    }

    open spec fn mul_spec(self, rhs: i32) -> Vec3<i32> {
        Vec3((self.0 * rhs) as i32, (self.1 * rhs) as i32, (self.2 * rhs) as i32)
    }
}

/// Every component divided by a scalar, rounding toward zero. The scalar
/// must not be zero, and no component may be `i32::MIN` when it is `-1`.
impl core::ops::Div<i32> for &Vec3<i32> {
    type Output = Vec3<i32>;

    #[inline]
    fn div(self, rhs: i32) -> Vec3<i32> {
        Vec3(self.0 / rhs, self.1 / rhs, self.2 / rhs)
    }
}

impl DivSpecImpl<i32> for &Vec3<i32> {
    open spec fn obeys_div_spec() -> bool {
        true
    }

    open spec fn div_req(self, rhs: i32) -> bool {
        rhs != 0 && (rhs == -1 ==> self.negatable())
    }

    open spec fn div_spec(self, rhs: i32) -> Vec3<i32> {
        Vec3(
            trunc_div(self.0 as int, rhs as int) as i32,
            trunc_div(self.1 as int, rhs as int) as i32,
            trunc_div(self.2 as int, rhs as int) as i32,
        )
    }
}

impl<T: Copy> Vec2<T> {
    /// Builds a pair from its two components.
    pub fn new(axis0: T, axis1: T) -> (r: Self)
        ensures
            r == Vec2(axis0, axis1),
    {
        Vec2(axis0, axis1)
    }
}

impl Vec2<i32> {
    /// Wedge (exterior) product over the mathematical integers: the signed
    /// area of the parallelogram spanned by `self` and `other`.
    pub open spec fn wedge_int(self, other: Self) -> int {
        self.0 * other.1 - self.1 * other.0
    }

    /// Dot product over the mathematical integers.
    pub open spec fn dot_int(self, other: Self) -> int {
        self.0 * other.0 + self.1 * other.1
    }

    /// Squared Euclidean length over the mathematical integers.
    pub open spec fn norm_sqr_int(self) -> int {
        self.dot_int(self)
    }

    /// Both products and the result of `wedge_int` are representable.
    pub open spec fn wedge_fits(self, other: Self) -> bool {
        &&& fits_i32(self.0 * other.1)
        &&& fits_i32(self.1 * other.0)
        &&& fits_i32(self.wedge_int(other))
    }

    /// Both products and the result of `dot_int` are representable.
    pub open spec fn dot_fits(self, other: Self) -> bool {
        &&& fits_i32(self.0 * other.0)
        &&& fits_i32(self.1 * other.1)
        &&& fits_i32(self.dot_int(other))
    }

    /// No component is the one value whose negation is not representable.
    pub open spec fn negatable(self) -> bool {
        self.0 > i32::MIN && self.1 > i32::MIN
    }

    /// Wedge (exterior) product, positive when `other` lies counter-clockwise
    /// of `self`.
    #[inline]
    pub fn wedge(&self, other: Self) -> (r: i32)
        requires
            self.wedge_fits(other),
        ensures
            r == self.wedge_int(other),
    {
        (self.0 * other.1) - (self.1 * other.0)
    }

    /// Dot product.
    #[inline]
    pub fn dot(&self, other: Self) -> (r: i32)
        requires
            self.dot_fits(other),
        ensures
            r == self.dot_int(other),
    {
        (self.0 * other.0) + (self.1 * other.1)
    }

    /// Squared Euclidean length.
    #[inline]
    pub fn distance_sqr(&self) -> (r: i32)
        requires
            self.dot_fits(*self),
        ensures
            r == self.norm_sqr_int(),
    {
        self.0 * self.0 + self.1 * self.1
    }
}

/// Componentwise difference. Every component of the result must be
/// representable.
impl core::ops::Sub for Vec2<i32> {
    type Output = Self;

    #[inline]
    fn sub(self, rhs: Self) -> Self {
        Vec2(self.0 - rhs.0, self.1 - rhs.1)
    }
}

impl SubSpecImpl for Vec2<i32> {
    open spec fn obeys_sub_spec() -> bool {
        true
    }

    open spec fn sub_req(self, rhs: Self) -> bool {
        fits_i32(self.0 - rhs.0) && fits_i32(self.1 - rhs.1)
    }

    open spec fn sub_spec(self, rhs: Self) -> Self {
        Vec2((self.0 - rhs.0) as i32, (self.1 - rhs.1) as i32)
    }
}

/// Componentwise sum. Every component of the result must be representable.
impl core::ops::Add for Vec2<i32> {
    type Output = Self;

    #[inline]
    fn add(self, rhs: Self) -> Self {
        Vec2(self.0 + rhs.0, self.1 + rhs.1)
    }
}

impl AddSpecImpl for Vec2<i32> {
    open spec fn obeys_add_spec() -> bool {
        true
    }

    open spec fn add_req(self, rhs: Self) -> bool {
        fits_i32(self.0 + rhs.0) && fits_i32(self.1 + rhs.1)
    }

    open spec fn add_spec(self, rhs: Self) -> Self {
        Vec2((self.0 + rhs.0) as i32, (self.1 + rhs.1) as i32)
    }
}

/// Componentwise negation. No component may be `i32::MIN`.
impl core::ops::Neg for Vec2<i32> {
    type Output = Self;

    #[inline]
    fn neg(self) -> Self {
        Vec2(-self.0, -self.1)
    }
}

impl NegSpecImpl for Vec2<i32> {
    open spec fn obeys_neg_spec() -> bool {
        true
    }

    open spec fn neg_req(self) -> bool {
        self.negatable()
    }

    open spec fn neg_spec(self) -> Self {
        Vec2((-self.0) as i32, (-self.1) as i32)
    }
}

impl<T: Copy> Vec5<T> {
    /// Builds a quintuple from its five components.
    pub fn new(axis0: T, axis1: T, axis2: T, axis3: T, axis4: T) -> (r: Self)
        ensures
            r.0 == axis0,
            r.1 == axis1,
            r.2 == axis2,
            r.3 == axis3,
            r.4 == axis4,
    {
        Vec5(axis0, axis1, axis2, axis3, axis4)
    }
}

/// The working plane of an arc. The axis that is not part of the plane is the
/// linear (helical) axis.
#[allow(non_camel_case_types)]
#[derive(Clone, Copy, Debug, Eq, PartialEq, Structural)]
pub enum CanonPlane {
    /// XY plane, linear along Z.
    CanonPlaneXY,
    /// YZ plane, linear along X.
    CanonPlaneYZ,
    /// XZ plane, linear along Y.
    CanonPlaneXZ,
}

impl CanonPlane {
    /// The machine-frame (X, Y, Z) reading of a triple expressed in this
    /// plane's frame.
    pub open spec fn to_machine<T>(self, v: Vec3<T>) -> Vec3<T> {
        match self {
            CanonPlane::CanonPlaneXY => Vec3(v.0, v.1, v.2),
            CanonPlane::CanonPlaneYZ => Vec3(v.2, v.0, v.1),
            CanonPlane::CanonPlaneXZ => Vec3(v.1, v.2, v.0),
        }
    }

    /// The reading in this plane's frame of a machine-frame (X, Y, Z) triple.
    pub open spec fn from_machine<T>(self, v: Vec3<T>) -> Vec3<T> {
        match self {
            CanonPlane::CanonPlaneXY => Vec3(v.0, v.1, v.2),
            CanonPlane::CanonPlaneYZ => Vec3(v.1, v.2, v.0),
            CanonPlane::CanonPlaneXZ => Vec3(v.2, v.0, v.1),
        }
    }

    /// The triple `orig`, expressed in this plane's frame, re-expressed in
    /// the frame of `dest`.
    pub open spec fn to_plane_spec<T>(self, orig: Vec3<T>, dest: CanonPlane) -> Vec3<T> {
        dest.from_machine(self.to_machine(orig))
    }

    /// Re-expresses `orig`, given in this plane's frame, in the frame of
    /// `dest_plane`.
    pub fn to_plane<T: Copy>(&self, orig: &Vec3<T>, dest_plane: &CanonPlane) -> (r: Vec3<T>)
        ensures
            r == self.to_plane_spec(*orig, *dest_plane),
    {
        if *self == *dest_plane {
            return *orig;
        }
        let (x, y, z) = if *self == CanonPlane::CanonPlaneYZ {
            (orig.2, orig.0, orig.1)
        } else if *self == CanonPlane::CanonPlaneXZ {
            (orig.1, orig.2, orig.0)
        } else {
            (orig.0, orig.1, orig.2)
        };
        if *dest_plane == CanonPlane::CanonPlaneYZ {
            Vec3(y, z, x)
        } else if *dest_plane == CanonPlane::CanonPlaneXZ {
            Vec3(z, x, y)
        } else {
            Vec3(x, y, z)
        }
    }

    /// Applies to every component of `orig`, a triple in this plane's
    /// frame, the function of the machine axis that the component lies on.
    /// The result is again a triple in this plane's frame. Conversions that
    /// scale each machine axis by a factor of its own, such as the one
    /// between millimetres and steps, have this shape.
    pub fn map_machine_axes<T: Copy, U: Copy, FX, FY, FZ>(
        &self,
        orig: &Vec3<T>,
        x: FX,
        y: FY,
        z: FZ,
    ) -> (r: Vec3<U>) where FX: Fn(T) -> U, FY: Fn(T) -> U, FZ: Fn(T) -> U
        requires
            call_requires(x, (self.to_machine(*orig).0,)),
            call_requires(y, (self.to_machine(*orig).1,)),
            call_requires(z, (self.to_machine(*orig).2,)),
        ensures
            call_ensures(x, (self.to_machine(*orig).0,), self.to_machine(r).0),
            call_ensures(y, (self.to_machine(*orig).1,), self.to_machine(r).1),
            call_ensures(z, (self.to_machine(*orig).2,), self.to_machine(r).2),
    {
        let machine = CanonPlane::CanonPlaneXY;
        let d = self.to_plane(orig, &machine);
        let dest = Vec3(x(d.0), y(d.1), z(d.2));
        machine.to_plane(&dest, self)
    }

    /// Going to the machine frame and back changes nothing.
    pub proof fn lemma_machine_roundtrip<T>(self, v: Vec3<T>)
        ensures
            self.from_machine(self.to_machine(v)) == v,
            self.to_machine(self.from_machine(v)) == v,
    {
    }

    /// Mapping a triple from plane `self` to plane `dest` and then from
    /// `dest` back to `self` returns the triple unchanged.
    pub proof fn lemma_to_plane_inverse<T>(self, dest: CanonPlane, v: Vec3<T>)
        ensures
            dest.to_plane_spec(self.to_plane_spec(v, dest), self) == v,
    {
    }

    /// Mapping within one plane is the identity.
    pub proof fn lemma_to_plane_same<T>(self, v: Vec3<T>)
        ensures
            self.to_plane_spec(v, self) == v,
    {
    }

    /// Mapping through an intermediate plane equals mapping directly.
    pub proof fn lemma_to_plane_compose<T>(self, mid: CanonPlane, dest: CanonPlane, v: Vec3<T>)
        ensures
            mid.to_plane_spec(self.to_plane_spec(v, mid), dest) == self.to_plane_spec(v, dest),
    {
    }
}

} // verus!
