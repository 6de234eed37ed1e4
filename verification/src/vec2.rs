//! Two-component vectors.
use crate::scalar::Scalar;
use vstd::prelude::*;

verus! {

/// A point or a direction in the plane.
#[derive(Clone, Copy, Debug, PartialEq, Eq, Structural)]
pub struct Vec2 {
    pub x: Scalar,
    pub y: Scalar,
}

impl Vec2 {
    pub open spec fn new_spec(x: Scalar, y: Scalar) -> Vec2 {
        Vec2 { x, y }
    }

    pub open spec fn zero_spec() -> Vec2 {
        Vec2 { x: Scalar::zero(), y: Scalar::zero() }
    }

    /// Componentwise sum.
    pub open spec fn add_spec(self, rhs: Vec2) -> Vec2 {
        Vec2 { x: self.x.add(rhs.x), y: self.y.add(rhs.y) }
    }

    /// Componentwise difference.
    pub open spec fn sub_spec(self, rhs: Vec2) -> Vec2 {
        Vec2 { x: self.x.sub(rhs.x), y: self.y.sub(rhs.y) }
    }

    /// The opposite vector.
    pub open spec fn neg_spec(self) -> Vec2 {
        Vec2 { x: self.x.neg(), y: self.y.neg() }
    }

    /// Both components multiplied by `k`.
    pub open spec fn scale_spec(self, k: Scalar) -> Vec2 {
        Vec2 { x: self.x.mul(k), y: self.y.mul(k) }
    }

    /// Both components divided by `k`.
    pub open spec fn div_spec(self, k: Scalar) -> Vec2 {
        Vec2 { x: self.x.div(k), y: self.y.div(k) }
    }

    /// Inner product.
    pub open spec fn dot_spec(self, rhs: Vec2) -> Scalar {
        self.x.mul(rhs.x).add(self.y.mul(rhs.y))
    }

    /// Euclidean length.
    pub open spec fn length_spec(self) -> Scalar {
        self.dot(self).sqrt()
    }

    /// The vector divided by its length; the zero vector where the length
    /// rounds to zero and no direction is defined.
    pub open spec fn normalize_spec(self) -> Vec2 {
        if self.length().m == 0 {
            Vec2::zero()
        } else {
            self.div(self.length())
        }
    }

    #[verifier::when_used_as_spec(new_spec)]
    pub fn new(x: Scalar, y: Scalar) -> (r: Vec2)
        ensures
            r == Vec2::new_spec(x, y),
    {
        Vec2 { x, y }
    }

    #[verifier::when_used_as_spec(zero_spec)]
    pub fn zero() -> (r: Vec2)
        ensures
            r == Vec2::zero_spec(),
    {
        Vec2 { x: Scalar::zero(), y: Scalar::zero() }
    }

    #[verifier::when_used_as_spec(add_spec)]
    pub fn add(self, rhs: Vec2) -> (r: Vec2)
        ensures
            r == self.add_spec(rhs),
    {
        Vec2 { x: self.x.add(rhs.x), y: self.y.add(rhs.y) }
    }

    #[verifier::when_used_as_spec(sub_spec)]
    pub fn sub(self, rhs: Vec2) -> (r: Vec2)
        ensures
            r == self.sub_spec(rhs),
    {
        Vec2 { x: self.x.sub(rhs.x), y: self.y.sub(rhs.y) }
    }

    #[verifier::when_used_as_spec(neg_spec)]
    pub fn neg(self) -> (r: Vec2)
        ensures
            r == self.neg_spec(),
    {
        Vec2 { x: self.x.neg(), y: self.y.neg() }
    }

    #[verifier::when_used_as_spec(scale_spec)]
    pub fn scale(self, k: Scalar) -> (r: Vec2)
        ensures
            r == self.scale_spec(k),
    {
        Vec2 { x: self.x.mul(k), y: self.y.mul(k) }
    }

    #[verifier::when_used_as_spec(div_spec)]
    pub fn div(self, k: Scalar) -> (r: Vec2)
        requires
            k.m != 0,
        ensures
            r == self.div_spec(k),
    {
        Vec2 { x: self.x.div(k), y: self.y.div(k) }
    }

    #[verifier::when_used_as_spec(dot_spec)]
    pub fn dot(self, rhs: Vec2) -> (r: Scalar)
        ensures
            r == self.dot_spec(rhs),
    {
        self.x.mul(rhs.x).add(self.y.mul(rhs.y))
    }

    #[verifier::when_used_as_spec(length_spec)]
    pub fn length(self) -> (r: Scalar)
        ensures
            r == self.length_spec(),
    {
        self.dot(self).sqrt()
    }

    #[verifier::when_used_as_spec(normalize_spec)]
    pub fn normalize(self) -> (r: Vec2)
        ensures
            r == self.normalize_spec(),
    {
        let len: Scalar = self.length();
        if len.is_zero() {
            Vec2::zero()
        } else {
            self.div(len)
        }
    }
}

} // verus!
