//! Integer 2-vectors with wrapping component arithmetic.

use vstd::prelude::*;
use vstd::wrapping::i32_specs;

verus! {

/// A two-dimensional integer vector.
///
/// All arithmetic on vectors wraps around in each component, so every
/// operation is defined for every pair of vectors and gives the same result
/// on every target.
#[derive(Clone, Copy, Debug, PartialEq, Eq, Structural)]
pub struct Vector2 {
    pub x: i32,
    pub y: i32,
}

impl Vector2 {
    /// The component-wise negation, as a mathematical function.
    pub open spec fn spec_neg(self) -> Vector2 {
        Vector2 { x: i32_specs::wrapping_sub(0, self.x), y: i32_specs::wrapping_sub(0, self.y) }
    }

    /// The component-wise sum, as a mathematical function.
    pub open spec fn spec_add(self, other: Vector2) -> Vector2 {
        Vector2 {
            x: i32_specs::wrapping_add(self.x, other.x),
            y: i32_specs::wrapping_add(self.y, other.y),
        }
    }

    /// The component-wise difference, as a mathematical function.
    pub open spec fn spec_sub(self, other: Vector2) -> Vector2 {
        Vector2 {
            x: i32_specs::wrapping_sub(self.x, other.x),
            y: i32_specs::wrapping_sub(self.y, other.y),
        }
    }

    /// The zero vector.
    pub fn new() -> (v: Self)
        ensures
            v == (Vector2 { x: 0, y: 0 }),
    {
        Self { x: 0, y: 0 }
    }

    /// The vector with the given components.
    pub fn from(x: i32, y: i32) -> (v: Self)
        ensures
            v == (Vector2 { x, y }),
    {
        Self { x, y }
    }

    /// Negates both components.
    pub fn neg(self) -> (v: Self)
        ensures
            v == self.spec_neg(),
    {
        Self { x: 0i32.wrapping_sub(self.x), y: 0i32.wrapping_sub(self.y) }
    }

    /// Adds `other` component by component.
    pub fn add(self, other: Self) -> (v: Self)
        ensures
            v == self.spec_add(other),
    {
        Self { x: self.x.wrapping_add(other.x), y: self.y.wrapping_add(other.y) }
    }

    /// Subtracts `other` component by component.
    pub fn sub(self, other: Self) -> (v: Self)
        ensures
            v == self.spec_sub(other),
    {
        Self { x: self.x.wrapping_sub(other.x), y: self.y.wrapping_sub(other.y) }
    }

    /// Adds `other` to `self` in place.
    pub fn add_assign(&mut self, other: Self)
        ensures
            *final(self) == old(self).spec_add(other),
    {
        self.x = self.x.wrapping_add(other.x);
        self.y = self.y.wrapping_add(other.y);
    }

    /// Subtracts `other` from `self` in place.
    pub fn sub_assign(&mut self, other: Self)
        ensures
            *final(self) == old(self).spec_sub(other),
    {
        self.x = self.x.wrapping_sub(other.x);
        self.y = self.y.wrapping_sub(other.y);
    }
}

impl Default for Vector2 {
    fn default() -> (v: Self)
        ensures
            v == (Vector2 { x: 0, y: 0 }),
    {
        Self { x: 0, y: 0 }
    }
}

/// Where no component overflows, the wrapping sum and difference are the
/// ordinary ones.
pub proof fn lemma_vector_arithmetic_in_range(a: Vector2, b: Vector2)
    ensures
        i32::MIN <= a.x + b.x <= i32::MAX ==> a.spec_add(b).x == a.x + b.x,
        i32::MIN <= a.y + b.y <= i32::MAX ==> a.spec_add(b).y == a.y + b.y,
        i32::MIN <= a.x - b.x <= i32::MAX ==> a.spec_sub(b).x == a.x - b.x,
        i32::MIN <= a.y - b.y <= i32::MAX ==> a.spec_sub(b).y == a.y - b.y,
{
}

} // verus!
