//! A color in the CIE XYZ space, with one channel of type `T` each.
use vstd::prelude::*;

verus! {

/// A color in the CIE XYZ space: `x`, `y` and `z`.
pub struct XYZ<T> {
    x: T,
    y: T,
    z: T,
}

impl<T> View for XYZ<T> {
    type V = (T, T, T);

    closed spec fn view(&self) -> (T, T, T) {
        (self.x, self.y, self.z)
    }
}

impl<T: Copy> XYZ<T> {
    /// The color with the given channels.
    pub fn new(x: T, y: T, z: T) -> (r: Self)
        ensures
            r@ == (x, y, z),
    {
        Self { x, y, z }
    }

    /// The x channel.
    pub fn x(&self) -> (r: T)
        ensures
            r == self@.0,
    {
        self.x
    }

    /// The same color with the x channel replaced.
    pub fn with_x(self, x: T) -> (r: Self)
        ensures
            r@ == (x, self@.1, self@.2),
    {
        Self { x, ..self }
    }

    /// The y channel.
    pub fn y(&self) -> (r: T)
        ensures
            r == self@.1,
    {
        self.y
    }

    /// The same color with the y channel replaced.
    pub fn with_y(self, y: T) -> (r: Self)
        ensures
            r@ == (self@.0, y, self@.2),
    {
        Self { y, ..self }
    }

    /// The z channel.
    pub fn z(&self) -> (r: T)
        ensures
            r == self@.2,
    {
        self.z
    }

    /// The same color with the z channel replaced.
    pub fn with_z(self, z: T) -> (r: Self)
        ensures
            r@ == (self@.0, self@.1, z),
    {
        Self { z, ..self }
    }

    /// Replaces the x channel in place; returns `self` for chaining.
    pub fn set_x(&mut self, x: T) -> (this: &mut Self)
        ensures
            this@ == (x, old(self)@.1, old(self)@.2),
            *final(self) == *final(this),
    {
        self.x = x;
        self
    }

    /// Replaces the y channel in place; returns `self` for chaining.
    pub fn set_y(&mut self, y: T) -> (this: &mut Self)
        ensures
            this@ == (old(self)@.0, y, old(self)@.2),
            *final(self) == *final(this),
    {
        self.y = y;
        self
    }

    /// Replaces the z channel in place; returns `self` for chaining.
    pub fn set_z(&mut self, z: T) -> (this: &mut Self)
        ensures
            this@ == (old(self)@.0, old(self)@.1, z),
            *final(self) == *final(this),
    {
        self.z = z;
        self
    }
}

} // verus!
