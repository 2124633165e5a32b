//! A color in the CIE L*a*b* space, with one channel of type `T` each.
use vstd::prelude::*;

verus! {

/// A color in the CIE L*a*b* space: `lightness`, `a_axis` and `b_axis`.
pub struct LAB<T> {
    lightness: T,
    a_axis: T,
    b_axis: T,
}

impl<T> View for LAB<T> {
    type V = (T, T, T);

    closed spec fn view(&self) -> (T, T, T) {
        (self.lightness, self.a_axis, self.b_axis)
    }
}

impl<T: Copy> LAB<T> {
    /// The color with the given channels.
    pub fn new(lightness: T, a_axis: T, b_axis: T) -> (r: Self)
        ensures
            r@ == (lightness, a_axis, b_axis),
    {
        Self { lightness, a_axis, b_axis }
    }

    /// The lightness channel.
    pub fn l(&self) -> (r: T)
        ensures
            r == self@.0,
    {
        self.lightness
    }

    /// The same color with the lightness channel replaced.
    pub fn with_l(self, lightness: T) -> (r: Self)
        ensures
            r@ == (lightness, self@.1, self@.2),
    {
        Self { lightness, ..self }
    }

    /// The a axis channel.
    pub fn ax(&self) -> (r: T)
        ensures
            r == self@.1,
    {
        self.a_axis
    }

    /// The same color with the a axis channel replaced.
    pub fn with_ax(self, a_axis: T) -> (r: Self)
        ensures
            r@ == (self@.0, a_axis, self@.2),
    {
        Self { a_axis, ..self }
    }

    /// The b axis channel.
    pub fn bx(&self) -> (r: T)
        ensures
            r == self@.2,
    {
        self.b_axis
    }

    /// The same color with the b axis channel replaced.
    pub fn with_bx(self, b_axis: T) -> (r: Self)
        ensures
            r@ == (self@.0, self@.1, b_axis),
    {
        Self { b_axis, ..self }
    }

    /// Replaces the lightness channel in place; returns `self` for chaining.
    pub fn set_l(&mut self, l: T) -> (this: &mut Self)
        ensures
            this@ == (l, old(self)@.1, old(self)@.2),
            *final(self) == *final(this),
    {
        self.lightness = l;
        self
    }

    /// Replaces the a axis channel in place; returns `self` for chaining.
    pub fn set_ax(&mut self, ax: T) -> (this: &mut Self)
        ensures
            this@ == (old(self)@.0, ax, old(self)@.2),
            *final(self) == *final(this),
    {
        self.a_axis = ax;
        self
    }

    /// Replaces the b axis channel in place; returns `self` for chaining.
    pub fn set_bx(&mut self, bx: T) -> (this: &mut Self)
        ensures
            this@ == (old(self)@.0, old(self)@.1, bx),
            *final(self) == *final(this),
    {
        self.b_axis = bx;
        self
    }
}

} // verus!
