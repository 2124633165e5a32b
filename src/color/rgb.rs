//! A color in linear RGB, with one channel of type `T` each.
use vstd::prelude::*;

verus! {

/// A color in linear RGB: `red`, `green` and `blue`.
pub struct RGB<T> {
    red: T,
    green: T,
    blue: T,
}

impl<T> View for RGB<T> {
    type V = (T, T, T);

    closed spec fn view(&self) -> (T, T, T) {
        (self.red, self.green, self.blue)
    }
}

impl<T: Copy> RGB<T> {
    /// The color with the given channels.
    pub fn new(red: T, green: T, blue: T) -> (r: Self)
        ensures
            r@ == (red, green, blue),
    {
        Self { red, green, blue }
    }

    /// The red channel.
    pub fn r(&self) -> (r: T)
        ensures
            r == self@.0,
    {
        self.red
    }

    /// The same color with the red channel replaced.
    pub fn with_r(self, red: T) -> (r: Self)
        ensures
            r@ == (red, self@.1, self@.2),
    {
        Self { red, ..self }
    }

    /// The green channel.
    pub fn g(&self) -> (r: T)
        ensures
            r == self@.1,
    {
        self.green
    }

    /// The same color with the green channel replaced.
    pub fn with_g(self, green: T) -> (r: Self)
        ensures
            r@ == (self@.0, green, self@.2),
    {
        Self { green, ..self }
    }

    /// The blue channel.
    pub fn b(&self) -> (r: T)
        ensures
            r == self@.2,
    {
        self.blue
    }

    /// The same color with the blue channel replaced.
    pub fn with_b(self, blue: T) -> (r: Self)
        ensures
            r@ == (self@.0, self@.1, blue),
    {
        Self { blue, ..self }
    }

    /// Replaces the red channel in place; returns `self` for chaining.
    pub fn set_r(&mut self, r: T) -> (this: &mut Self)
        ensures
            this@ == (r, old(self)@.1, old(self)@.2),
            *final(self) == *final(this),
    {
        self.red = r;
        self
    }

    /// Replaces the green channel in place; returns `self` for chaining.
    pub fn set_g(&mut self, g: T) -> (this: &mut Self)
        ensures
            this@ == (old(self)@.0, g, old(self)@.2),
            *final(self) == *final(this),
    {
        self.green = g;
        self
    }

    /// Replaces the blue channel in place; returns `self` for chaining.
    pub fn set_b(&mut self, b: T) -> (this: &mut Self)
        ensures
            this@ == (old(self)@.0, old(self)@.1, b),
            *final(self) == *final(this),
    {
        self.blue = b;
        self
    }
}

} // verus!
