//! A color as hue, saturation and value, with one channel of type `T` each.
use vstd::prelude::*;

verus! {

/// A color as hue, saturation and value: `hue`, `saturation` and `value`.
pub struct HSV<T> {
    hue: T,
    saturation: T,
    value: T,
}

impl<T> View for HSV<T> {
    type V = (T, T, T);

    closed spec fn view(&self) -> (T, T, T) {
        (self.hue, self.saturation, self.value)
    }
}

impl<T: Copy> HSV<T> {
    /// The color with the given channels.
    pub fn new(hue: T, saturation: T, value: T) -> (r: Self)
        ensures
            r@ == (hue, saturation, value),
    {
        Self { hue, saturation, value }
    }

    /// The hue channel.
    pub fn h(&self) -> (r: T)
        ensures
            r == self@.0,
    {
        self.hue
    }

    /// The same color with the hue channel replaced.
    pub fn with_h(self, hue: T) -> (r: Self)
        ensures
            r@ == (hue, self@.1, self@.2),
    {
        Self { hue, ..self }
    }

    /// The saturation channel.
    pub fn s(&self) -> (r: T)
        ensures
            r == self@.1,
    {
        self.saturation
    }

    /// The same color with the saturation channel replaced.
    pub fn with_s(self, saturation: T) -> (r: Self)
        ensures
            r@ == (self@.0, saturation, self@.2),
    {
        Self { saturation, ..self }
    }

    /// The value channel.
    pub fn v(&self) -> (r: T)
        ensures
            r == self@.2,
    {
        self.value
    }

    /// The same color with the value channel replaced.
    pub fn with_v(self, value: T) -> (r: Self)
        ensures
            r@ == (self@.0, self@.1, value),
    {
        Self { value, ..self }
    }

    /// Replaces the hue channel in place; returns `self` for chaining.
    pub fn set_h(&mut self, h: T) -> (this: &mut Self)
        ensures
            this@ == (h, old(self)@.1, old(self)@.2),
            *final(self) == *final(this),
    {
        self.hue = h;
        self
    }

    /// Replaces the saturation channel in place; returns `self` for chaining.
    pub fn set_s(&mut self, s: T) -> (this: &mut Self)
        ensures
            this@ == (old(self)@.0, s, old(self)@.2),
            *final(self) == *final(this),
    {
        self.saturation = s;
        self
    }

    /// Replaces the value channel in place; returns `self` for chaining.
    pub fn set_v(&mut self, v: T) -> (this: &mut Self)
        ensures
            this@ == (old(self)@.0, old(self)@.1, v),
            *final(self) == *final(this),
    {
        self.value = v;
        self
    }
}

} // verus!
