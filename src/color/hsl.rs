//! A color as hue, saturation and lightness, with one channel of type `T` each.
use vstd::prelude::*;

verus! {

/// A color as hue, saturation and lightness: `hue`, `saturation` and `lightness`.
pub struct HSL<T> {
    hue: T,
    saturation: T,
    lightness: T,
}

impl<T> View for HSL<T> {
    type V = (T, T, T);

    closed spec fn view(&self) -> (T, T, T) {
        (self.hue, self.saturation, self.lightness)
    }
}

impl<T: Copy> HSL<T> {
    /// The color with the given channels.
    pub fn new(hue: T, saturation: T, lightness: T) -> (r: Self)
        ensures
            r@ == (hue, saturation, lightness),
    {
        Self { hue, saturation, lightness }
    }

    /// The hue channel.
    pub fn h(&self) -> (r: T)
        ensures
            r == self@.0,
    {
        self.hue
    }

    /// The same color with the hue channel replaced.
    pub fn with_h(self, hue: T) -> (r: Self)
        ensures
            r@ == (hue, self@.1, self@.2),
    {
        Self { hue, ..self }
    }

    /// The saturation channel.
    pub fn s(&self) -> (r: T)
        ensures
            r == self@.1,
    {
        self.saturation
    }

    /// The same color with the saturation channel replaced.
    pub fn with_s(self, saturation: T) -> (r: Self)
        ensures
            r@ == (self@.0, saturation, self@.2),
    {
        Self { saturation, ..self }
    }

    /// The lightness channel.
    pub fn l(&self) -> (r: T)
        ensures
            r == self@.2,
    {
        self.lightness
    }

    /// The same color with the lightness channel replaced.
    pub fn with_l(self, lightness: T) -> (r: Self)
        ensures
            r@ == (self@.0, self@.1, lightness),
    {
        Self { lightness, ..self }
    }

    /// Replaces the hue channel in place; returns `self` for chaining.
    pub fn set_h(&mut self, h: T) -> (this: &mut Self)
        ensures
            this@ == (h, old(self)@.1, old(self)@.2),
            *final(self) == *final(this),
    {
        self.hue = h;
        self
    }

    /// Replaces the saturation channel in place; returns `self` for chaining.
    pub fn set_s(&mut self, s: T) -> (this: &mut Self)
        ensures
            this@ == (old(self)@.0, s, old(self)@.2),
            *final(self) == *final(this),
    {
        self.saturation = s;
        self
    }

    /// Replaces the lightness channel in place; returns `self` for chaining.
    pub fn set_l(&mut self, l: T) -> (this: &mut Self)
        ensures
            this@ == (old(self)@.0, old(self)@.1, l),
            *final(self) == *final(this),
    {
        self.lightness = l;
        self
    }
}

} // verus!
