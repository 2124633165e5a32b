//! A color as CIE lightness, chroma and hue, with one channel of type `T` each.
use vstd::prelude::*;

verus! {

/// A color as CIE lightness, chroma and hue: `lightness`, `chroma` and `hue`.
pub struct LCH<T> {
    lightness: T,
    chroma: T,
    hue: T,
}

impl<T> View for LCH<T> {
    type V = (T, T, T);

    closed spec fn view(&self) -> (T, T, T) {
        (self.lightness, self.chroma, self.hue)
    }
}

impl<T: Copy> LCH<T> {
    /// The color with the given channels.
    pub fn new(lightness: T, chroma: T, hue: T) -> (r: Self)
        ensures
            r@ == (lightness, chroma, hue),
    {
        Self { lightness, chroma, hue }
    }

    /// The lightness channel.
    pub fn l(&self) -> (r: T)
        ensures
            r == self@.0,
    {
        self.lightness
    }

    /// The same color with the lightness channel replaced.
    pub fn with_l(self, lightness: T) -> (r: Self)
        ensures
            r@ == (lightness, self@.1, self@.2),
    {
        Self { lightness, ..self }
    }

    /// The chroma channel.
    pub fn c(&self) -> (r: T)
        ensures
            r == self@.1,
    {
        self.chroma
    }

    /// The same color with the chroma channel replaced.
    pub fn with_c(self, chroma: T) -> (r: Self)
        ensures
            r@ == (self@.0, chroma, self@.2),
    {
        Self { chroma, ..self }
    }

    /// The hue channel.
    pub fn h(&self) -> (r: T)
        ensures
            r == self@.2,
    {
        self.hue
    }

    /// The same color with the hue channel replaced.
    pub fn with_h(self, hue: T) -> (r: Self)
        ensures
            r@ == (self@.0, self@.1, hue),
    {
        Self { hue, ..self }
    }

    /// Replaces the lightness channel in place; returns `self` for chaining.
    pub fn set_l(&mut self, l: T) -> (this: &mut Self)
        ensures
            this@ == (l, old(self)@.1, old(self)@.2),
            *final(self) == *final(this),
    {
        self.lightness = l;
        self
    }

    /// Replaces the chroma channel in place; returns `self` for chaining.
    pub fn set_c(&mut self, c: T) -> (this: &mut Self)
        ensures
            this@ == (old(self)@.0, c, old(self)@.2),
            *final(self) == *final(this),
    {
        self.chroma = c;
        self
    }

    /// Replaces the hue channel in place; returns `self` for chaining.
    pub fn set_h(&mut self, h: T) -> (this: &mut Self)
        ensures
            this@ == (old(self)@.0, old(self)@.1, h),
            *final(self) == *final(this),
    {
        self.hue = h;
        self
    }
}

} // verus!
