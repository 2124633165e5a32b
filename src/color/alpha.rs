//! A color paired with an alpha channel.
use vstd::prelude::*;

verus! {

/// A color of type `C` with an alpha channel of type `T`.
pub struct Transparent<C, T> {
    color: C,
    alpha: T,
}

impl<C, T> View for Transparent<C, T> {
    type V = (C, T);

    closed spec fn view(&self) -> (C, T) {
        (self.color, self.alpha)
    }
}

impl<C, T: Copy> Transparent<C, T> {
    /// `color` with alpha `alpha`.
    pub fn new(color: C, alpha: T) -> (r: Self)
        ensures
            r@ == (color, alpha),
    {
        Self { color, alpha }
    }

    /// The alpha channel.
    pub fn a(&self) -> (r: T)
        ensures
            r == self@.1,
    {
        self.alpha
    }

    /// The same color with the alpha channel replaced.
    pub fn with_a(self, a: T) -> (r: Self)
        ensures
            r@ == (self@.0, a),
    {
        let mut this = self;
        this.alpha = a;
        this
    }

    /// Replaces the alpha channel in place; returns `self` for chaining.
    pub fn set_a(&mut self, a: T) -> (this: &mut Self)
        ensures
            this@ == (old(self)@.0, a),
            *final(self) == *final(this),
    {
        self.alpha = a;
        self
    }

    /// The color without its alpha channel.
    pub fn color(self) -> (r: C)
        ensures
            r == self@.0,
    {
        self.color
    }

    /// The same alpha with the color replaced.
    pub fn with_color(self, color: C) -> (r: Self)
        ensures
            r@ == (color, self@.1),
    {
        let mut this = self;
        this.color = color;
        this
    }

    /// Replaces the color in place; returns `self` for chaining.
    pub fn set_color(&mut self, color: C) -> (this: &mut Self)
        ensures
            this@ == (color, old(self)@.1),
            *final(self) == *final(this),
    {
        self.color = color;
        self
    }
}

impl<C, T> std::ops::Deref for Transparent<C, T> {
    type Target = C;

    fn deref(&self) -> &C {
        &self.color
    }
}

impl<C, T> std::ops::DerefMut for Transparent<C, T> {
    fn deref_mut(&mut self) -> &mut C {
        &mut self.color
    }
}

} // verus!
