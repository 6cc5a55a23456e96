//! The integer side of the host typeface rasterizer: weight classes, canvas
//! widths, and line alignment.

use vstd::prelude::*;

use crate::PRINTABLE_DOTS;

verus! {

/// CSS weight class. Only used when querying the system font database.
#[derive(Debug, Clone, Copy, PartialEq, Eq, Structural)]
pub struct Weight(pub u16);

impl Weight {
    pub fn regular() -> (w: Weight)
        ensures
            w == Weight(400),
    {
        Weight(400)
    }

    pub fn medium() -> (w: Weight)
        ensures
            w == Weight(500),
    {
        Weight(500)
    }

    pub fn semibold() -> (w: Weight)
        ensures
            w == Weight(600),
    {
        Weight(600)
    }

    pub fn bold() -> (w: Weight)
        ensures
            w == Weight(700),
    {
        Weight(700)
    }
}

/// Non-zero canvas width in dots.
#[derive(Debug, Clone, Copy, PartialEq, Eq, Structural)]
pub struct Dots(u16);

impl Dots {
    #[verifier::type_invariant]
    spec fn nonzero(self) -> bool {
        self.0 > 0
    }

    pub closed spec fn view(self) -> u16 {
        self.0
    }

    /// The full printable width of the tape.
    pub fn tape() -> (d: Self)
        ensures
            d@ == PRINTABLE_DOTS,
    {
        Dots(PRINTABLE_DOTS)
    }

    pub fn new(n: u16) -> (r: Option<Self>)
        ensures
            n == 0 ==> r is None,
            n > 0 ==> (r matches Some(d) && d@ == n),
    {
        if n == 0 {
            None
        } else {
            Some(Dots(n))
        }
    }

    pub fn get(self) -> (n: u16)
        ensures
            n == self@,
            n > 0,
    {
        proof {
            use_type_invariant(&self);
        }
        self.0
    }
}

#[derive(Debug, Clone, Copy, PartialEq, Eq, Structural)]
pub enum Align {
    Left,
    Center,
    Right,
}

} // verus!
