//! The names of the three slots of a colour or a vector.
//!
//! A triple of numbers serves as a point, a direction and a colour alike.
//! [`Axis`] names its slots for geometry and [`Channel`] names them for
//! colour: `X` and `R` are the first slot, `Y` and `G` the second, `Z` and
//! `B` the third.

use vstd::prelude::*;

verus! {

/// A colour channel.
#[derive(Clone, Copy, PartialEq, Eq, Debug, Structural)]
pub enum Channel {
    R,
    G,
    B,
}

/// A coordinate axis.
#[derive(Clone, Copy, PartialEq, Eq, Debug, Structural)]
pub enum Axis {
    X,
    Y,
    Z,
}

impl Channel {
    /// The position of the channel's slot in a triple.
    pub open spec fn slot(self) -> int {
        match self {
            Channel::R => 0,
            Channel::G => 1,
            Channel::B => 2,
        }
    }

    /// The position of the channel's slot in a triple.
    pub fn index(self) -> (i: usize)
        ensures
            i == self.slot(),
    {
        match self {
            Channel::R => 0,
            Channel::G => 1,
            Channel::B => 2,
        }
    }

    /// The component of the triple `(first, second, third)` that the channel
    /// names.
    pub fn of<'a, T>(self, first: &'a T, second: &'a T, third: &'a T) -> (component: &'a T)
        ensures
            component == seq![first, second, third][self.slot()],
    {
        match self {
            Channel::R => first,
            Channel::G => second,
            Channel::B => third,
        }
    }
}

impl Axis {
    /// The position of the axis' slot in a triple.
    pub open spec fn slot(self) -> int {
        match self {
            Axis::X => 0,
            Axis::Y => 1,
            Axis::Z => 2,
        }
    }

    /// The position of the axis' slot in a triple.
    pub fn index(self) -> (i: usize)
        ensures
            i == self.slot(),
    {
        match self {
            Axis::X => 0,
            Axis::Y => 1,
            Axis::Z => 2,
        }
    }

    /// The component of the triple `(first, second, third)` that the axis
    /// names.
    pub fn of<'a, T>(self, first: &'a T, second: &'a T, third: &'a T) -> (component: &'a T)
        ensures
            component == seq![first, second, third][self.slot()],
    {
        match self {
            Axis::X => first,
            Axis::Y => second,
            Axis::Z => third,
        }
    }
}

/// The two sets of names are names for the same three slots, in the same
/// order.
pub proof fn lemma_axes_and_channels_share_slots()
    ensures
        Axis::X.slot() == Channel::R.slot() == 0,
        Axis::Y.slot() == Channel::G.slot() == 1,
        Axis::Z.slot() == Channel::B.slot() == 2,
{
}

} // verus!
