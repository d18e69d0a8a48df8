//! The directions in which an edge can move across an area.

use vstd::prelude::*;

verus! {

/// The direction of a motion across an area.
#[derive(Clone, Copy, Debug, PartialEq, Eq, Structural, Hash)]
pub enum Motion {
    LeftToRight,
    RightToLeft,
    UpToDown,
    DownToUp,
}

impl Motion {
    /// The opposite direction.
    pub open spec fn opposite(self) -> Motion {
        match self {
            Motion::LeftToRight => Motion::RightToLeft,
            Motion::RightToLeft => Motion::LeftToRight,
            Motion::UpToDown => Motion::DownToUp,
            Motion::DownToUp => Motion::UpToDown,
        }
    }

    /// Whether the motion runs along the rows.
    pub open spec fn horizontal(self) -> bool {
        self is LeftToRight || self is RightToLeft
    }

    /// Whether the motion runs against the order of the coordinates: towards the left, or
    /// upwards.
    pub open spec fn backwards(self) -> bool {
        self is RightToLeft || self is DownToUp
    }

    /// The opposite direction.
    pub fn flipped(&self) -> (m: Motion)
        ensures
            m == self.opposite(),
    {
        match self {
            Motion::LeftToRight => Motion::RightToLeft,
            Motion::RightToLeft => Motion::LeftToRight,
            Motion::UpToDown => Motion::DownToUp,
            Motion::DownToUp => Motion::UpToDown,
        }
    }

    /// Whether the motion runs along the rows.
    pub fn is_horizontal(&self) -> (r: bool)
        ensures
            r == self.horizontal(),
    {
        match self {
            Motion::LeftToRight | Motion::RightToLeft => true,
            Motion::UpToDown | Motion::DownToUp => false,
        }
    }

    /// Whether the motion runs towards the left or upwards. An effect whose edge always
    /// enters from the left or from the top shows such a motion with its timer turned
    /// round.
    pub fn flips_timer(&self) -> (r: bool)
        ensures
            r == self.backwards(),
    {
        match self {
            Motion::RightToLeft | Motion::DownToUp => true,
            Motion::LeftToRight | Motion::UpToDown => false,
        }
    }

    /// The opposite of the opposite direction is the direction itself, and it runs along
    /// the same lines the other way.
    pub proof fn lemma_opposite(self)
        ensures
            self.opposite().opposite() == self,
            self.opposite().horizontal() == self.horizontal(),
            self.opposite().backwards() == !self.backwards(),
    {
    }
}

} // verus!
