//! Direction in which the media of an m-line flows.

use vstd::prelude::*;

verus! {

/// Media direction, as seen from this side.
#[derive(Debug, Clone, Copy, PartialEq, Eq, Hash, Structural)]
pub enum Direction {
    /// Only sending.
    SendOnly,
    /// Only receiving.
    RecvOnly,
    /// Sending and receiving.
    SendRecv,
    /// Neither.
    Inactive,
}

impl Direction {
    /// Whether media flows from this side to the other.
    pub open spec fn sending(self) -> bool {
        self is SendOnly || self is SendRecv
    }

    /// Whether media flows from the other side to this one.
    pub open spec fn receiving(self) -> bool {
        self is RecvOnly || self is SendRecv
    }

    /// The direction as seen from the other side: sending and receiving change places.
    pub open spec fn inverted(self) -> Direction {
        match self {
            Direction::SendOnly => Direction::RecvOnly,
            Direction::RecvOnly => Direction::SendOnly,
            d => d,
        }
    }

    pub fn is_sending(self) -> (r: bool)
        ensures
            r == self.sending(),
    {
        match self {
            Direction::SendOnly | Direction::SendRecv => true,
            _ => false,
        }
    }

    pub fn is_receiving(self) -> (r: bool)
        ensures
            r == self.receiving(),
    {
        match self {
            Direction::RecvOnly | Direction::SendRecv => true,
            _ => false,
        }
    }

    pub fn invert(self) -> (r: Direction)
        ensures
            r == self.inverted(),
    {
        match self {
            Direction::SendOnly => Direction::RecvOnly,
            Direction::RecvOnly => Direction::SendOnly,
            Direction::SendRecv => Direction::SendRecv,
            Direction::Inactive => Direction::Inactive,
        }
    }
}

} // verus!
