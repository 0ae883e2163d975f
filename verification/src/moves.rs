//! Moves as pairs of squares.

use vstd::prelude::*;
use vstd::std_specs::convert::FromSpecImpl;
use crate::square::Square;

verus! {

/// A move from one square to another. Whether it can be played is not
/// recorded.
#[derive(PartialEq, Eq, Clone, Copy, Debug, Structural)]
pub struct Move {
    source: Square,
    target: Square,
}

impl Move {
    /// The square that the piece leaves.
    pub closed spec fn spec_source(&self) -> Square {
        self.source
    }

    /// The square that the piece reaches.
    pub closed spec fn spec_target(&self) -> Square {
        self.target
    }

    /// The square that the piece leaves.
    #[verifier::when_used_as_spec(spec_source)]
    pub fn source(&self) -> (r: Square)
        ensures
            r == self.spec_source(),
    {
        self.source
    }

    /// The square that the piece reaches.
    #[verifier::when_used_as_spec(spec_target)]
    pub fn target(&self) -> (r: Square)
        ensures
            r == self.spec_target(),
    {
        self.target
    }

    /// The two squares of the move, the source first.
    pub fn as_pair(&self) -> (r: (Square, Square))
        ensures
            r == (self.spec_source(), self.spec_target()),
    {
        (self.source(), self.target())
    }
}

impl From<(Square, Square)> for Move {
    /// The move from the first square of the pair to the second.
    fn from(value: (Square, Square)) -> (r: Self)
        ensures
            r.spec_source() == value.0,
            r.spec_target() == value.1,
    {
        Self { source: value.0, target: value.1 }
    }
}

impl FromSpecImpl<(Square, Square)> for Move {
    /// The conversion does what its spec function says.
    /// What the conversion gives.
    open spec fn obeys_from_spec() -> bool {
        true
    }

    /// What the conversion gives.
    closed spec fn from_spec(v: (Square, Square)) -> Self {
        Move { source: v.0, target: v.1 }
    }
}

} // verus!
