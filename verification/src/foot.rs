//! The two feet, as a closed tag type with a total "other side" operation.

use vstd::prelude::*;

verus! {

/// Which foot acts. `Left` and `Right` are the only values; the generator
/// indexes its per-foot state by this tag.
#[derive(Copy, Clone, Debug, Eq, PartialEq, Structural)]
pub enum Foot {
    Left,
    Right,
}

impl Foot {
    /// The opposite foot: `Left` and `Right` exchange places.
    pub fn other(&self) -> (r: Self)
        ensures
            r == self.spec_other(),
    {
        match self {
            Foot::Left => Foot::Right,
            Foot::Right => Foot::Left,
        }
    }

    /// What `other` returns.
    pub open spec fn spec_other(self) -> Self {
        match self {
            Foot::Left => Foot::Right,
            Foot::Right => Foot::Left,
        }
    }
}

} // verus!
