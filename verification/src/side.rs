use vstd::prelude::*;

verus! {

/// One of the two output branches of a partition. Each consumer-facing
/// handle carries a fixed side identity; the classifying predicate's verdict
/// `true` routes an item to `Left`, `false` to `Right`.
#[derive(Clone, Copy, PartialEq, Eq, Structural, Debug)]
pub enum Side {
    Left,
    Right,
}

impl Side {
    /// The opposite branch.
    pub open spec fn spec_other(self) -> Side {
        match self {
            Side::Left => Side::Right,
            Side::Right => Side::Left,
        }
    }

    /// The opposite branch.
    #[verifier::when_used_as_spec(spec_other)]
    pub fn other(self) -> (r: Side)
        ensures
            r == self.spec_other(),
    {
        match self {
            Side::Left => Side::Right,
            Side::Right => Side::Left,
        }
    }

    /// Whether an item classified `to_left` belongs to this side.
    pub open spec fn spec_accepts(self, to_left: bool) -> bool {
        to_left == (self == Side::Left)
    }

    /// Whether an item classified `to_left` belongs to this side.
    #[verifier::when_used_as_spec(spec_accepts)]
    pub fn accepts(self, to_left: bool) -> (r: bool)
        ensures
            r == self.spec_accepts(to_left),
    {
        match self {
            Side::Left => to_left,
            Side::Right => !to_left,
        }
    }
}

} // verus!
