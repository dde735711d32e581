//! Bonds: the edges of the bond graph.

use vstd::prelude::*;

verus! {

/// A bond between two particles, named by their indices in the store.
/// The two ends are unordered: a bond from `a` to `b` joins `b` and `a` too.
#[derive(Debug, Clone, Copy)]
pub struct Bond {
    pub atom_a: usize,
    pub atom_b: usize,
    /// 1 for a single bond, 2 for a double bond, 3 for a triple bond.
    pub order: u8,
}

impl Bond {
    /// Whether this bond joins the unordered pair of `a` and `b`.
    pub open spec fn joins(self, a: int, b: int) -> bool {
        (self.atom_a == a && self.atom_b == b) || (self.atom_a == b && self.atom_b == a)
    }

    /// A single bond between `atom_a` and `atom_b`.
    pub fn new(atom_a: usize, atom_b: usize) -> (bond: Bond)
        ensures
            bond == (Bond { atom_a, atom_b, order: 1 }),
    {
        Bond { atom_a, atom_b, order: 1 }
    }

    /// Tells whether this bond joins the unordered pair of `a` and `b`.
    pub fn connects(&self, a: usize, b: usize) -> (yes: bool)
        ensures
            yes == self.joins(a as int, b as int),
    {
        (self.atom_a == a && self.atom_b == b) || (self.atom_a == b && self.atom_b == a)
    }
}

} // verus!
