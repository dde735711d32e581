//! The record that the store keeps of each particle.

use vstd::prelude::*;
use crate::element::Element;

verus! {

/// A particle: its kind, the indices of its bonded partners (oldest bond
/// first) and the identity that it was given when it was made.
#[derive(Debug, Clone)]
pub struct Atom {
    pub element: Element,
    pub bonds: Vec<usize>,
    pub id: usize,
}

impl Atom {
    /// A particle of kind `element` with identity `id` and no bond.
    pub fn new(element: Element, id: usize) -> (atom: Atom)
        ensures
            atom.element == element,
            atom.id == id,
            atom.bonds@ == Seq::<usize>::empty(),
    {
        Atom { element, bonds: Vec::new(), id }
    }

    /// Charge of the particle's kind, in elementary charges.
    pub fn charge(&self) -> (q: i32)
        ensures
            q == self.element.charge_units(),
    {
        self.element.charge()
    }

    /// Mass of the particle's kind, in tenths of a mass unit.
    pub fn mass_tenths(&self) -> (m: u32)
        ensures
            m == self.element.mass_in_tenths(),
    {
        self.element.mass_tenths()
    }

    /// Radius of the particle's kind, in hundredths of a length unit.
    pub fn radius_hundredths(&self) -> (r: u32)
        ensures
            r == self.element.radius_in_hundredths(),
    {
        self.element.radius_hundredths()
    }

    /// Tells whether the particle holds fewer bonds than its kind allows.
    pub fn can_bond(&self) -> (free: bool)
        ensures
            free == (self.bonds@.len() < self.element.valence()),
    {
        self.bonds.len() < self.element.max_bonds()
    }
}

} // verus!
