//! Kinds of particles and their fixed properties.

use vstd::prelude::*;

verus! {

/// The kind of a particle. Each kind fixes the charge, the mass, the radius
/// and the number of bonds that a particle of this kind can hold.
#[derive(Debug, Clone, Copy, PartialEq, Eq, Structural)]
pub enum Element {
    Hydrogen,
    Carbon,
    Nitrogen,
    Oxygen,
    Sodium,
    Chlorine,
}

impl Element {
    /// The valence of each kind.
    pub open spec fn valence(self) -> nat {
        match self {
            Element::Hydrogen => 1,
            Element::Carbon => 4,
            Element::Nitrogen => 3,
            Element::Oxygen => 2,
            Element::Sodium => 1,
            Element::Chlorine => 1,
        }
    }

    /// The charge of each kind, in elementary charges.
    pub open spec fn charge_units(self) -> int {
        match self {
            Element::Sodium => 1,
            Element::Chlorine => -1,
            _ => 0,
        }
    }

    /// The mass of each kind, in tenths of a mass unit.
    pub open spec fn mass_in_tenths(self) -> nat {
        match self {
            Element::Hydrogen => 10,
            Element::Carbon => 120,
            Element::Nitrogen => 140,
            Element::Oxygen => 160,
            Element::Sodium => 230,
            Element::Chlorine => 355,
        }
    }

    /// The radius of each kind, in hundredths of a length unit.
    pub open spec fn radius_in_hundredths(self) -> nat {
        match self {
            Element::Hydrogen => 25,
            Element::Carbon => 35,
            Element::Nitrogen => 32,
            Element::Oxygen => 30,
            Element::Sodium => 45,
            Element::Chlorine => 40,
        }
    }

    /// The chemical symbol of each kind.
    pub open spec fn symbol_text(self) -> Seq<char> {
        match self {
            Element::Hydrogen => "H"@,
            Element::Carbon => "C"@,
            Element::Nitrogen => "N"@,
            Element::Oxygen => "O"@,
            Element::Sodium => "Na"@,
            Element::Chlorine => "Cl"@,
        }
    }

    /// Charge in elementary charges: +1 for the sodium ion, -1 for the
    /// chlorine ion, 0 for every neutral kind.
    pub fn charge(&self) -> (q: i32)
        ensures
            q == self.charge_units(),
    {
        match self {
            Element::Sodium => 1,
            Element::Chlorine => -1,
            _ => 0,
        }
    }

    /// Mass in tenths of a mass unit (chlorine weighs 35.5 units).
    pub fn mass_tenths(&self) -> (m: u32)
        ensures
            m == self.mass_in_tenths(),
            m > 0,
    {
        match self {
            Element::Hydrogen => 10,
            Element::Carbon => 120,
            Element::Nitrogen => 140,
            Element::Oxygen => 160,
            Element::Sodium => 230,
            Element::Chlorine => 355,
        }
    }

    /// Radius in hundredths of a length unit.
    pub fn radius_hundredths(&self) -> (r: u32)
        ensures
            r == self.radius_in_hundredths(),
            r > 0,
    {
        match self {
            Element::Hydrogen => 25,
            Element::Carbon => 35,
            Element::Nitrogen => 32,
            Element::Oxygen => 30,
            Element::Sodium => 45,
            Element::Chlorine => 40,
        }
    }

    /// The largest number of bonds that a particle of this kind can hold.
    pub fn max_bonds(&self) -> (n: usize)
        ensures
            n == self.valence(),
            1 <= n <= 4,
    {
        match self {
            Element::Hydrogen => 1,
            Element::Carbon => 4,
            Element::Nitrogen => 3,
            Element::Oxygen => 2,
            Element::Sodium => 1,
            Element::Chlorine => 1,
        }
    }

    /// The chemical symbol.
    pub fn symbol(&self) -> (s: &'static str)
        ensures
            s@ == self.symbol_text(),
    {
        match self {
            Element::Hydrogen => "H",
            Element::Carbon => "C",
            Element::Nitrogen => "N",
            Element::Oxygen => "O",
            Element::Sodium => "Na",
            Element::Chlorine => "Cl",
        }
    }

    /// Whether two kinds carry charges of the same sign, both nonzero.
    pub open spec fn repels(self, other: Element) -> bool {
        self.charge_units() * other.charge_units() > 0
    }

    /// Tells whether two kinds carry charges of the same sign, both nonzero.
    /// Such kinds never bond.
    pub fn same_sign(&self, other: &Element) -> (b: bool)
        ensures
            b == self.repels(*other),
    {
        let p: i32 = self.charge() * other.charge();
        p > 0
    }
}

} // verus!
