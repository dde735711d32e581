//! Colour charge, flavours of quarks and kinds of hadrons.

use vstd::prelude::*;

verus! {

/// The colour charge of a quark or an antiquark.
#[derive(Debug, Clone, Copy, PartialEq, Eq, Structural)]
pub enum ColorCharge {
    Red,
    Green,
    Blue,
    AntiRed,
    AntiGreen,
    AntiBlue,
}

impl ColorCharge {
    /// The opposite colour.
    pub open spec fn opposite(self) -> ColorCharge {
        match self {
            ColorCharge::Red => ColorCharge::AntiRed,
            ColorCharge::Green => ColorCharge::AntiGreen,
            ColorCharge::Blue => ColorCharge::AntiBlue,
            ColorCharge::AntiRed => ColorCharge::Red,
            ColorCharge::AntiGreen => ColorCharge::Green,
            ColorCharge::AntiBlue => ColorCharge::Blue,
        }
    }

    /// The anticolour of a colour, and the colour of an anticolour.
    pub fn anti(&self) -> (c: ColorCharge)
        ensures
            c == self.opposite(),
    {
        match self {
            ColorCharge::Red => ColorCharge::AntiRed,
            ColorCharge::Green => ColorCharge::AntiGreen,
            ColorCharge::Blue => ColorCharge::AntiBlue,
            ColorCharge::AntiRed => ColorCharge::Red,
            ColorCharge::AntiGreen => ColorCharge::Green,
            ColorCharge::AntiBlue => ColorCharge::Blue,
        }
    }

    /// Tells whether the two colours cancel: one is the opposite of the
    /// other.
    pub fn neutralizes(&self, other: &ColorCharge) -> (yes: bool)
        ensures
            yes == (*other == self.opposite()),
    {
        match (self, other) {
            (ColorCharge::Red, ColorCharge::AntiRed) => true,
            (ColorCharge::AntiRed, ColorCharge::Red) => true,
            (ColorCharge::Green, ColorCharge::AntiGreen) => true,
            (ColorCharge::AntiGreen, ColorCharge::Green) => true,
            (ColorCharge::Blue, ColorCharge::AntiBlue) => true,
            (ColorCharge::AntiBlue, ColorCharge::Blue) => true,
            _ => false,
        }
    }
}

/// Taking the opposite twice gives the colour back, and no colour is its
/// own opposite.
pub proof fn law_opposite_involution(c: ColorCharge)
    ensures
        c.opposite().opposite() == c,
        c.opposite() != c,
{
}

/// The flavour of a quark.
#[derive(Debug, Clone, Copy, PartialEq, Eq, Structural)]
pub enum QuarkFlavor {
    Up,
    Down,
    Charm,
    Strange,
    Top,
    Bottom,
}

impl QuarkFlavor {
    /// Whether the flavour is of the up type.
    pub open spec fn up_type(self) -> bool {
        self == QuarkFlavor::Up || self == QuarkFlavor::Charm || self == QuarkFlavor::Top
    }

    /// The symbol of each flavour.
    pub open spec fn symbol_text(self) -> Seq<char> {
        match self {
            QuarkFlavor::Up => "u"@,
            QuarkFlavor::Down => "d"@,
            QuarkFlavor::Charm => "c"@,
            QuarkFlavor::Strange => "s"@,
            QuarkFlavor::Top => "t"@,
            QuarkFlavor::Bottom => "b"@,
        }
    }

    /// Electric charge in thirds of the elementary charge: 2 for the up
    /// type, -1 for the down type.
    pub fn charge_thirds(&self) -> (q: i32)
        ensures
            q == if self.up_type() { 2int } else { -1int },
    {
        match self {
            QuarkFlavor::Up | QuarkFlavor::Charm | QuarkFlavor::Top => 2,
            QuarkFlavor::Down | QuarkFlavor::Strange | QuarkFlavor::Bottom => -1,
        }
    }

    /// The symbol of the flavour.
    pub fn symbol(&self) -> (s: &'static str)
        ensures
            s@ == self.symbol_text(),
    {
        match self {
            QuarkFlavor::Up => "u",
            QuarkFlavor::Down => "d",
            QuarkFlavor::Charm => "c",
            QuarkFlavor::Strange => "s",
            QuarkFlavor::Top => "t",
            QuarkFlavor::Bottom => "b",
        }
    }
}

/// The kind of a hadron.
#[derive(Debug, Clone, Copy, PartialEq, Eq, Structural)]
pub enum HadronType {
    Proton,
    Neutron,
    PionPlus,
    PionMinus,
    PionZero,
    Kaon,
    Jpsi,
}

impl HadronType {
    /// The name of each kind.
    pub open spec fn name_text(self) -> Seq<char> {
        match self {
            HadronType::Proton => "Proton"@,
            HadronType::Neutron => "Neutron"@,
            HadronType::PionPlus => "π+"@,
            HadronType::PionMinus => "π-"@,
            HadronType::PionZero => "π0"@,
            HadronType::Kaon => "K"@,
            HadronType::Jpsi => "J/ψ"@,
        }
    }

    /// The name of the kind.
    pub fn name(&self) -> (s: &'static str)
        ensures
            s@ == self.name_text(),
    {
        match self {
            HadronType::Proton => "Proton",
            HadronType::Neutron => "Neutron",
            HadronType::PionPlus => "π+",
            HadronType::PionMinus => "π-",
            HadronType::PionZero => "π0",
            HadronType::Kaon => "K",
            HadronType::Jpsi => "J/ψ",
        }
    }
}

} // verus!
