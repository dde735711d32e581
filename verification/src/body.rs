//! Kinds of celestial bodies.

use vstd::prelude::*;

verus! {

/// What a body of the solar system is.
#[derive(Debug, Clone, Copy, PartialEq, Eq, Structural)]
pub enum BodyType {
    Star,
    Planet,
    DwarfPlanet,
    Moon,
    Asteroid,
    BlackHole,
    Spaceship,
}

} // verus!
