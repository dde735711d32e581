//! Store and bond graph of a particle-interaction engine.
//!
//! The crate keeps the discrete half of the engine: the kinds of particles
//! and their fixed properties, the particle store with its identity counter,
//! and the graph of bonds between particles with its valence rule. Every
//! function states what it does over a mathematical model of the store, and
//! the statements are machine-checked.

pub mod element;
pub mod bond;
pub mod world;
pub mod atom;
pub mod proximity;
pub mod simulation;
pub mod laws;
pub mod history;
pub mod chance;
pub mod scenario;
pub mod trail;
pub mod body;
pub mod text;
pub mod orbital;
pub mod quark;
