//! Starting configurations of the store: which particles it holds and which
//! of them are bonded from the start. Where each particle stands is the
//! caller's to decide, by index.

use vstd::prelude::*;
use rand::rngs::ThreadRng;
use crate::bond::Bond;
use crate::chance::{draw_below, local_generator};
use crate::element::Element;
use crate::simulation::Simulation;
use crate::world::{lemma_partners_push, lemma_untouched_has_no_partner, World};

verus! {

/// The first `len` particles of a run of water molecules: an oxygen, then
/// its two hydrogens.
pub open spec fn water_kinds(len: nat) -> Seq<Element> {
    Seq::new(len, |i: int| if i % 3 == 0 { Element::Oxygen } else { Element::Hydrogen })
}

/// The first `len` bonds of a run of water molecules: molecule `m` holds
/// the particles `3m`, `3m + 1`, `3m + 2`, and its oxygen is bonded to the
/// first hydrogen, then to the second.
pub open spec fn water_edges(len: nat) -> Seq<Bond> {
    Seq::new(
        len,
        |k: int|
            Bond {
                atom_a: (3 * (k / 2)) as usize,
                atom_b: (3 * (k / 2) + 1 + k % 2) as usize,
                order: 1,
            },
    )
}

/// The first `len` particles of a run of sodium and chlorine ions, in turn.
pub open spec fn salt_kinds(len: nat) -> Seq<Element> {
    Seq::new(len, |i: int| if i % 2 == 0 { Element::Sodium } else { Element::Chlorine })
}

/// The first `len` particles of a run of methane molecules: a carbon, then
/// its four hydrogens.
pub open spec fn methane_kinds(len: nat) -> Seq<Element> {
    Seq::new(len, |i: int| if i % 5 == 0 { Element::Carbon } else { Element::Hydrogen })
}

/// The first `len` bonds of a run of methane molecules: molecule `m` holds
/// the particles `5m .. 5m + 4`, and its carbon is bonded to each hydrogen
/// in turn.
pub open spec fn methane_edges(len: nat) -> Seq<Bond> {
    Seq::new(
        len,
        |k: int|
            Bond {
                atom_a: (5 * (k / 4)) as usize,
                atom_b: (5 * (k / 4) + 1 + k % 4) as usize,
                order: 1,
            },
    )
}

/// The kinds that a random configuration draws from.
pub open spec fn is_light(kind: Element) -> bool {
    kind == Element::Hydrogen || kind == Element::Carbon || kind == Element::Nitrogen || kind
        == Element::Oxygen
}

/// The table that a random configuration draws from.
pub open spec fn light_choice(pick: int) -> Option<Element> {
    if pick == 0 {
        Some(Element::Hydrogen)
    } else if pick == 1 {
        Some(Element::Carbon)
    } else if pick == 2 {
        Some(Element::Nitrogen)
    } else if pick == 3 {
        Some(Element::Oxygen)
    } else {
        None
    }
}

/// The number of kinds that a random configuration draws from.
pub const LIGHT_KINDS: usize = 4;

/// The kind that a random configuration takes for the draw `pick`: hydrogen,
/// carbon, nitrogen, oxygen for 0 to 3, and none for a larger number.
pub fn light_element(pick: usize) -> (kind: Option<Element>)
    ensures
        kind == light_choice(pick as int),
        kind.is_some() == (pick < LIGHT_KINDS),
        kind matches Some(k) ==> is_light(k),
{
    match pick {
        0 => Some(Element::Hydrogen),
        1 => Some(Element::Carbon),
        2 => Some(Element::Nitrogen),
        3 => Some(Element::Oxygen),
        _ => None,
    }
}

/// In a well-formed store, a particle that was just appended can bond with
/// an older one that has room, unless their charges forbid it.
proof fn lemma_fresh_may_bond(before: World, kind: Element, a: int)
    requires
        before.wf(),
        before.kinds.len() < usize::MAX,
        before.has_room(a),
        !before.kinds[a].repels(kind),
    ensures
        before.with_atom(kind).may_bond(a, before.kinds.len() as int),
        before.with_atom(kind).partners(a) == before.partners(a),
{
    lemma_untouched_has_no_partner(before, before.kinds.len() as int);
}

impl Simulation {
    /// Clears the store and fills it with `count` water molecules: particle
    /// `3m` is the oxygen of molecule `m`, bonded to its hydrogens `3m + 1`
    /// and `3m + 2`.
    pub fn init_water(&mut self, count: usize)
        ensures
            final(self).wf(),
            final(self)@.kinds == water_kinds(3 * count as nat),
            final(self)@.edges == water_edges(2 * count as nat),
    {
        self.clear();
        let mut m: usize = 0;
        while m < count
            invariant
                m <= count,
                self.wf(),
                self@.kinds == water_kinds(3 * m as nat),
                self@.edges == water_edges(2 * m as nat),
            decreases count - m,
        {
            let ghost w0 = self@;
            proof {
                self.lemma_wf();
            }
            let o_id = self.add_atom(Element::Oxygen);
            let ghost w1 = self@;
            proof {
                self.lemma_wf();
                lemma_untouched_has_no_partner(w0, o_id as int);
            }
            let h1_id = self.add_atom(Element::Hydrogen);
            let ghost w2 = self@;
            proof {
                self.lemma_wf();
                lemma_fresh_may_bond(w1, Element::Hydrogen, o_id as int);
                lemma_untouched_has_no_partner(w1, h1_id as int);
            }
            let h2_id = self.add_atom(Element::Hydrogen);
            let ghost w3 = self@;
            proof {
                self.lemma_wf();
                lemma_untouched_has_no_partner(w2, h2_id as int);
                assert(w3.may_bond(o_id as int, h1_id as int));
            }
            self.create_bond(o_id, h1_id);
            let ghost w4 = self@;
            proof {
                let e = Bond { atom_a: o_id, atom_b: h1_id, order: 1 };
                lemma_partners_push(w3.edges, e, o_id as int);
                lemma_partners_push(w3.edges, e, h2_id as int);
                assert(!w4.linked(o_id as int, h2_id as int)) by {
                    if w4.linked(o_id as int, h2_id as int) {
                        let k = choose|k: int|
                            0 <= k < w4.edges.len() && #[trigger] w4.edges[k].joins(
                                o_id as int,
                                h2_id as int,
                            );
                        if k < w3.edges.len() {
                            assert(w2.edges[k].joins(o_id as int, h2_id as int));
                        }
                    }
                }
                assert(w4.may_bond(o_id as int, h2_id as int));
            }
            self.create_bond(o_id, h2_id);
            m += 1;
            proof {
                assert(self@.kinds =~= water_kinds(3 * m as nat));
                assert(self@.edges =~= water_edges(2 * m as nat));
            }
        }
    }

    /// Clears the store and fills it with `count` pairs of ions: particle
    /// `2m` is a sodium ion, particle `2m + 1` a chlorine ion. No bond is made.
    pub fn init_salt(&mut self, count: usize)
        ensures
            final(self).wf(),
            final(self)@.kinds == salt_kinds(2 * count as nat),
            final(self)@.edges == Seq::<Bond>::empty(),
    {
        self.clear();
        let mut m: usize = 0;
        while m < count
            invariant
                m <= count,
                self.wf(),
                self@.kinds == salt_kinds(2 * m as nat),
                self@.edges == Seq::<Bond>::empty(),
            decreases count - m,
        {
            self.add_atom(Element::Sodium);
            self.add_atom(Element::Chlorine);
            m += 1;
            proof {
                assert(self@.kinds =~= salt_kinds(2 * m as nat));
            }
        }
        proof {
            assert(self@.kinds =~= salt_kinds(2 * count as nat));
        }
    }

    /// Clears the store and fills it with `count` methane molecules:
    /// particle `5m` is the carbon of molecule `m`, bonded to its hydrogens
    /// `5m + 1` to `5m + 4`.
    pub fn init_organic(&mut self, count: usize)
        ensures
            final(self).wf(),
            final(self)@.kinds == methane_kinds(5 * count as nat),
            final(self)@.edges == methane_edges(4 * count as nat),
    {
        self.clear();
        let mut m: usize = 0;
        while m < count
            invariant
                m <= count,
                self.wf(),
                self@.kinds == methane_kinds(5 * m as nat),
                self@.edges == methane_edges(4 * m as nat),
            decreases count - m,
        {
            let ghost w0 = self@;
            proof {
                self.lemma_wf();
            }
            let c_id = self.add_atom(Element::Carbon);
            proof {
                lemma_untouched_has_no_partner(w0, c_id as int);
                assert(self@.kinds =~= methane_kinds((5 * m + 1) as nat));
            }
            let mut j: usize = 0;
            while j < 4
                invariant
                    j <= 4,
                    m < count,
                    c_id == 5 * m,
                    self.wf(),
                    self@.kinds == methane_kinds((5 * m + 1 + j) as nat),
                    self@.edges == methane_edges((4 * m + j) as nat),
                    self@.partners(c_id as int).len() == j,
                decreases 4 - j,
            {
                let ghost v0 = self@;
                proof {
                    self.lemma_wf();
                }
                let h_id = self.add_atom(Element::Hydrogen);
                let ghost v1 = self@;
                proof {
                    lemma_fresh_may_bond(v0, Element::Hydrogen, c_id as int);
                }
                self.create_bond(c_id, h_id);
                proof {
                    let e = Bond { atom_a: c_id, atom_b: h_id, order: 1 };
                    lemma_partners_push(v1.edges, e, c_id as int);
                    assert(self@.kinds =~= methane_kinds((5 * m + 1 + j + 1) as nat));
                    assert(self@.edges =~= methane_edges((4 * m + j + 1) as nat));
                }
                j += 1;
            }
            m += 1;
        }
    }

    /// Clears the store and fills it with `count` particles, each of a kind
    /// drawn at random among hydrogen, carbon, nitrogen and oxygen. No bond
    /// is made.
    pub fn init_random(&mut self, count: usize)
        ensures
            final(self).wf(),
            final(self)@.kinds.len() == count,
            forall|i: int| 0 <= i < count ==> is_light(#[trigger] final(self)@.kinds[i]),
            final(self)@.edges == Seq::<Bond>::empty(),
    {
        self.clear();
        let mut rng: ThreadRng = local_generator();
        let mut m: usize = 0;
        while m < count
            invariant
                m <= count,
                self.wf(),
                self@.kinds.len() == m,
                forall|i: int| 0 <= i < m ==> is_light(#[trigger] self@.kinds[i]),
                self@.edges == Seq::<Bond>::empty(),
            decreases count - m,
        {
            let pick = draw_below(&mut rng, LIGHT_KINDS);
            match light_element(pick) {
                Some(element) => {
                    self.add_atom(element);
                },
                None => {},
            }
            m += 1;
        }
    }
}

} // verus!
