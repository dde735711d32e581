//! The particle store and its bond graph.

use vstd::prelude::*;
use crate::atom::Atom;
use crate::bond::Bond;
use crate::element::Element;
use crate::proximity::Proximity;
use crate::world::{lemma_partners_push, lemma_with_atom_wf, lemma_with_bond_wf, World};

verus! {

impl World {
    /// One step of the formation pass: the pair of `i` and `j` bonds where it
    /// is marked near and the rule allows it.
    pub open spec fn attempt(self, near: Set<(int, int)>, i: int, j: int) -> World {
        if near.contains((i, j)) {
            self.request(i, j)
        } else {
            self
        }
    }

    /// The formation pass over the pairs of `i` with each `j`, `i < j < upto`,
    /// in increasing order of `j`.
    pub open spec fn sweep_row(self, near: Set<(int, int)>, i: int, upto: int) -> World
        decreases upto - i,
    {
        if upto <= i + 1 {
            self
        } else {
            self.sweep_row(near, i, upto - 1).attempt(near, i, upto - 1)
        }
    }

    /// The formation pass over the rows `0..rows`, in increasing order: every
    /// pair of particles `i < j` with `i < rows`, the pairs of a smaller `i`
    /// first.
    pub open spec fn sweep(self, near: Set<(int, int)>, rows: int) -> World
        decreases rows,
    {
        if rows <= 0 {
            self
        } else {
            self.sweep(near, rows - 1).sweep_row(near, rows - 1, self.kinds.len() as int)
        }
    }
}

/// A request keeps the invariant and the particles.
pub proof fn lemma_request_wf(w: World, a: int, b: int)
    requires
        w.wf(),
    ensures
        w.request(a, b).wf(),
        w.request(a, b).kinds == w.kinds,
{
    if w.may_bond(a, b) {
        lemma_with_bond_wf(w, a, b);
    }
}

/// A row of the formation pass keeps the invariant and the particles.
pub proof fn lemma_sweep_row_wf(w: World, near: Set<(int, int)>, i: int, upto: int)
    requires
        w.wf(),
    ensures
        w.sweep_row(near, i, upto).wf(),
        w.sweep_row(near, i, upto).kinds == w.kinds,
    decreases upto - i,
{
    if upto > i + 1 {
        lemma_sweep_row_wf(w, near, i, upto - 1);
        lemma_request_wf(w.sweep_row(near, i, upto - 1), i, upto - 1);
    }
}

/// The formation pass keeps the invariant and the particles.
pub proof fn lemma_sweep_wf(w: World, near: Set<(int, int)>, rows: int)
    requires
        w.wf(),
    ensures
        w.sweep(near, rows).wf(),
        w.sweep(near, rows).kinds == w.kinds,
    decreases rows,
{
    if rows > 0 {
        lemma_sweep_wf(w, near, rows - 1);
        lemma_sweep_row_wf(w.sweep(near, rows - 1), near, rows - 1, w.kinds.len() as int);
    }
}

/// A particle without room bonds with nobody: its row of the formation pass
/// changes nothing.
pub proof fn lemma_full_row_is_idle(w: World, near: Set<(int, int)>, i: int, upto: int)
    requires
        !w.has_room(i),
    ensures
        w.sweep_row(near, i, upto) == w,
    decreases upto - i,
{
    if upto > i + 1 {
        lemma_full_row_is_idle(w, near, i, upto - 1);
    }
}

/// The store: the particles, the bonds between them, and the counter that
/// numbers the particles.
pub struct Simulation {
    atoms: Vec<Atom>,
    bonds: Vec<Bond>,
    next_id: usize,
}

impl View for Simulation {
    type V = World;

    closed spec fn view(&self) -> World {
        World {
            kinds: Seq::new(self.atoms@.len(), |i: int| self.atoms@[i].element),
            edges: self.bonds@,
        }
    }
}

impl Simulation {
    /// The invariant of the store: the bond graph is well formed, the
    /// identity of each particle is its index, the counter is the number of
    /// particles, and each particle's list of partners is what the bonds
    /// give.
    pub closed spec fn wf(&self) -> bool {
        &&& self@.wf()
        &&& self.next_id == self.atoms@.len()
        &&& forall|i: int|
            0 <= i < self.atoms@.len() ==> (#[trigger] self.atoms@[i]).id == i
                && self.atoms@[i].bonds@ == self@.partners(i)
    }

    /// The identity that the next particle will get.
    pub closed spec fn counter(&self) -> nat {
        self.next_id as nat
    }

    /// The invariant over the model alone.
    pub proof fn lemma_wf(&self)
        requires
            self.wf(),
        ensures
            self@.wf(),
            self.counter() == self@.kinds.len(),
    {
    }

    /// An empty store.
    pub fn new() -> (sim: Simulation)
        ensures
            sim.wf(),
            sim@ == World::empty(),
    {
        let sim = Simulation { atoms: Vec::new(), bonds: Vec::new(), next_id: 0 };
        proof {
            assert(sim@.kinds =~= Seq::<Element>::empty());
            assert(sim@.edges =~= Seq::<Bond>::empty());
            assert(sim@.wf());
        }
        sim
    }

    /// Appends a particle of kind `element` and returns its identity, which
    /// is also its index: the number of particles made before it.
    pub fn add_atom(&mut self, element: Element) -> (id: usize)
        requires
            old(self).wf(),
        ensures
            final(self).wf(),
            final(self)@ == old(self)@.with_atom(element),
            id == old(self)@.kinds.len(),
    {
        let id = self.next_id;
        self.atoms.push(Atom::new(element, id));
        self.next_id = self.atoms.len();
        proof {
            assert(self@.kinds =~= old(self)@.kinds.push(element));
            lemma_with_atom_wf(old(self)@, element);
            assert forall|i: int| 0 <= i < self.atoms@.len() implies (#[trigger] self.atoms@[i]).id
                == i && self.atoms@[i].bonds@ == self@.partners(i) by {
                if i < id {
                    assert(self.atoms@[i] == old(self).atoms@[i]);
                }
            }
        }
        id
    }

    /// Removes every particle and every bond, and starts the identities at 0
    /// again.
    pub fn clear(&mut self)
        ensures
            final(self).wf(),
            final(self)@ == World::empty(),
    {
        self.atoms.clear();
        self.bonds.clear();
        self.next_id = 0;
        proof {
            assert(self@.kinds =~= Seq::<Element>::empty());
            assert(self@.edges =~= Seq::<Bond>::empty());
            assert(self@.wf());
        }
    }

    /// The number of particles.
    pub fn atom_count(&self) -> (n: usize)
        ensures
            n == self@.kinds.len(),
    {
        self.atoms.len()
    }

    /// The number of bonds.
    pub fn bond_count(&self) -> (n: usize)
        ensures
            n == self@.edges.len(),
    {
        self.bonds.len()
    }

    /// The identity that the next particle will get.
    pub fn next_id(&self) -> (id: usize)
        ensures
            id == self.counter(),
    {
        self.next_id
    }

    /// The particles, by index.
    pub fn atoms(&self) -> (all: &Vec<Atom>)
        requires
            self.wf(),
        ensures
            all@.len() == self@.kinds.len(),
            forall|i: int|
                0 <= i < all@.len() ==> (#[trigger] all@[i]).element == self@.kinds[i]
                    && all@[i].id == i && all@[i].bonds@ == self@.partners(i),
    {
        &self.atoms
    }

    /// The bonds, oldest first.
    pub fn bonds(&self) -> (all: &Vec<Bond>)
        ensures
            all@ == self@.edges,
    {
        &self.bonds
    }

    /// The particle at index `i`, or nothing where the store holds no such
    /// particle.
    pub fn atom(&self, i: usize) -> (found: Option<&Atom>)
        requires
            self.wf(),
        ensures
            found.is_some() == self@.holds(i as int),
            found matches Some(atom) ==> atom.element == self@.kinds[i as int] && atom.id == i
                && atom.bonds@ == self@.partners(i as int),
    {
        if i < self.atoms.len() {
            Some(&self.atoms[i])
        } else {
            None
        }
    }

    /// Tells whether particle `i` exists and holds fewer bonds than its kind
    /// allows.
    pub fn can_bond(&self, i: usize) -> (free: bool)
        requires
            self.wf(),
        ensures
            free == self@.has_room(i as int),
    {
        if i < self.atoms.len() {
            self.atoms[i].can_bond()
        } else {
            false
        }
    }

    /// Tells whether a bond joins `a` and `b`, in either order.
    pub fn are_bonded(&self, a: usize, b: usize) -> (yes: bool)
        ensures
            yes == self@.linked(a as int, b as int),
    {
        let mut k: usize = 0;
        while k < self.bonds.len()
            invariant
                k <= self.bonds@.len(),
                forall|m: int| 0 <= m < k ==> !(#[trigger] self.bonds@[m]).joins(a as int, b as int),
            decreases self.bonds@.len() - k,
        {
            if self.bonds[k].connects(a, b) {
                return true;
            }
            k += 1;
        }
        false
    }

    /// Asks for a bond between `a` and `b`. The bond is made, and `true`
    /// returned, where both particles exist and differ, no bond joins them
    /// yet, both hold fewer bonds than their kinds allow, and their charges
    /// are not of the same sign. Otherwise the store is left as it was.
    pub fn create_bond(&mut self, a: usize, b: usize) -> (made: bool)
        requires
            old(self).wf(),
        ensures
            final(self).wf(),
            made == old(self)@.may_bond(a as int, b as int),
            final(self)@ == old(self)@.request(a as int, b as int),
    {
        let n = self.atoms.len();
        if a >= n || b >= n || a == b {
            return false;
        }
        if self.are_bonded(a, b) {
            return false;
        }
        if !self.atoms[a].can_bond() || !self.atoms[b].can_bond() {
            return false;
        }
        if self.atoms[a].element.same_sign(&self.atoms[b].element) {
            return false;
        }
        self.bonds.push(Bond::new(a, b));
        self.atoms[a].bonds.push(b);
        self.atoms[b].bonds.push(a);
        proof {
            let w = old(self)@;
            let e = Bond { atom_a: a, atom_b: b, order: 1 };
            assert(self@.kinds =~= w.kinds);
            assert(self@ == w.with_bond(a as int, b as int));
            lemma_with_bond_wf(w, a as int, b as int);
            assert forall|i: int| 0 <= i < self.atoms@.len() implies (#[trigger] self.atoms@[i]).id
                == i && self.atoms@[i].bonds@ == self@.partners(i) by {
                lemma_partners_push(w.edges, e, i);
                assert(old(self).atoms@[i].id == i);
            }
        }
        true
    }

    /// The formation pass. Every pair of particles `i < j` that `near` marks
    /// is asked to bond, in increasing order of `i` and, for one `i`, of `j`.
    /// Bonds made earlier in the pass use up valence, so the order decides
    /// which of several candidates bond.
    pub fn try_form_bonds(&mut self, near: &Proximity)
        requires
            old(self).wf(),
            near.wf(),
        ensures
            final(self).wf(),
            final(self)@ == old(self)@.sweep(near@, old(self)@.kinds.len() as int),
    {
        let n = self.atoms.len();
        let ghost start = self@;
        let mut i: usize = 0;
        while i < n
            invariant
                i <= n,
                n == start.kinds.len(),
                start == old(self)@,
                near.wf(),
                self.wf(),
                self@ == start.sweep(near@, i as int),
                self@.kinds == start.kinds,
            decreases n - i,
        {
            let ghost row_start = self@;
            if self.atoms[i].can_bond() {
                let mut j: usize = i + 1;
                while j < n
                    invariant
                        i < j <= n,
                        n == start.kinds.len(),
                        near.wf(),
                        self.wf(),
                        row_start.kinds == start.kinds,
                        self@ == row_start.sweep_row(near@, i as int, j as int),
                        self@.kinds == start.kinds,
                    decreases n - j,
                {
                    if near.is_near(i, j) {
                        self.create_bond(i, j);
                    }
                    j += 1;
                }
            } else {
                proof {
                    lemma_full_row_is_idle(row_start, near@, i as int, n as int);
                }
            }
            i += 1;
        }
    }
}

impl Default for Simulation {
    /// An empty store.
    fn default() -> (sim: Simulation)
        ensures
            sim.wf(),
            sim@ == World::empty(),
    {
        Simulation::new()
    }
}

} // verus!
