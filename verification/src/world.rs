//! The mathematical model of the store: the kind of each particle and the
//! bonds in the order in which they were made. Everything else that the
//! store holds, the partner list of each particle above all, is a function
//! of these two.

use vstd::prelude::*;
use crate::bond::Bond;
use crate::element::Element;

verus! {

/// The partners of particle `i`, read off the bonds in their order: each
/// bond with an end at `i` gives its other end.
pub open spec fn partners_in(edges: Seq<Bond>, i: int) -> Seq<usize>
    decreases edges.len(),
{
    if edges.len() == 0 {
        Seq::empty()
    } else {
        let before = partners_in(edges.drop_last(), i);
        let e = edges.last();
        if e.atom_a == i {
            before.push(e.atom_b)
        } else if e.atom_b == i {
            before.push(e.atom_a)
        } else {
            before
        }
    }
}

/// Whether some bond among `edges` joins the unordered pair of `a` and `b`.
pub open spec fn joined_in(edges: Seq<Bond>, a: int, b: int) -> bool {
    exists|k: int| 0 <= k < edges.len() && #[trigger] edges[k].joins(a, b)
}

/// The state of the store as a value.
pub struct World {
    /// The kind of each particle, by index.
    pub kinds: Seq<Element>,
    /// The bonds, oldest first.
    pub edges: Seq<Bond>,
}

impl World {
    /// The store with no particle and no bond.
    pub open spec fn empty() -> World {
        World { kinds: Seq::empty(), edges: Seq::empty() }
    }

    /// Whether `i` is the index of a particle.
    pub open spec fn holds(self, i: int) -> bool {
        0 <= i < self.kinds.len()
    }

    /// Whether a bond joins `a` and `b`.
    pub open spec fn linked(self, a: int, b: int) -> bool {
        joined_in(self.edges, a, b)
    }

    /// The partners of particle `i`, oldest bond first.
    pub open spec fn partners(self, i: int) -> Seq<usize> {
        partners_in(self.edges, i)
    }

    /// Whether particle `i` exists and holds fewer bonds than its kind allows.
    pub open spec fn has_room(self, i: int) -> bool {
        self.holds(i) && self.partners(i).len() < self.kinds[i].valence()
    }

    /// The rule of bond creation: both particles exist and differ, no bond
    /// joins them yet, both have room, and their charges are not of the same
    /// sign.
    pub open spec fn may_bond(self, a: int, b: int) -> bool {
        &&& self.holds(a)
        &&& self.holds(b)
        &&& a != b
        &&& !self.linked(a, b)
        &&& self.has_room(a)
        &&& self.has_room(b)
        &&& !self.kinds[a].repels(self.kinds[b])
    }

    /// The store after a single bond from `a` to `b` was appended.
    pub open spec fn with_bond(self, a: int, b: int) -> World {
        World {
            kinds: self.kinds,
            edges: self.edges.push(Bond { atom_a: a as usize, atom_b: b as usize, order: 1 }),
        }
    }

    /// The store after a particle of kind `kind` was appended.
    pub open spec fn with_atom(self, kind: Element) -> World {
        World { kinds: self.kinds.push(kind), edges: self.edges }
    }

    /// The store after a request to bond `a` and `b`: the bond is made where
    /// the rule allows it, and nothing changes where it does not.
    pub open spec fn request(self, a: int, b: int) -> World {
        if self.may_bond(a, b) {
            self.with_bond(a, b)
        } else {
            self
        }
    }

    /// Whether bond `k` is well formed: single, between two different
    /// particles of the store whose charges are not of the same sign.
    pub open spec fn edge_ok(self, k: int) -> bool {
        let e = self.edges[k];
        &&& self.holds(e.atom_a as int)
        &&& self.holds(e.atom_b as int)
        &&& e.atom_a != e.atom_b
        &&& e.order == 1
        &&& !self.kinds[e.atom_a as int].repels(self.kinds[e.atom_b as int])
    }

    /// The invariant of the bond graph: every bond is well formed, no two
    /// bonds join the same pair, and no particle holds more bonds than its
    /// kind allows. The particles can be counted by a machine integer.
    pub open spec fn wf(self) -> bool {
        &&& self.kinds.len() <= usize::MAX
        &&& forall|k: int| 0 <= k < self.edges.len() ==> #[trigger] self.edge_ok(k)
        &&& forall|k: int, l: int|
            0 <= k < l < self.edges.len() ==> !(#[trigger] self.edges[l]).joins(
                (#[trigger] self.edges[k]).atom_a as int,
                self.edges[k].atom_b as int,
            )
        &&& forall|i: int|
            0 <= i < self.kinds.len() ==> (#[trigger] self.partners(i)).len()
                <= self.kinds[i].valence()
    }
}

/// Appending a bond appends its other end to the partners of each of its
/// ends, and leaves the partners of every other particle as they were.
pub proof fn lemma_partners_push(edges: Seq<Bond>, e: Bond, i: int)
    ensures
        partners_in(edges.push(e), i) == if e.atom_a == i {
            partners_in(edges, i).push(e.atom_b)
        } else if e.atom_b == i {
            partners_in(edges, i).push(e.atom_a)
        } else {
            partners_in(edges, i)
        },
{
    assert(edges.push(e).drop_last() =~= edges);
    assert(edges.push(e).last() == e);
}

/// A particle's partners are the other ends of the bonds that touch it.
pub proof fn lemma_partner_iff_joined(edges: Seq<Bond>, i: int, j: usize)
    ensures
        partners_in(edges, i).contains(j) <==> joined_in(edges, i, j as int),
    decreases edges.len(),
{
    if edges.len() == 0 {
        assert(!partners_in(edges, i).contains(j));
    } else {
        let front = edges.drop_last();
        let e = edges.last();
        let before = partners_in(front, i);
        lemma_partner_iff_joined(front, i, j);
        if partners_in(edges, i).contains(j) {
            let n = choose|n: int|
                0 <= n < partners_in(edges, i).len() && partners_in(edges, i)[n] == j;
            if n < before.len() {
                assert(before[n] == j);
                assert(before.contains(j));
                let k = choose|k: int| 0 <= k < front.len() && #[trigger] front[k].joins(i, j as int);
                assert(edges[k].joins(i, j as int));
            } else {
                assert(edges[edges.len() - 1].joins(i, j as int));
            }
        }
        if joined_in(edges, i, j as int) {
            let k = choose|k: int| 0 <= k < edges.len() && #[trigger] edges[k].joins(i, j as int);
            if k < front.len() {
                assert(front[k].joins(i, j as int));
                let n = choose|n: int| 0 <= n < before.len() && before[n] == j;
                assert(partners_in(edges, i)[n] == j);
            } else {
                assert(e.joins(i, j as int));
                assert(partners_in(edges, i)[partners_in(edges, i).len() - 1] == j);
            }
        }
    }
}

/// A bond that the rule allows keeps the invariant.
pub proof fn lemma_with_bond_wf(w: World, a: int, b: int)
    requires
        w.wf(),
        w.may_bond(a, b),
    ensures
        w.with_bond(a, b).wf(),
{
    let v = w.with_bond(a, b);
    let e = Bond { atom_a: a as usize, atom_b: b as usize, order: 1 };
    assert forall|k: int| 0 <= k < v.edges.len() implies #[trigger] v.edge_ok(k) by {
        if k < w.edges.len() {
            assert(w.edge_ok(k));
        }
    }
    assert forall|k: int, l: int| 0 <= k < l < v.edges.len() implies !(#[trigger] v.edges[l]).joins(
        (#[trigger] v.edges[k]).atom_a as int,
        v.edges[k].atom_b as int,
    ) by {
        if l < w.edges.len() {
            assert(v.edges[l] == w.edges[l]);
            assert(v.edges[k] == w.edges[k]);
        } else {
            assert(v.edges[k] == w.edges[k]);
            if e.joins(w.edges[k].atom_a as int, w.edges[k].atom_b as int) {
                assert(w.edges[k].joins(a, b));
            }
        }
    }
    assert forall|i: int| 0 <= i < v.kinds.len() implies (#[trigger] v.partners(i)).len()
        <= v.kinds[i].valence() by {
        lemma_partners_push(w.edges, e, i);
        assert(w.partners(i).len() <= w.kinds[i].valence());
    }
}

/// A new particle keeps the invariant, and it has no partner.
pub proof fn lemma_with_atom_wf(w: World, kind: Element)
    requires
        w.wf(),
        w.kinds.len() < usize::MAX,
    ensures
        w.with_atom(kind).wf(),
        w.with_atom(kind).partners(w.kinds.len() as int) == Seq::<usize>::empty(),
{
    let v = w.with_atom(kind);
    let n = w.kinds.len() as int;
    assert forall|k: int| 0 <= k < v.edges.len() implies #[trigger] v.edge_ok(k) by {
        assert(w.edge_ok(k));
    }
    assert forall|i: int| 0 <= i < v.kinds.len() implies (#[trigger] v.partners(i)).len()
        <= v.kinds[i].valence() by {
        if i < n {
            assert(w.partners(i).len() <= w.kinds[i].valence());
        } else {
            lemma_untouched_has_no_partner(w, n);
        }
    }
    lemma_untouched_has_no_partner(w, n);
}

/// An index outside the store has no partner, and no bond joins it to
/// anything.
pub proof fn lemma_untouched_has_no_partner(w: World, i: int)
    requires
        w.wf(),
        !w.holds(i),
    ensures
        w.partners(i) == Seq::<usize>::empty(),
        forall|a: int| !joined_in(w.edges, a, i),
{
    lemma_no_bond_no_partner(w.edges, i);
    assert forall|a: int| !joined_in(w.edges, a, i) by {
        if joined_in(w.edges, a, i) {
            let k = choose|k: int| 0 <= k < w.edges.len() && #[trigger] w.edges[k].joins(a, i);
            assert(w.edge_ok(k));
        }
    }
    assert forall|k: int| 0 <= k < w.edges.len() implies w.edges[k].atom_a != i
        && w.edges[k].atom_b != i by {
        assert(w.edge_ok(k));
    }
}

/// A particle that no bond touches has no partner.
pub proof fn lemma_no_bond_no_partner(edges: Seq<Bond>, i: int)
    ensures
        (forall|k: int| 0 <= k < edges.len() ==> edges[k].atom_a != i && edges[k].atom_b != i)
            ==> partners_in(edges, i) == Seq::<usize>::empty(),
    decreases edges.len(),
{
    if edges.len() > 0 {
        lemma_no_bond_no_partner(edges.drop_last(), i);
        if forall|k: int| 0 <= k < edges.len() ==> edges[k].atom_a != i && edges[k].atom_b != i {
            assert forall|k: int| 0 <= k < edges.drop_last().len() implies edges.drop_last()[k].atom_a
                != i && edges.drop_last()[k].atom_b != i by {
                assert(edges.drop_last()[k] == edges[k]);
            }
            assert(edges[edges.len() - 1].atom_a != i);
        }
    }
}

} // verus!
