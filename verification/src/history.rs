//! Histories of a store: what a sequence of changes makes of it, and the
//! law that a pair of particles is granted a bond at most once in a history.

use vstd::prelude::*;
use crate::element::Element;
use crate::laws::{lemma_request_keeps_bonds, lemma_sweep_keeps_bonds};
use crate::simulation::{lemma_request_wf, lemma_sweep_wf};
use crate::world::{lemma_with_atom_wf, World};

verus! {

/// One change of the store. Clearing it is none: a history is the life of a
/// store between two clearings.
pub enum Change {
    /// A particle of this kind is appended.
    Arrival(Element),
    /// A bond between the two particles is asked for.
    Request(int, int),
    /// A formation pass over this table of near pairs.
    Pass(Set<(int, int)>),
}

impl World {
    /// The store after one change.
    pub open spec fn after(self, change: Change) -> World {
        match change {
            Change::Arrival(kind) => self.with_atom(kind),
            Change::Request(a, b) => self.request(a, b),
            Change::Pass(near) => self.sweep(near, self.kinds.len() as int),
        }
    }

    /// The store after a sequence of changes, the first of them first.
    pub open spec fn run(self, changes: Seq<Change>) -> World
        decreases changes.len(),
    {
        if changes.len() == 0 {
            self
        } else {
            self.run(changes.drop_last()).after(changes.last())
        }
    }

    /// Whether change `t` of the history is a request for the pair of `a` and
    /// `b`, in either order, that is granted.
    pub open spec fn granted(self, changes: Seq<Change>, t: int, a: int, b: int) -> bool {
        &&& 0 <= t < changes.len()
        &&& changes[t] matches Change::Request(x, y)
        &&& ((x == a && y == b) || (x == b && y == a))
        &&& self.run(changes.take(t)).may_bond(x, y)
    }
}

/// A history whose particles a machine integer can count keeps the
/// invariant, at its end and at every moment before.
pub proof fn lemma_run_wf(w: World, changes: Seq<Change>, t: int)
    requires
        w.wf(),
        w.run(changes).kinds.len() <= usize::MAX,
        0 <= t <= changes.len(),
    ensures
        w.run(changes.take(t)).wf(),
        w.run(changes.take(t)).kinds.len() <= w.run(changes).kinds.len(),
    decreases changes.len(),
{
    if t == changes.len() {
        assert(changes.take(t) =~= changes);
        if changes.len() > 0 {
            let front = changes.drop_last();
            let mid = w.run(front);
            // The last change cannot shrink the store, so the front is bounded too.
            lemma_size_before_last(w, changes);
            lemma_run_wf(w, front, front.len() as int);
            assert(front.take(front.len() as int) =~= front);
            match changes.last() {
                Change::Arrival(kind) => {
                    lemma_with_atom_wf(mid, kind);
                },
                Change::Request(a, b) => {
                    lemma_request_wf(mid, a, b);
                },
                Change::Pass(near) => {
                    lemma_sweep_wf(mid, near, mid.kinds.len() as int);
                },
            }
        }
    } else {
        let front = changes.drop_last();
        lemma_size_before_last(w, changes);
        lemma_run_wf(w, front, t);
        assert(front.take(t) =~= changes.take(t));
    }
}

/// The store before the last change of a history holds no more particles
/// than the store after it.
pub proof fn lemma_size_before_last(w: World, changes: Seq<Change>)
    requires
        changes.len() > 0,
    ensures
        w.run(changes.drop_last()).kinds.len() <= w.run(changes).kinds.len(),
{
    let mid = w.run(changes.drop_last());
    match changes.last() {
        Change::Arrival(kind) => {},
        Change::Request(a, b) => {},
        Change::Pass(near) => {
            lemma_sweep_keeps_particles(mid, near, mid.kinds.len() as int);
        },
    }
}

/// A row of the formation pass leaves the particles as they are.
pub proof fn lemma_sweep_row_keeps_particles(w: World, near: Set<(int, int)>, i: int, upto: int)
    ensures
        w.sweep_row(near, i, upto).kinds == w.kinds,
    decreases upto - i,
{
    if upto > i + 1 {
        lemma_sweep_row_keeps_particles(w, near, i, upto - 1);
    }
}

/// The formation pass leaves the particles as they are.
pub proof fn lemma_sweep_keeps_particles(w: World, near: Set<(int, int)>, rows: int)
    ensures
        w.sweep(near, rows).kinds == w.kinds,
    decreases rows,
{
    if rows > 0 {
        lemma_sweep_keeps_particles(w, near, rows - 1);
        lemma_sweep_row_keeps_particles(
            w.sweep(near, rows - 1),
            near,
            rows - 1,
            w.kinds.len() as int,
        );
    }
}

/// What is bonded at some moment of a history is bonded at its end.
pub proof fn lemma_run_keeps_bonds(w: World, changes: Seq<Change>, t: int, a: int, b: int)
    requires
        0 <= t <= changes.len(),
        w.run(changes.take(t)).linked(a, b),
    ensures
        w.run(changes).linked(a, b),
    decreases changes.len(),
{
    if t == changes.len() {
        assert(changes.take(t) =~= changes);
    } else {
        let front = changes.drop_last();
        assert(front.take(t) =~= changes.take(t));
        lemma_run_keeps_bonds(w, front, t, a, b);
        let mid = w.run(front);
        match changes.last() {
            Change::Arrival(kind) => {
                let k = choose|k: int| 0 <= k < mid.edges.len() && #[trigger] mid.edges[k].joins(a, b);
                assert(mid.with_atom(kind).edges[k].joins(a, b));
            },
            Change::Request(x, y) => {
                lemma_request_keeps_bonds(mid, a, b, x, y);
            },
            Change::Pass(near) => {
                lemma_sweep_keeps_bonds(mid, a, b, near, mid.kinds.len() as int);
            },
        }
    }
}

/// No duplicate bonds: in the history of a well-formed store, the requests
/// for one pair of particles, in either order, are granted at most once.
pub proof fn law_granted_once(w: World, changes: Seq<Change>, first: int, second: int, a: int, b: int)
    requires
        w.wf(),
        w.run(changes).kinds.len() <= usize::MAX,
        first < second,
        w.granted(changes, first, a, b),
    ensures
        !w.granted(changes, second, a, b),
{
    if 0 <= second < changes.len() {
        let upto = changes.take(second);
        let before = w.run(changes.take(first));
        lemma_run_wf(w, changes, first);
        if let Change::Request(x, y) = changes[first] {
            assert(upto.take(first + 1).drop_last() =~= changes.take(first));
            assert(upto.take(first + 1).last() == changes[first]);
            assert(w.run(upto.take(first + 1)) == before.with_bond(x, y));
            assert(before.with_bond(x, y).edges[before.edges.len() as int].joins(a, b));
            lemma_run_keeps_bonds(w, upto, first + 1, a, b);
            let k = choose|k: int|
                0 <= k < w.run(upto).edges.len() && #[trigger] w.run(upto).edges[k].joins(a, b);
            assert(w.run(upto).edges[k].joins(b, a));
        }
    }
}

} // verus!
