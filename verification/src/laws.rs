//! What holds of every store: the laws of the bond graph, stated over the
//! model and proved from the invariant and the rule of bond creation.

use vstd::prelude::*;
use crate::simulation::{lemma_request_wf, lemma_sweep_row_wf, lemma_sweep_wf};
use crate::bond::Bond;
use crate::element::Element;
use crate::world::{lemma_partner_iff_joined, lemma_with_atom_wf, partners_in, World};

verus! {

/// Bonds are symmetric: `b` is among the partners of `a` exactly where `a`
/// is among the partners of `b`. This holds of any list of bonds.
pub proof fn law_bond_symmetry(w: World, a: usize, b: usize)
    ensures
        w.partners(a as int).contains(b) <==> w.partners(b as int).contains(a),
        w.partners(a as int).contains(b) <==> w.linked(a as int, b as int),
{
    lemma_partner_iff_joined(w.edges, a as int, b);
    lemma_partner_iff_joined(w.edges, b as int, a);
    if w.linked(a as int, b as int) {
        let k = choose|k: int| 0 <= k < w.edges.len() && #[trigger] w.edges[k].joins(a as int, b as int);
        assert(w.edges[k].joins(b as int, a as int));
    }
    if w.linked(b as int, a as int) {
        let k = choose|k: int| 0 <= k < w.edges.len() && #[trigger] w.edges[k].joins(b as int, a as int);
        assert(w.edges[k].joins(a as int, b as int));
    }
}

/// Valence: in a well-formed store no particle holds more bonds than its
/// kind allows.
pub proof fn law_valence(w: World, p: int)
    requires
        w.wf(),
        w.holds(p),
    ensures
        w.partners(p).len() <= w.kinds[p].valence(),
{
}

/// The invariant, and with it valence, is kept by every change that the
/// store offers: the empty store has it, and it survives a new particle
/// that a machine integer can still count, a request for a bond whatever
/// its arguments, and the formation pass whatever it is told of nearness.
pub proof fn law_invariant_kept(
    w: World,
    kind: Element,
    a: int,
    b: int,
    near: Set<(int, int)>,
    rows: int,
)
    requires
        w.wf(),
    ensures
        World::empty().wf(),
        w.kinds.len() < usize::MAX ==> w.with_atom(kind).wf(),
        w.request(a, b).wf(),
        w.sweep(near, rows).wf(),
{
    if w.kinds.len() < usize::MAX {
        lemma_with_atom_wf(w, kind);
    }
    lemma_request_wf(w, a, b);
    lemma_sweep_wf(w, near, rows);
}

/// Same-charge exclusion: in a well-formed store no bond joins two particles
/// whose charges are of the same sign, and neither is among the other's
/// partners.
pub proof fn law_same_charge_exclusion(w: World, a: usize, b: usize)
    requires
        w.wf(),
        w.holds(a as int),
        w.holds(b as int),
        w.kinds[a as int].repels(w.kinds[b as int]),
    ensures
        !w.linked(a as int, b as int),
        !w.partners(a as int).contains(b),
        !w.partners(b as int).contains(a),
{
    law_bond_symmetry(w, a, b);
    if w.linked(a as int, b as int) {
        let k = choose|k: int| 0 <= k < w.edges.len() && #[trigger] w.edges[k].joins(a as int, b as int);
        assert(w.edge_ok(k));
    }
}

/// No duplicate bonds: in a well-formed store at most one bond joins a pair.
pub proof fn law_single_bond(w: World, k: int, l: int, a: int, b: int)
    requires
        w.wf(),
        0 <= k < w.edges.len(),
        0 <= l < w.edges.len(),
        w.edges[k].joins(a, b),
        w.edges[l].joins(a, b),
    ensures
        k == l,
{
    if k < l {
        assert(!w.edges[l].joins(w.edges[k].atom_a as int, w.edges[k].atom_b as int));
    }
    if l < k {
        assert(!w.edges[k].joins(w.edges[l].atom_a as int, w.edges[l].atom_b as int));
    }
}

/// A request succeeds at most once for a pair: once a bond joins `a` and
/// `b`, a request for the pair is refused in either order, and so it is
/// right after the request that made the bond.
pub proof fn law_bond_made_once(w: World, a: int, b: int)
    requires
        w.wf(),
    ensures
        w.linked(a, b) ==> !w.may_bond(a, b) && !w.may_bond(b, a),
        w.may_bond(a, b) ==> w.with_bond(a, b).linked(a, b),
        w.may_bond(a, b) ==> !w.request(a, b).may_bond(a, b) && !w.request(a, b).may_bond(b, a),
{
    if w.linked(a, b) {
        let k = choose|k: int| 0 <= k < w.edges.len() && #[trigger] w.edges[k].joins(a, b);
        assert(w.edges[k].joins(b, a));
    }
    if w.may_bond(a, b) {
        let v = w.with_bond(a, b);
        assert(v.edges[w.edges.len() as int].joins(a, b));
        assert(v.edges[w.edges.len() as int].joins(b, a));
    }
}

/// A bond stays: whatever joins `a` and `b` still joins them after a new
/// particle, after a request for any pair, and after a formation pass. With
/// `law_bond_made_once`, a pair that bonded is refused from then on, until
/// the store is cleared.
pub proof fn law_bond_stays(
    w: World,
    a: int,
    b: int,
    kind: Element,
    x: int,
    y: int,
    near: Set<(int, int)>,
    rows: int,
)
    requires
        w.linked(a, b),
    ensures
        w.with_atom(kind).linked(a, b),
        w.request(x, y).linked(a, b),
        w.sweep(near, rows).linked(a, b),
{
    let k = choose|k: int| 0 <= k < w.edges.len() && #[trigger] w.edges[k].joins(a, b);
    assert(w.with_atom(kind).edges[k].joins(a, b));
    lemma_request_keeps_bonds(w, a, b, x, y);
    lemma_sweep_keeps_bonds(w, a, b, near, rows);
}

/// A request removes no bond.
pub proof fn lemma_request_keeps_bonds(w: World, a: int, b: int, x: int, y: int)
    requires
        w.linked(a, b),
    ensures
        w.request(x, y).linked(a, b),
{
    let k = choose|k: int| 0 <= k < w.edges.len() && #[trigger] w.edges[k].joins(a, b);
    assert(w.request(x, y).edges[k].joins(a, b));
}

/// A row of the formation pass removes no bond.
pub proof fn lemma_sweep_row_keeps_bonds(
    w: World,
    a: int,
    b: int,
    near: Set<(int, int)>,
    i: int,
    upto: int,
)
    requires
        w.linked(a, b),
    ensures
        w.sweep_row(near, i, upto).linked(a, b),
    decreases upto - i,
{
    if upto > i + 1 {
        lemma_sweep_row_keeps_bonds(w, a, b, near, i, upto - 1);
        lemma_request_keeps_bonds(w.sweep_row(near, i, upto - 1), a, b, i, upto - 1);
    }
}

/// The formation pass removes no bond.
pub proof fn lemma_sweep_keeps_bonds(w: World, a: int, b: int, near: Set<(int, int)>, rows: int)
    requires
        w.linked(a, b),
    ensures
        w.sweep(near, rows).linked(a, b),
    decreases rows,
{
    if rows > 0 {
        lemma_sweep_keeps_bonds(w, a, b, near, rows - 1);
        lemma_sweep_row_keeps_bonds(
            w.sweep(near, rows - 1),
            a,
            b,
            near,
            rows - 1,
            w.kinds.len() as int,
        );
    }
}

/// The formation pass bonds only pairs that were marked near: a pair that
/// is joined afterwards was joined before or is marked, smaller index first.
pub proof fn law_pass_bonds_near_pairs(w: World, near: Set<(int, int)>, rows: int, a: int, b: int)
    requires
        w.wf(),
        w.sweep(near, rows).linked(a, b),
        !w.linked(a, b),
    ensures
        near.contains((a, b)) || near.contains((b, a)),
    decreases rows,
{
    if rows > 0 {
        let before = w.sweep(near, rows - 1);
        lemma_sweep_wf(w, near, rows - 1);
        if before.linked(a, b) {
            law_pass_bonds_near_pairs(w, near, rows - 1, a, b);
        } else {
            lemma_row_bonds_near_pairs(before, near, rows - 1, w.kinds.len() as int, a, b);
        }
    }
}

/// A row of the formation pass bonds only pairs that were marked near.
pub proof fn lemma_row_bonds_near_pairs(
    w: World,
    near: Set<(int, int)>,
    i: int,
    upto: int,
    a: int,
    b: int,
)
    requires
        w.wf(),
        w.sweep_row(near, i, upto).linked(a, b),
        !w.linked(a, b),
    ensures
        near.contains((a, b)) || near.contains((b, a)),
    decreases upto - i,
{
    if upto > i + 1 {
        let before = w.sweep_row(near, i, upto - 1);
        lemma_sweep_row_wf(w, near, i, upto - 1);
        if before.linked(a, b) {
            lemma_row_bonds_near_pairs(w, near, i, upto - 1, a, b);
        } else {
            let after = before.attempt(near, i, upto - 1);
            let k = choose|k: int| 0 <= k < after.edges.len() && #[trigger] after.edges[k].joins(a, b);
            if k < before.edges.len() {
                assert(before.edges[k].joins(a, b));
            }
        }
    }
}

impl World {
    /// Whether this store is `earlier` with bonds added: the particles are
    /// the same, and the bonds of `earlier` come first, in their order.
    pub open spec fn extends(self, earlier: World) -> bool {
        self.kinds == earlier.kinds && earlier.edges.is_prefix_of(self.edges)
    }
}

/// More bonds give no particle fewer partners.
pub proof fn lemma_partners_grow(shorter: Seq<Bond>, longer: Seq<Bond>, i: int)
    requires
        shorter.is_prefix_of(longer),
    ensures
        partners_in(shorter, i).len() <= partners_in(longer, i).len(),
    decreases longer.len(),
{
    if shorter.len() < longer.len() {
        assert(shorter.is_prefix_of(longer.drop_last())) by {
            assert(shorter =~= longer.drop_last().subrange(0, shorter.len() as int));
        }
        lemma_partners_grow(shorter, longer.drop_last(), i);
    } else {
        assert(shorter =~= longer);
    }
}

/// Added bonds allow nothing new: a pair that may not bond may not bond
/// once bonds were added.
pub proof fn lemma_refused_stays_refused(earlier: World, later: World, a: int, b: int)
    requires
        later.extends(earlier),
        !earlier.may_bond(a, b),
    ensures
        !later.may_bond(a, b),
{
    lemma_partners_grow(earlier.edges, later.edges, a);
    lemma_partners_grow(earlier.edges, later.edges, b);
    if earlier.linked(a, b) {
        let k = choose|k: int| 0 <= k < earlier.edges.len() && #[trigger] earlier.edges[k].joins(a, b);
        assert(later.edges[k].joins(a, b));
    }
}

/// A request adds bonds at most.
pub proof fn lemma_request_extends(w: World, a: int, b: int)
    ensures
        w.request(a, b).extends(w),
{
    assert(w.edges.is_prefix_of(w.request(a, b).edges));
}

/// Extending is transitive.
pub proof fn lemma_extends_twice(first: World, second: World, third: World)
    requires
        second.extends(first),
        third.extends(second),
    ensures
        third.extends(first),
{
    assert(first.edges =~= third.edges.subrange(0, first.edges.len() as int));
}

/// A longer part of a row of the formation pass extends a shorter one.
pub proof fn lemma_sweep_row_extends(w: World, near: Set<(int, int)>, i: int, from: int, upto: int)
    requires
        from <= upto,
    ensures
        w.sweep_row(near, i, upto).extends(w.sweep_row(near, i, from)),
    decreases upto - from,
{
    let start = w.sweep_row(near, i, from);
    if from == upto {
        assert(start.edges.is_prefix_of(start.edges));
    } else {
        lemma_sweep_row_extends(w, near, i, from, upto - 1);
        let before = w.sweep_row(near, i, upto - 1);
        if upto > i + 1 {
            lemma_request_extends(before, i, upto - 1);
            lemma_extends_twice(start, before, w.sweep_row(near, i, upto));
        }
    }
}

/// More rows of the formation pass extend fewer.
pub proof fn lemma_sweep_extends(w: World, near: Set<(int, int)>, from: int, rows: int)
    requires
        from <= rows,
    ensures
        w.sweep(near, rows).extends(w.sweep(near, from)),
    decreases rows - from,
{
    let start = w.sweep(near, from);
    if from == rows {
        assert(start.edges.is_prefix_of(start.edges));
    } else {
        lemma_sweep_extends(w, near, from, rows - 1);
        let before = w.sweep(near, rows - 1);
        if rows > 0 {
            let n = w.kinds.len() as int;
            if rows - 1 <= n {
                lemma_sweep_row_extends(before, near, rows - 1, rows - 1, n);
            } else {
                assert(before.edges.is_prefix_of(before.edges));
            }
            lemma_extends_twice(start, before, w.sweep(near, rows));
        }
    }
}

/// The formation pass only adds bonds, and it is complete: when it is over,
/// no pair that was marked near, smaller index first, may still bond.
pub proof fn law_pass_leaves_no_candidate(w: World, near: Set<(int, int)>, a: int, b: int)
    requires
        w.wf(),
        0 <= a < b < w.kinds.len(),
        near.contains((a, b)),
    ensures
        w.sweep(near, w.kinds.len() as int).extends(w),
        !w.sweep(near, w.kinds.len() as int).may_bond(a, b),
{
    let n = w.kinds.len() as int;
    lemma_sweep_extends(w, near, 0, n);
    let row_start = w.sweep(near, a);
    lemma_sweep_wf(w, near, a);
    let tried = row_start.sweep_row(near, a, b + 1);
    let before = row_start.sweep_row(near, a, b);
    lemma_sweep_row_wf(row_start, near, a, b);
    law_bond_made_once(before, a, b);
    assert(!tried.may_bond(a, b));
    lemma_sweep_row_extends(row_start, near, a, b + 1, n);
    let row_end = row_start.sweep_row(near, a, n);
    lemma_refused_stays_refused(tried, row_end, a, b);
    assert(row_end == w.sweep(near, a + 1));
    lemma_sweep_extends(w, near, a + 1, n);
    lemma_refused_stays_refused(row_end, w.sweep(near, n), a, b);
}

} // verus!
