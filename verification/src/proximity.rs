//! The table of pairs of particles that are close enough, and slow enough
//! relative to each other, to bond. The engine's numerical half fills it
//! from positions and velocities; the bond graph reads it.

use vstd::prelude::*;

verus! {

/// A symmetric table over the particles `0..size`, all of whose entries are
/// unmarked at first.
pub struct Proximity {
    size: usize,
    cells: Vec<Vec<bool>>,
}

impl View for Proximity {
    type V = Set<(int, int)>;

    /// The marked pairs, each in both orders.
    closed spec fn view(&self) -> Set<(int, int)> {
        Set::new(
            |p: (int, int)|
                0 <= p.0 < self.cells@.len() && 0 <= p.1 < self.cells@[p.0]@.len()
                    && self.cells@[p.0]@[p.1],
        )
    }
}

impl Proximity {
    /// The number of particles that the table covers.
    pub closed spec fn extent(&self) -> nat {
        self.size as nat
    }

    /// The table is square.
    pub closed spec fn wf(&self) -> bool {
        &&& self.cells@.len() == self.size
        &&& forall|i: int| 0 <= i < self.cells@.len() ==> (#[trigger] self.cells@[i])@.len() == self.size
    }

    /// A table over `size` particles with no pair marked.
    pub fn new(size: usize) -> (table: Proximity)
        ensures
            table.wf(),
            table.extent() == size,
            table@ == Set::<(int, int)>::empty(),
    {
        let mut cells: Vec<Vec<bool>> = Vec::new();
        let mut i: usize = 0;
        while i < size
            invariant
                i <= size,
                cells@.len() == i,
                forall|r: int| 0 <= r < i ==> (#[trigger] cells@[r])@.len() == size,
                forall|r: int, c: int| 0 <= r < i && 0 <= c < size ==> !(#[trigger] cells@[r]@[c]),
            decreases size - i,
        {
            let mut row: Vec<bool> = Vec::new();
            let mut j: usize = 0;
            while j < size
                invariant
                    j <= size,
                    row@.len() == j,
                    forall|c: int| 0 <= c < j ==> !(#[trigger] row@[c]),
                decreases size - j,
            {
                row.push(false);
                j += 1;
            }
            cells.push(row);
            i += 1;
        }
        let table = Proximity { size, cells };
        assert(table@ =~= Set::<(int, int)>::empty());
        table
    }

    /// The number of particles that the table covers.
    pub fn size(&self) -> (n: usize)
        ensures
            n == self.extent(),
    {
        self.size
    }

    /// Marks the unordered pair of `a` and `b`. A pair with an index outside
    /// the table is not recorded; the result tells whether the pair was.
    pub fn mark(&mut self, a: usize, b: usize) -> (recorded: bool)
        requires
            old(self).wf(),
        ensures
            final(self).wf(),
            final(self).extent() == old(self).extent(),
            recorded == (a < old(self).extent() && b < old(self).extent()),
            final(self)@ == if recorded {
                old(self)@.insert((a as int, b as int)).insert((b as int, a as int))
            } else {
                old(self)@
            },
    {
        if a >= self.size || b >= self.size {
            return false;
        }
        self.cells[a][b] = true;
        self.cells[b][a] = true;
        assert(self@ =~= old(self)@.insert((a as int, b as int)).insert((b as int, a as int)));
        true
    }

    /// Tells whether the pair of `a` and `b` is marked. A pair with an index
    /// outside the table never is.
    pub fn is_near(&self, a: usize, b: usize) -> (near: bool)
        requires
            self.wf(),
        ensures
            near == self@.contains((a as int, b as int)),
    {
        if a >= self.size || b >= self.size {
            return false;
        }
        self.cells[a][b]
    }
}

} // verus!
