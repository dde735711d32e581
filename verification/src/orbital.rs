//! Quantum numbers of the orbitals of a hydrogen-like atom.

use vstd::prelude::*;
use crate::text::{decimal, push_char, push_decimal, push_signed_decimal, signed_decimal};

verus! {

/// The quantum numbers of an orbital.
#[derive(Debug, Clone, Copy, PartialEq, Eq, Structural)]
pub struct QuantumNumbers {
    /// Principal quantum number, from 1.
    pub n: u32,
    /// Angular momentum quantum number, from 0 to `n - 1`.
    pub l: u32,
    /// Magnetic quantum number, from `-l` to `l`.
    pub m: i32,
}

/// Whether three numbers name an orbital: `l` lies below `n`, and `m`
/// between `-l` and `l`.
pub open spec fn allowed(n: u32, l: u32, m: i32) -> bool {
    l < n && -(l as int) <= m as int <= l as int
}

/// The letter of a subshell: s, p, d, f for 0 to 3, g from 4 on.
pub open spec fn subshell_letter(l: u32) -> char {
    if l == 0 {
        's'
    } else if l == 1 {
        'p'
    } else if l == 2 {
        'd'
    } else if l == 3 {
        'f'
    } else {
        'g'
    }
}

impl QuantumNumbers {
    /// The invariant of the numbers of an orbital.
    pub open spec fn wf(self) -> bool {
        allowed(self.n, self.l, self.m)
    }

    /// The name of the orbital: the numeral of `n`, the letter of the
    /// subshell, and the numeral of `m` with its sign.
    pub open spec fn label(self) -> Seq<char> {
        decimal(self.n as nat).push(subshell_letter(self.l)) + signed_decimal(self.m as int)
    }

    /// The numbers `n`, `l`, `m`, where they name an orbital.
    pub fn new(n: u32, l: u32, m: i32) -> (made: Option<QuantumNumbers>)
        ensures
            made == if allowed(n, l, m) {
                Some(QuantumNumbers { n, l, m })
            } else {
                None::<QuantumNumbers>
            },
    {
        let size: i64 = if m < 0 {
            -(m as i64)
        } else {
            m as i64
        };
        if l >= n || size > l as i64 {
            None
        } else {
            Some(QuantumNumbers { n, l, m })
        }
    }

    /// The name of the orbital, such as `1s+0`, `2p-1` or `3d+2`.
    pub fn name(&self) -> (text: String)
        ensures
            text@ == self.label(),
    {
        let l_char = match self.l {
            0 => 's',
            1 => 'p',
            2 => 'd',
            3 => 'f',
            _ => 'g',
        };
        let mut text = String::new();
        push_decimal(&mut text, self.n as u64);
        push_char(&mut text, l_char);
        push_signed_decimal(&mut text, self.m as i64);
        proof {
            assert(text@ =~= self.label());
        }
        text
    }

    /// The orbital 1s.
    pub fn s1() -> (q: QuantumNumbers)
        ensures
            q == (QuantumNumbers { n: 1, l: 0, m: 0 }),
            q.wf(),
    {
        QuantumNumbers { n: 1, l: 0, m: 0 }
    }

    /// The orbital 2s.
    pub fn s2() -> (q: QuantumNumbers)
        ensures
            q == (QuantumNumbers { n: 2, l: 0, m: 0 }),
            q.wf(),
    {
        QuantumNumbers { n: 2, l: 0, m: 0 }
    }

    /// The orbital 2p with m = 0.
    pub fn p2_0() -> (q: QuantumNumbers)
        ensures
            q == (QuantumNumbers { n: 2, l: 1, m: 0 }),
            q.wf(),
    {
        QuantumNumbers { n: 2, l: 1, m: 0 }
    }

    /// The orbital 2p with m = 1.
    pub fn p2_1() -> (q: QuantumNumbers)
        ensures
            q == (QuantumNumbers { n: 2, l: 1, m: 1 }),
            q.wf(),
    {
        QuantumNumbers { n: 2, l: 1, m: 1 }
    }

    /// The orbital 2p with m = -1.
    pub fn p2_m1() -> (q: QuantumNumbers)
        ensures
            q == (QuantumNumbers { n: 2, l: 1, m: -1i32 }),
            q.wf(),
    {
        QuantumNumbers { n: 2, l: 1, m: -1 }
    }

    /// The orbital 3s.
    pub fn s3() -> (q: QuantumNumbers)
        ensures
            q == (QuantumNumbers { n: 3, l: 0, m: 0 }),
            q.wf(),
    {
        QuantumNumbers { n: 3, l: 0, m: 0 }
    }

    /// The orbital 3p with m = 0.
    pub fn p3_0() -> (q: QuantumNumbers)
        ensures
            q == (QuantumNumbers { n: 3, l: 1, m: 0 }),
            q.wf(),
    {
        QuantumNumbers { n: 3, l: 1, m: 0 }
    }

    /// The orbital 3d with m = 0.
    pub fn d3_0() -> (q: QuantumNumbers)
        ensures
            q == (QuantumNumbers { n: 3, l: 2, m: 0 }),
            q.wf(),
    {
        QuantumNumbers { n: 3, l: 2, m: 0 }
    }

    /// The orbital 3d with m = 1.
    pub fn d3_1() -> (q: QuantumNumbers)
        ensures
            q == (QuantumNumbers { n: 3, l: 2, m: 1 }),
            q.wf(),
    {
        QuantumNumbers { n: 3, l: 2, m: 1 }
    }

    /// The orbital 3d with m = 2.
    pub fn d3_2() -> (q: QuantumNumbers)
        ensures
            q == (QuantumNumbers { n: 3, l: 2, m: 2 }),
            q.wf(),
    {
        QuantumNumbers { n: 3, l: 2, m: 2 }
    }
}

} // verus!
