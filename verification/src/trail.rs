//! The bounded history of where a body has been.

use vstd::prelude::*;

verus! {

/// The last points of a body's path, oldest first, with the length that the
/// path is cut back to.
pub struct Trail<T> {
    points: Vec<T>,
    max_length: usize,
}

impl<T> View for Trail<T> {
    type V = Seq<T>;

    closed spec fn view(&self) -> Seq<T> {
        self.points@
    }
}

/// The path after the point `p` was recorded under the limit `limit`: `p` is
/// appended, and where the path is then longer than the limit, its oldest
/// point is dropped.
pub open spec fn recorded<T>(path: Seq<T>, limit: nat, p: T) -> Seq<T> {
    if path.len() + 1 > limit {
        path.push(p).subrange(1, path.len() as int + 1)
    } else {
        path.push(p)
    }
}

impl<T> Trail<T> {
    /// The length that the path is cut back to.
    pub closed spec fn limit(&self) -> nat {
        self.max_length as nat
    }

    /// An empty path with the limit `max_length`.
    pub fn new(max_length: usize) -> (trail: Trail<T>)
        ensures
            trail@ == Seq::<T>::empty(),
            trail.limit() == max_length,
    {
        Trail { points: Vec::new(), max_length }
    }

    /// The same path with the limit `length`. The path is not cut here: each
    /// later point drops at most one old point.
    pub fn with_trail_length(self, length: usize) -> (trail: Trail<T>)
        ensures
            trail@ == self@,
            trail.limit() == length,
    {
        Trail { points: self.points, max_length: length }
    }

    /// The limit.
    pub fn max_length(&self) -> (n: usize)
        ensures
            n == self.limit(),
    {
        self.max_length
    }

    /// The points, oldest first.
    pub fn points(&self) -> (all: &Vec<T>)
        ensures
            all@ == self@,
    {
        &self.points
    }

    /// Records the point `p`: it is appended, and where the path is then
    /// longer than the limit, the oldest point is dropped.
    pub fn update_trail(&mut self, p: T)
        ensures
            final(self)@ == recorded(old(self)@, old(self).limit(), p),
            final(self).limit() == old(self).limit(),
    {
        self.points.push(p);
        if self.points.len() > self.max_length {
            self.points.remove(0);
        }
        proof {
            assert(self@ =~= recorded(old(self)@, old(self).limit(), p));
        }
    }
}

/// A path that is within its limit stays within it, and a path under a
/// limit of zero stays empty.
pub proof fn law_trail_bounded<T>(path: Seq<T>, limit: nat, p: T)
    requires
        path.len() <= limit,
    ensures
        recorded(path, limit, p).len() <= limit,
        recorded(path, limit, p).len() == if path.len() < limit {
            path.len() + 1
        } else {
            path.len()
        },
{
}

} // verus!
