//! Appending one element to a tuple, growing its arity by one.  Update
//! routines use this to accumulate per-type column handles into one result
//! tuple, one clause at a time.

use vstd::prelude::*;

verus! {

/// Appends a value to a tuple, producing the next wider tuple.
pub trait TupAppend<T, R>: Sized {
    fn tup_append(self, x: T) -> (r: R);
}

impl<A, B> TupAppend<B, (A, B)> for (A,) {
    fn tup_append(self, x: B) -> (r: (A, B))
        ensures
            r == (self.0, x),
    {
        (self.0, x)
    }
}

impl<A, B, C> TupAppend<C, (A, B, C)> for (A, B) {
    fn tup_append(self, x: C) -> (r: (A, B, C))
        ensures
            r == (self.0, self.1, x),
    {
        (self.0, self.1, x)
    }
}

impl<A, B, C, D> TupAppend<D, (A, B, C, D)> for (A, B, C) {
    fn tup_append(self, x: D) -> (r: (A, B, C, D))
        ensures
            r == (self.0, self.1, self.2, x),
    {
        (self.0, self.1, self.2, x)
    }
}

impl<A, B, C, D, E> TupAppend<E, (A, B, C, D, E)> for (A, B, C, D) {
    fn tup_append(self, x: E) -> (r: (A, B, C, D, E))
        ensures
            r == (self.0, self.1, self.2, self.3, x),
    {
        (self.0, self.1, self.2, self.3, x)
    }
}

impl<A, B, C, D, E, F> TupAppend<F, (A, B, C, D, E, F)> for (A, B, C, D, E) {
    fn tup_append(self, x: F) -> (r: (A, B, C, D, E, F))
        ensures
            r == (self.0, self.1, self.2, self.3, self.4, x),
    {
        (self.0, self.1, self.2, self.3, self.4, x)
    }
}

} // verus!
