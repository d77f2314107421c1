//! A singly-linked, nil-terminated cons list: the sole aggregate structure
//! for argument lists and for the children of a nested subexpression.

use vstd::prelude::*;

verus! {

/// A cons list holding elements of type `T`: either empty, or one element
/// plus the rest of the list.
#[derive(Debug)]
pub enum Cons<T> {
    Nil,
    Cons(T, Box<Cons<T>>),
}

impl<T> Cons<T> {
    /// The mathematical contents of the list, front to back.
    pub open spec fn seq(self) -> Seq<T>
        decreases self,
    {
        match self {
            Cons::Nil => Seq::empty(),
            Cons::Cons(head, tail) => seq![head] + tail.seq(),
        }
    }

    /// True exactly of the empty list.
    pub open spec fn spec_is_nil(self) -> bool {
        self matches Cons::Nil
    }
}

/// Prepends one element to a list.
pub fn cons<T>(e: T, l: Cons<T>) -> (r: Cons<T>)
    ensures
        r.seq() == seq![e] + l.seq(),
        r matches Cons::Cons(h, t) && h == e && *t == l,
{
    Cons::Cons(e, Box::new(l))
}

} // verus!
