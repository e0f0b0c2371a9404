//! A lazy sequence adapted from a pre-existing, already-materialised source.
//!
//! The adapter carries no scheduling concern: its source is synchronous, so
//! every pull either yields the next element immediately or immediately
//! signals end-of-sequence. It never suspends.

use vstd::prelude::*;
use crate::poll::Poll;

verus! {

/// A stream created from a finite source of elements.
///
/// This stream is created by the [`from_iter`] function; see its
/// documentation for more.
#[derive(Clone, Debug)]
pub struct FromIter<T> {
    items: Vec<T>,
}

impl<T> View for FromIter<T> {
    type V = Seq<T>;

    closed spec fn view(&self) -> Seq<T> {
        self.items@
    }
}

/// Wraps a finite source of elements as a pull-based stream that yields
/// them in order.
pub fn from_iter<T>(items: Vec<T>) -> (s: FromIter<T>)
    ensures
        s@ == items@,
{
    FromIter { items }
}

impl<T> FromIter<T> {
    /// Pulls the next element.
    ///
    /// The underlying source is synchronous, so the result is always
    /// `Ready`: either `Ready(Some(first element))`, consuming it, or
    /// `Ready(None)` once the source is exhausted.
    pub fn poll_next(&mut self) -> (r: Poll<Option<T>>)
        ensures
            r is Ready,
            old(self)@.len() == 0 ==> final(self)@ == old(self)@ && (r matches Poll::Ready(o)
                && o is None),
            old(self)@.len() > 0 ==> final(self)@ == old(self)@.drop_first() && (r matches Poll::Ready(o)
                && o matches Some(x) && x == old(self)@[0]),
    {
        if self.items.len() == 0 {
            Poll::Ready(None)
        } else {
            let x = self.items.remove(0);
            Poll::Ready(Some(x))
        }
    }
}

} // verus!
