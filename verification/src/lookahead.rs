//! Peeking at upcoming items of a lazy sequence without consuming them.

use std::collections::VecDeque;
use vstd::prelude::*;
use vstd::std_specs::iter::IteratorSpec;

verus! {

/// A wrapper that lets a consumer look at upcoming items of `iter` before
/// taking them. Items that were looked at wait in a queue until they are
/// consumed, so the consumer meets them in the order in which `iter` gave
/// them.
#[verifier::reject_recursive_types(T)]
pub struct Lookahead<T, A> where A: Iterator<Item = T>, T: Copy {
    dec: VecDeque<T>,
    iter: A,
}

impl<T, A> Lookahead<T, A> where A: Iterator<Item = T>, T: Copy {
    /// The items pulled from the producer and not yet consumed, oldest first.
    pub closed spec fn queued(&self) -> Seq<T> {
        self.dec@
    }

    /// The underlying producer in its present state.
    pub closed spec fn source(&self) -> A {
        self.iter
    }

    /// A wrapper around `iter` that has pulled nothing yet.
    pub fn new(iter: A) -> (r: Self)
        ensures
            r.queued() == Seq::<T>::empty(),
            r.source() == iter,
    {
        Lookahead { dec: VecDeque::new(), iter }
    }

    /// Removes and returns the next item: the oldest queued one, or with an
    /// empty queue whatever the producer gives next.
    ///
    /// Where the producer keeps the laws of iterators, the items still to
    /// come are the queue followed by what the producer has left. The call
    /// returns the first of them and leaves the others in their order, or
    /// returns nothing where none is left.
    pub fn consume(&mut self) -> (r: Option<T>)
        ensures
            old(self).queued().len() > 0 ==> r == Some(old(self).queued()[0])
                && final(self).queued() == old(self).queued().drop_first()
                && final(self).source() == old(self).source(),
            old(self).queued().len() == 0 ==> final(self).queued() == old(self).queued(),
            old(self).source().obeys_prophetic_iter_laws() ==> {
                let before = old(self).queued() + old(self).source().remaining();
                let after = final(self).queued() + final(self).source().remaining();
                &&& final(self).source().obeys_prophetic_iter_laws()
                &&& before.len() == 0 ==> r is None && after == before
                &&& before.len() > 0 ==> r == Some(before[0]) && after == before.drop_first()
            },
    {
        match self.dec.pop_front() {
            Some(item) => Some(item),
            None => self.iter.next(),
        }
    }

    /// Looks at the item `n` places ahead without consuming anything.
    ///
    /// An index inside the queue is answered from the queue, and the
    /// producer is left alone. Otherwise items are pulled to the back of the
    /// queue until it holds `n + 1` of them or the producer has no more; in
    /// the second case the answer is `None`, and what was pulled stays
    /// queued.
    ///
    /// Where the producer keeps the laws of iterators, the items still to
    /// come are the same after the call as before it, and the answer is the
    /// one at index `n` among them, if there is one.
    pub fn lookahead(&mut self, n: usize) -> (r: Option<&T>)
        ensures
            old(self).queued().is_prefix_of(final(self).queued()),
            n < old(self).queued().len() ==> final(self).queued() == old(self).queued()
                && final(self).source() == old(self).source(),
            r matches Some(item) ==> n < final(self).queued().len() && *item
                == final(self).queued()[n as int],
            r matches Some(_) && n >= old(self).queued().len() ==> final(self).queued().len() == n
                + 1,
            r is None ==> final(self).queued().len() <= n,
            old(self).source().obeys_prophetic_iter_laws() ==> {
                let before = old(self).queued() + old(self).source().remaining();
                let after = final(self).queued() + final(self).source().remaining();
                &&& final(self).source().obeys_prophetic_iter_laws()
                &&& after == before
                &&& n < before.len() ==> r == Some(&before[n as int])
                &&& n >= before.len() ==> r is None && final(self).queued() == before
            },
    {
        while self.dec.len() <= n
            invariant
                old(self).queued().is_prefix_of(self.queued()),
                self.queued().len() <= old(self).queued().len() || self.queued().len() <= n + 1,
                n < old(self).queued().len() ==> self.queued() == old(self).queued()
                    && self.source() == old(self).source(),
                old(self).source().obeys_prophetic_iter_laws() ==> {
                    &&& self.source().obeys_prophetic_iter_laws()
                    &&& self.queued() + self.source().remaining() == old(self).queued() + old(
                        self,
                    ).source().remaining()
                },
            decreases n + 1 - self.dec.len(),
        {
            match self.iter.next() {
                Some(item) => {
                    self.dec.push_back(item);
                },
                None => {
                    return None;
                },
            }
        }
        Some(&self.dec[n])
    }
}

} // verus!
