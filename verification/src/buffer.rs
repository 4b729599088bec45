//! The stream buffer: an ordered sequence of incoming samples, appended at
//! the tail and consumed from the head.

use vstd::prelude::*;
use vstd::slice::slice_subrange;
use crate::InsufficientDataError;

verus! {

/// A growable/shrinkable ordered sequence of the most recent unconsumed
/// samples. Samples stay in arrival order: `append` extends the tail and
/// `consume` discards a prefix from the head, and neither reorders anything.
pub struct StreamBuffer<T> {
    data: Vec<T>,
}

impl<T> View for StreamBuffer<T> {
    type V = Seq<T>;

    closed spec fn view(&self) -> Seq<T> {
        self.data@
    }
}

impl<T: Copy> StreamBuffer<T> {
    /// An empty buffer.
    pub fn new() -> (r: StreamBuffer<T>)
        ensures
            r@ == Seq::<T>::empty(),
    {
        StreamBuffer { data: Vec::new() }
    }

    /// The number of buffered samples.
    pub fn len(&self) -> (r: usize)
        ensures
            r == self@.len(),
    {
        self.data.len()
    }

    /// Adds `samples` at the tail, preserving their order.
    pub fn append(&mut self, samples: &[T])
        requires
            old(self)@.len() + samples@.len() <= usize::MAX,
        ensures
            final(self)@ == old(self)@ + samples@,
    {
        let mut i: usize = 0;
        while i < samples.len()
            invariant
                i <= samples@.len(),
                old(self)@.len() + samples@.len() <= usize::MAX,
                self@ == old(self)@ + samples@.take(i as int),
            decreases samples@.len() - i,
        {
            self.data.push(samples[i]);
            proof {
                assert(self@ =~= old(self)@ + samples@.take(i + 1));
            }
            i = i + 1;
        }
        proof {
            assert(self@ =~= old(self)@ + samples@);
        }
    }

    /// A read-only view of the first `n` samples; fails when fewer than `n`
    /// samples are buffered. Never copies.
    pub fn window<'a>(&'a self, n: usize) -> (r: Result<&'a [T], InsufficientDataError>)
        ensures
            n <= self@.len() ==> (r matches Ok(w) && w@ == self@.subrange(0, n as int)),
            n > self@.len() ==> (r matches Err(e) && e == InsufficientDataError),
    {
        if n <= self.data.len() {
            Ok(slice_subrange(self.data.as_slice(), 0, n))
        } else {
            Err(InsufficientDataError)
        }
    }

    /// Discards the first `min(n, len)` samples from the head. Consuming
    /// past the end is not an error: the request is clamped.
    pub fn consume(&mut self, n: usize)
        ensures
            final(self)@ == old(self)@.skip(vstd::math::min(n as int, old(self)@.len() as int)),
    {
        let m: usize = if n <= self.data.len() { n } else { self.data.len() };
        let tail = self.data.split_off(m);
        self.data = tail;
        proof {
            assert(self@ =~= old(self)@.skip(vstd::math::min(n as int, old(self)@.len() as int)));
        }
    }
}

} // verus!
