//! The history tracker: the most recent correlation scores for one kernel,
//! newest first, bounded by a fixed capacity.

use vstd::prelude::*;

verus! {

/// The trace that results from pushing `s` onto `trace` in a tracker of
/// capacity `cap`: `s` goes to the front and the sequence is cut back to at
/// most `cap` entries.
pub open spec fn push_spec<T>(trace: Seq<T>, s: T, cap: nat) -> Seq<T> {
    (seq![s] + trace).take(vstd::math::min(cap as int, trace.len() as int + 1))
}

/// The most recent correlation scores for one kernel, newest at index 0.
/// The length never exceeds the capacity fixed at construction; evaluation
/// by the classifier requires the trace to be full (`is_ready`).
pub struct HistoryTracker<T> {
    data: Vec<T>,
    cap: usize,
}

impl<T> View for HistoryTracker<T> {
    type V = Seq<T>;

    closed spec fn view(&self) -> Seq<T> {
        self.data@
    }
}

impl<T: Copy> HistoryTracker<T> {
    /// The capacity fixed at construction.
    pub closed spec fn capacity_spec(&self) -> usize {
        self.cap
    }

    /// The trace never holds more scores than the capacity.
    pub open spec fn wf(&self) -> bool {
        self@.len() <= self.capacity_spec()
    }

    /// An empty tracker of capacity `capacity`.
    pub fn new(capacity: usize) -> (r: HistoryTracker<T>)
        ensures
            r@ == Seq::<T>::empty(),
            r.capacity_spec() == capacity,
            r.wf(),
    {
        HistoryTracker { data: Vec::new(), cap: capacity }
    }

    /// The current number of retained scores.
    pub fn len(&self) -> (r: usize)
        ensures
            r == self@.len(),
    {
        self.data.len()
    }

    /// The capacity fixed at construction.
    pub fn capacity(&self) -> (r: usize)
        ensures
            r == self.capacity_spec(),
    {
        self.cap
    }

    /// True exactly when the trace is full: length equals capacity.
    pub fn is_ready(&self) -> (r: bool)
        ensures
            r == (self@.len() == self.capacity_spec()),
    {
        self.data.len() == self.cap
    }

    /// Inserts `s` at the front; once the trace would exceed the capacity,
    /// the oldest score falls off the back.
    pub fn push(&mut self, s: T)
        requires
            old(self).wf(),
        ensures
            final(self)@ == push_spec(old(self)@, s, old(self).capacity_spec() as nat),
            final(self).capacity_spec() == old(self).capacity_spec(),
            final(self).wf(),
    {
        if self.cap == 0 {
            proof {
                assert(self@ =~= push_spec(old(self)@, s, old(self).capacity_spec() as nat));
            }
            return ;
        }
        if self.data.len() >= self.cap {
            self.data.truncate(self.cap - 1);
        }
        self.data.insert(0, s);
        proof {
            assert(self@ =~= push_spec(old(self)@, s, old(self).capacity_spec() as nat));
        }
    }

    /// The retained scores, front (most recent) first.
    pub fn snapshot(&self) -> (r: &[T])
        ensures
            r@ == self@,
    {
        self.data.as_slice()
    }

    /// The score at position `i`, 0-based from the front: index 0 is the
    /// most recently pushed score.
    pub fn get(&self, i: usize) -> (r: T)
        requires
            i < self@.len(),
        ensures
            r == self@[i as int],
    {
        self.data[i]
    }

    /// Empties the trace; used after a positive detection so overlapping
    /// windows cannot re-trigger on stale history.
    pub fn clear(&mut self)
        ensures
            final(self)@ == Seq::<T>::empty(),
            final(self).capacity_spec() == old(self).capacity_spec(),
            final(self).wf(),
    {
        self.data.clear();
    }
}

} // verus!
