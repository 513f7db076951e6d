//! A fixed-capacity FIFO that evicts its oldest element on overflow,
//! with a ghost record of everything ever pushed.

use vstd::prelude::*;

verus! {

/// The suffix of `s` of length at most `cap`: what a ring of capacity
/// `cap` retains of the pushed sequence `s`.
pub open spec fn suffix_within<T>(s: Seq<T>, cap: int) -> Seq<T> {
    if s.len() <= cap {
        s
    } else {
        s.skip(s.len() - cap)
    }
}

/// A bounded FIFO. `pushed()` is the ghost sequence of every element
/// ever pushed; the buffer holds its suffix of length at most the
/// capacity.
pub struct Ring<T> {
    items: Vec<T>,
    capacity: usize,
    history: Ghost<Seq<T>>,
}

impl<T> View for Ring<T> {
    type V = Seq<T>;

    closed spec fn view(&self) -> Seq<T> {
        self.items@
    }
}

impl<T> Ring<T> {
    /// The fixed capacity.
    pub closed spec fn cap(&self) -> int {
        self.capacity as int
    }

    /// Everything ever pushed, in order.
    pub closed spec fn pushed(&self) -> Seq<T> {
        self.history@
    }

    /// The buffer is exactly the most recent elements of the pushed
    /// sequence, at most `cap()` of them, in insertion order.
    pub closed spec fn wf(&self) -> bool {
        &&& self.capacity >= 1
        &&& self@ == suffix_within(self.pushed(), self.cap())
    }

    /// An empty ring of the given capacity.
    pub fn new(capacity: usize) -> (r: Ring<T>)
        requires
            capacity >= 1,
        ensures
            r.wf(),
            r@ == Seq::<T>::empty(),
            r.pushed() == Seq::<T>::empty(),
            r.cap() == capacity,
    {
        let r = Ring { items: Vec::new(), capacity, history: Ghost(Seq::empty()) };
        proof {
            assert(r@ =~= suffix_within(r.pushed(), r.cap()));
        }
        r
    }

    /// Appends an element; past the capacity the oldest element leaves.
    pub fn push(&mut self, x: T)
        requires
            old(self).wf(),
        ensures
            final(self).wf(),
            final(self).cap() == old(self).cap(),
            final(self).pushed() == old(self).pushed().push(x),
            final(self)@ == suffix_within(old(self)@.push(x), old(self).cap()),
    {
        proof {
            assert(old(self)@.len() <= old(self).cap());
        }
        self.items.push(x);
        proof {
            self.history@ = self.history@.push(x);
        }
        if self.items.len() > self.capacity {
            let _evicted = self.items.remove(0);
            proof {
                assert(self@ =~= suffix_within(old(self)@.push(x), old(self).cap()));
                assert(suffix_within(old(self)@.push(x), old(self).cap()) =~= suffix_within(
                    self.pushed(),
                    self.cap(),
                ));
            }
        } else {
            proof {
                assert(self@ =~= suffix_within(old(self)@.push(x), old(self).cap()));
                assert(suffix_within(old(self)@.push(x), old(self).cap()) =~= suffix_within(
                    self.pushed(),
                    self.cap(),
                ));
            }
        }
    }

    /// How many elements the buffer holds now.
    pub fn len(&self) -> (n: usize)
        ensures
            n == self@.len(),
    {
        self.items.len()
    }

    /// The retained elements, oldest first.
    pub fn entries(&self) -> (r: &Vec<T>)
        ensures
            r@ == self@,
    {
        &self.items
    }

    /// One retained element.
    pub fn get(&self, i: usize) -> (r: &T)
        requires
            i < self@.len(),
        ensures
            *r == self@[i as int],
    {
        &self.items[i]
    }
}

/// A ring buffer never exceeds its capacity and always retains the
/// most recently pushed elements, in insertion order.
pub proof fn lemma_ring_retains_recent<T>(r: Ring<T>)
    requires
        r.wf(),
    ensures
        r@.len() <= r.cap(),
        r@ == suffix_within(r.pushed(), r.cap()),
        r.pushed().len() >= r.cap() ==> r@.len() == r.cap(),
        forall|i: int|
            0 <= i < r@.len() ==> r@[i] == r.pushed()[r.pushed().len() - r@.len() + i],
{
    assert(r@.len() <= r.cap());
    if r.pushed().len() <= r.cap() {
        assert(forall|i: int|
            0 <= i < r@.len() ==> r@[i] == r.pushed()[r.pushed().len() - r@.len() + i]);
    } else {
        assert(forall|i: int|
            0 <= i < r@.len() ==> r@[i] == r.pushed()[r.pushed().len() - r@.len() + i]);
    }
}

} // verus!
