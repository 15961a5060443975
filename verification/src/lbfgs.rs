//! The limited memory of the L-BFGS optimiser: the curvature pairs of the most
//! recent accepted steps, oldest first, evicting the oldest pair once the
//! memory is full.

use vstd::prelude::*;

verus! {

/// The curvature history of an L-BFGS run.
pub struct CurvatureHistory<T> {
    entries: Vec<T>,
    capacity: usize,
}

/// The history after recording `items` in order, starting from `start`, with
/// memory `capacity`.
pub open spec fn recorded<T>(start: Seq<T>, capacity: nat, items: Seq<T>) -> Seq<T>
    decreases items.len(),
{
    if items.len() == 0 {
        start
    } else {
        let before = recorded(start, capacity, items.drop_last());
        if before.len() == capacity {
            before.drop_first().push(items.last())
        } else {
            before.push(items.last())
        }
    }
}

impl<T> View for CurvatureHistory<T> {
    type V = Seq<T>;

    closed spec fn view(&self) -> Seq<T> {
        self.entries@
    }
}

impl<T> CurvatureHistory<T> {
    /// The number of pairs the history keeps.
    pub closed spec fn capacity_spec(&self) -> nat {
        self.capacity as nat
    }

    /// The history holds at most `capacity` pairs.
    pub open spec fn wf(&self) -> bool {
        self@.len() <= self.capacity_spec()
    }

    /// An empty history that keeps up to `capacity` pairs.
    pub fn new(capacity: usize) -> (h: CurvatureHistory<T>)
        ensures
            h.wf(),
            h@ == Seq::<T>::empty(),
            h.capacity_spec() == capacity,
    {
        CurvatureHistory { entries: Vec::new(), capacity }
    }

    /// Number of pairs held.
    pub fn len(&self) -> (n: usize)
        ensures
            n == self@.len(),
    {
        self.entries.len()
    }

    /// The number of pairs the history keeps.
    pub fn capacity(&self) -> (n: usize)
        ensures
            n == self.capacity_spec(),
    {
        self.capacity
    }

    /// The `i`-th pair, oldest first.
    pub fn get(&self, i: usize) -> (item: &T)
        requires
            i < self@.len(),
        ensures
            *item == self@[i as int],
    {
        &self.entries[i]
    }

    /// The most recent pair, if any.
    pub fn newest(&self) -> (item: Option<&T>)
        ensures
            self@.len() == 0 ==> item is None,
            self@.len() > 0 ==> item == Some(&self@.last()),
    {
        if self.entries.len() == 0 {
            None
        } else {
            Some(&self.entries[self.entries.len() - 1])
        }
    }

    /// Records a new pair: when the history is full the oldest pair leaves
    /// first. The memory must keep at least one pair.
    pub fn record(&mut self, item: T)
        requires
            old(self).wf(),
            old(self).capacity_spec() > 0,
        ensures
            final(self).wf(),
            final(self).capacity_spec() == old(self).capacity_spec(),
            final(self)@ == (if old(self)@.len() == old(self).capacity_spec() {
                old(self)@.drop_first().push(item)
            } else {
                old(self)@.push(item)
            }),
            final(self)@ == recorded(old(self)@, old(self).capacity_spec(), seq![item]),
    {
        if self.entries.len() == self.capacity {
            self.entries.remove(0);
        }
        self.entries.push(item);
        proof {
            assert(self.entries@ =~= (if old(self)@.len() == old(self).capacity_spec() {
                old(self)@.drop_first().push(item)
            } else {
                old(self)@.push(item)
            }));
            let cap = old(self).capacity_spec();
            assert(seq![item].drop_last() =~= Seq::<T>::empty());
            assert(seq![item].last() == item);
            assert(recorded(old(self)@, cap, Seq::<T>::empty()) == old(self)@);
            assert(recorded(old(self)@, cap, seq![item]) == (if old(self)@.len() == cap {
                old(self)@.drop_first().push(item)
            } else {
                old(self)@.push(item)
            }));
        }
    }
}

/// Recording pairs one at a time into a history that starts empty keeps the
/// `capacity` most recent pairs, oldest first.
pub proof fn lemma_history_keeps_most_recent<T>(capacity: nat, items: Seq<T>)
    requires
        capacity > 0,
    ensures
        recorded(Seq::empty(), capacity, items) == items.subrange(
            if items.len() > capacity { items.len() - capacity } else { 0 },
            items.len() as int,
        ),
    decreases items.len(),
{
    if items.len() == 0 {
        assert(items.subrange(0, 0) =~= Seq::<T>::empty());
    } else {
        let prefix = items.drop_last();
        lemma_history_keeps_most_recent(capacity, prefix);
        let before = recorded(Seq::empty(), capacity, prefix);
        let lo = if prefix.len() > capacity { prefix.len() - capacity } else { 0 };
        assert(before == prefix.subrange(lo, prefix.len() as int));
        if before.len() == capacity {
            assert(before.drop_first().push(items.last()) =~= items.subrange(
                items.len() - capacity,
                items.len() as int,
            ));
        } else {
            assert(before.push(items.last()) =~= items.subrange(0, items.len() as int));
        }
    }
}

} // verus!
