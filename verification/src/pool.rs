//! Bounded pool of reusable connection-like resources. Construction fixes
//! the capacity once and for all; items are checked out exclusively and
//! must be handed back, and the resident and checked-out counts always sum
//! to the capacity.

use vstd::prelude::*;

verus! {

/// A fixed-capacity pool. Every slot's content is created once, at
/// construction, and afterwards only moves between "resident in the pool"
/// and "checked out to exactly one holder".
pub struct Pool<T> {
    nelem: usize,
    queue: Vec<T>,
}

impl<T> Pool<T> {
    /// The fixed number of slots.
    pub closed spec fn capacity(&self) -> int {
        self.nelem as int
    }

    /// The items currently resident in the pool.
    pub closed spec fn resident(&self) -> Seq<T> {
        self.queue@
    }

    pub open spec fn resident_count(&self) -> int {
        self.resident().len() as int
    }

    /// How many items are checked out right now.
    pub open spec fn outstanding(&self) -> int {
        self.capacity() - self.resident_count()
    }

    /// A pool is well formed when it was built with a positive capacity and
    /// no slot has been duplicated or lost: resident plus checked-out items
    /// account for exactly the capacity.
    pub open spec fn wf(&self) -> bool {
        self.capacity() > 0 && self.resident_count() <= self.capacity()
    }
}

impl<T: Clone> Pool<T> {
    /// A pool of `nelem` slots, each holding a clone of `model`. A zero
    /// capacity is a programmer error, not a runtime condition.
    pub fn new(nelem: usize, model: T) -> (p: Pool<T>)
        requires
            nelem > 0,
        ensures
            p.wf(),
            p.capacity() == nelem,
            p.outstanding() == 0,
            forall|i: int|
                0 <= i < nelem - 1 ==> vstd::pervasive::cloned::<T>(
                    model,
                    #[trigger] p.resident()[i],
                ),
            p.resident().last() == model,
    {
        let mut queue: Vec<T> = Vec::new();
        for k in 1..nelem
            invariant
                queue@.len() == k - 1,
                forall|m: int|
                    0 <= m < k - 1 ==> vstd::pervasive::cloned::<T>(
                        model,
                        #[trigger] queue@[m],
                    ),
        {
            queue.push(model.clone());
        }
        queue.push(model);
        Pool { nelem, queue }
    }
}

impl<T> Pool<T> {
    /// A pool of `nelem` slots, the item of slot `i` produced by
    /// `generator(i)`. A zero capacity is a programmer error, not a runtime
    /// condition.
    pub fn init<F: Fn(usize) -> T>(nelem: usize, generator: F) -> (p: Pool<T>)
        requires
            nelem > 0,
            forall|i: usize| i < nelem ==> #[trigger] generator.requires((i,)),
        ensures
            p.wf(),
            p.capacity() == nelem,
            p.outstanding() == 0,
            forall|i: int|
                0 <= i < nelem ==> generator.ensures(
                    (i as usize,),
                    #[trigger] p.resident()[i],
                ),
    {
        let mut queue: Vec<T> = Vec::new();
        for k in 0..nelem
            invariant
                queue@.len() == k,
                forall|i: usize| i < nelem ==> #[trigger] generator.requires((i,)),
                forall|m: int|
                    0 <= m < k ==> generator.ensures((m as usize,), #[trigger] queue@[m]),
        {
            queue.push(generator(k));
        }
        Pool { nelem, queue }
    }

    /// The fixed number of slots, as constructed.
    pub fn slots(&self) -> (n: usize)
        ensures
            n == self.capacity(),
    {
        self.nelem
    }

    /// How many items are resident right now.
    pub fn available(&self) -> (n: usize)
        ensures
            n == self.resident_count(),
    {
        self.queue.len()
    }

    /// Non-blocking checkout: nothing when the pool is exhausted, otherwise
    /// exclusive ownership of one resident item.
    pub fn try_borrow(&mut self) -> (r: Option<T>)
        requires
            old(self).wf(),
        ensures
            final(self).wf(),
            final(self).capacity() == old(self).capacity(),
            match r {
                None => old(self).resident_count() == 0 && final(self).resident() == old(
                    self,
                ).resident(),
                Some(item) => old(self).resident_count() > 0 && item == old(
                    self,
                ).resident().last() && final(self).resident() == old(self).resident().drop_last()
                    && final(self).outstanding() == old(self).outstanding() + 1,
            },
    {
        match self.queue.pop() {
            Some(item) => Some(item),
            None => {
                proof {
                    assert(self.queue@ =~= old(self).queue@);
                }
                None
            },
        }
    }

    /// Hand a checked-out item back. Callers return exactly what they
    /// borrowed, so more returns than outstanding checkouts cannot happen.
    pub fn release(&mut self, item: T)
        requires
            old(self).wf(),
            old(self).outstanding() > 0,
        ensures
            final(self).wf(),
            final(self).capacity() == old(self).capacity(),
            final(self).resident() == old(self).resident().push(item),
            final(self).outstanding() == old(self).outstanding() - 1,
    {
        self.queue.push(item);
    }
}

/// With capacity N, at most N items can be simultaneously checked out: the
/// checked-out and resident counts of a well-formed pool always sum to its
/// fixed capacity.
pub proof fn lemma_pool_slots<T>(p: Pool<T>)
    requires
        p.wf(),
    ensures
        p.outstanding() + p.resident_count() == p.capacity(),
        0 <= p.outstanding() <= p.capacity(),
{
}

} // verus!
