use vstd::prelude::*;

use crate::bus::ring_buff::RingBuff as Ring;

verus! {

/// Ring buffer that items are pushed to; once full, a push evicts the oldest item
pub struct RingBuff<T, const N: usize> {
    ring: Ring<T, N>,
}

impl<T: Copy, const N: usize> RingBuff<T, N> {

    /// Items from oldest to newest
    pub closed spec fn spec_items(&self) -> Seq<T> {
        self.ring.spec_items()
    }

    pub closed spec fn wf(&self) -> bool {
        self.ring.wf()
    }

    /// Create an empty ring buffer
    pub fn new() -> (r: Self)
        requires
            N > 0,
        ensures
            r.wf(),
            r.spec_items() == Seq::<T>::empty(),
    {
        RingBuff { ring: Ring::new() }
    }

    /// Create a ring buffer that holds the given items, oldest first
    pub fn from(items: &[T]) -> (r: Self)
        requires
            0 < items@.len() <= N,
        ensures
            r.wf(),
            r.spec_items() == items@,
    {
        let mut buff = Self::new();
        let mut i: usize = 0;
        while i < items.len()
            invariant
                buff.wf(),
                i <= items@.len() <= N,
                buff.spec_items() == items@.subrange(0, i as int),
            decreases items@.len() - i,
        {
            buff.push(items[i]);
            i = i + 1;
            assert(buff.spec_items() =~= items@.subrange(0, i as int));
        }
        assert(items@.subrange(0, items@.len() as int) =~= items@);
        buff
    }

    /// Number of items held
    pub fn len(&self) -> (r: usize)
        requires
            self.wf(),
        ensures
            r == self.spec_items().len(),
            r <= N,
    {
        self.ring.len()
    }

    /// Push an item, evicting the oldest once full
    pub fn push(&mut self, item: T) -> (r: &mut Self)
        requires
            old(self).wf(),
        ensures
            r.wf(),
            *final(self) == *final(r),
            r.spec_items() == if old(self).spec_items().len() < N {
                old(self).spec_items().push(item)
            } else {
                old(self).spec_items().drop_first().push(item)
            },
    {
        self.ring.push(item);
        self
    }

    /// Items from newest to oldest
    pub fn iter_to_tail(&self) -> (r: Vec<T>)
        requires
            self.wf(),
        ensures
            r@ == self.spec_items().reverse(),
    {
        self.ring.iter_to_tail()
    }

    /// Index after `index` in the ring
    pub fn next(index: usize) -> (r: usize)
        requires
            N > 0,
            index < N,
        ensures
            r == crate::bus::ring_buff::ring_next(index as int, N as int),
    {
        Ring::<T, N>::next(index)
    }

    /// Index before `index` in the ring
    pub fn prev(index: usize) -> (r: usize)
        requires
            N > 0,
            index < N,
        ensures
            r == crate::bus::ring_buff::ring_prev(index as int, N as int),
    {
        Ring::<T, N>::prev(index)
    }
}

} // verus!
