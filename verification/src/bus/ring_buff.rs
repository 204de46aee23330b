use vstd::prelude::*;

verus! {

/// Fixed-size ring buffer. Items are pushed to the head or to the tail; once it is full,
/// a push evicts the item at the other end.
pub struct RingBuff<T, const N: usize> {
    items: Vec<Option<T>>,
    head: usize,
    tail: usize,
    len: usize,
}

/// Position `x` (below `2n`) in a ring of `n` slots
pub open spec fn wrap(x: int, n: int) -> int {
    if x < n { x } else { x - n }
}

/// Index after `index` in a ring of `n` slots
pub open spec fn ring_next(index: int, n: int) -> int {
    if index == n - 1 { 0 } else { index + 1 }
}

/// Index before `index` in a ring of `n` slots
pub open spec fn ring_prev(index: int, n: int) -> int {
    if index == 0 { n - 1 } else { index - 1 }
}

impl<T: Copy, const N: usize> RingBuff<T, N> {

    /// Items from tail (oldest) to head (newest)
    pub closed spec fn spec_items(&self) -> Seq<T> {
        Seq::new(self.len as nat, |k: int| self.items@[wrap(self.tail + k, N as int) as int].unwrap())
    }

    /// Internal consistency: the items live in the slots from tail up to, not including, head
    pub closed spec fn wf(&self) -> bool {
        &&& N > 0
        &&& self.items@.len() == N
        &&& self.head < N && self.tail < N && self.len <= N
        &&& self.head == wrap(self.tail + self.len, N as int)
        &&& forall|k: int| 0 <= k < self.len ==> (#[trigger] self.items@[wrap(self.tail + k, N as int) as int]) is Some
    }

    /// A well-formed buffer has room for at least one item and holds at most `N`
    pub proof fn lemma_bounds(&self)
        requires
            self.wf(),
        ensures
            N > 0,
            self.spec_items().len() <= N,
    {
    }

    /// Create an empty ring buffer
    pub fn new() -> (r: Self)
        requires
            N > 0,
        ensures
            r.wf(),
            r.spec_items() == Seq::<T>::empty(),
    {
        let mut items: Vec<Option<T>> = Vec::new();
        while items.len() < N
            invariant
                items.len() <= N,
            decreases N - items.len(),
        {
            items.push(None);
        }
        let r = Self { items, head: 0, tail: 0, len: 0 };
        assert(r.spec_items() =~= Seq::<T>::empty());
        r
    }

    /// Slot `k` places after `tail`
    fn slot(tail: usize, k: usize) -> (r: usize)
        requires
            tail < N,
            k < N,
        ensures
            r == wrap(tail + k, N as int),
    {
        if k < N - tail { tail + k } else { k - (N - tail) }
    }

    /// Capacity of the ring buffer
    pub fn size(&self) -> (r: usize)
        ensures
            r == N,
    {
        N
    }

    /// Number of items held
    pub fn len(&self) -> (r: usize)
        requires
            self.wf(),
        ensures
            r == self.spec_items().len(),
            r <= N,
    {
        self.len
    }

    /// Index after `index` in the ring
    pub fn next(index: usize) -> (r: usize)
        requires
            N > 0,
            index < N,
        ensures
            r == ring_next(index as int, N as int),
    {
        if index == N - 1 { 0 } else { index + 1 }
    }

    /// Index before `index` in the ring
    pub fn prev(index: usize) -> (r: usize)
        requires
            N > 0,
            index < N,
        ensures
            r == ring_prev(index as int, N as int),
    {
        if index == 0 { N - 1 } else { index - 1 }
    }

    /// Push an item to the head of the ring buffer, evicting the tail item once full
    pub fn push(&mut self, item: T) -> (r: &mut Self)
        requires
            old(self).wf(),
        ensures
            r.wf(),
            *final(self) == *final(r),
            r.spec_items() == if old(self).spec_items().len() < N {
                old(self).spec_items().push(item)
            } else {
                old(self).spec_items().drop_first().push(item)
            },
    {
        let ghost old_items = self.spec_items();
        let ghost old_slots = self.items@;
        let h = self.head;
        self.items.set(h, Some(item));
        self.head = Self::next(h);
        if self.len == N {
            self.tail = Self::next(self.tail);
        } else {
            self.len = self.len + 1;
        }
        proof {
            let n = N as int;
            assert forall|k: int| 0 <= k < self.len implies
                (#[trigger] self.items@[wrap(self.tail + k, n) as int]) is Some by {
                let j = wrap(self.tail + k, n);
                if j != h {
                    if old(self).len == N {
                        assert(old_slots[wrap(old(self).tail + (k + 1), n) as int] is Some);
                        assert(wrap(old(self).tail + (k + 1), n) == j);
                    } else {
                        assert(old_slots[wrap(old(self).tail + k, n) as int] is Some);
                    }
                }
            }
            let expected = if old_items.len() < N { old_items.push(item) } else { old_items.drop_first().push(item) };
            assert forall|k: int| 0 <= k < self.len implies #[trigger] self.spec_items()[k] == expected[k] by {
                let j = wrap(self.tail + k, n);
                if k == self.len - 1 {
                    assert(j == h);
                } else if old(self).len == N {
                    assert(wrap(old(self).tail + (k + 1), n) == j);
                    assert(j != h);
                } else {
                    assert(j != h);
                }
            }
            assert(self.spec_items() =~= expected);
        }
        self
    }

    /// Push an item to the tail of the ring buffer, evicting the head item once full
    pub fn push_back(&mut self, item: T) -> (r: &mut Self)
        requires
            old(self).wf(),
        ensures
            r.wf(),
            *final(self) == *final(r),
            r.spec_items() == if old(self).spec_items().len() < N {
                seq![item] + old(self).spec_items()
            } else {
                (seq![item] + old(self).spec_items()).drop_last()
            },
    {
        let ghost old_items = self.spec_items();
        let ghost old_slots = self.items@;
        let t = Self::prev(self.tail);
        self.tail = t;
        self.items.set(t, Some(item));
        if self.len == N {
            self.head = Self::prev(self.head);
        } else {
            self.len = self.len + 1;
        }
        proof {
            let n = N as int;
            assert forall|k: int| 0 <= k < self.len implies
                (#[trigger] self.items@[wrap(self.tail + k, n) as int]) is Some by {
                if k > 0 {
                    assert(wrap(self.tail + k, n) == wrap(old(self).tail + (k - 1), n));
                    assert(old_slots[wrap(old(self).tail + (k - 1), n) as int] is Some);
                    assert(wrap(old(self).tail + (k - 1), n) != t);
                }
            }
            let expected = if old_items.len() < N { seq![item] + old_items } else { (seq![item] + old_items).drop_last() };
            assert forall|k: int| 0 <= k < self.len implies #[trigger] self.spec_items()[k] == expected[k] by {
                if k > 0 {
                    assert(wrap(self.tail + k, n) == wrap(old(self).tail + (k - 1), n));
                    assert(wrap(old(self).tail + (k - 1), n) != t);
                }
            }
            assert(self.spec_items() =~= expected);
        }
        self
    }

    /// Items from head (newest) to tail (oldest)
    pub fn iter_to_tail(&self) -> (r: Vec<T>)
        requires
            self.wf(),
        ensures
            r@ == self.spec_items().reverse(),
    {
        let mut r: Vec<T> = Vec::new();
        let mut k: usize = self.len;
        while k > 0
            invariant
                self.wf(),
                k <= self.len,
                r@ == self.spec_items().subrange(k as int, self.len as int).reverse(),
            decreases k,
        {
            k = k - 1;
            let j = Self::slot(self.tail, k);
            proof { assert(self.items@[wrap(self.tail + k, N as int) as int] is Some); }
            let item = self.items[j].unwrap();
            let ghost before = r@;
            r.push(item);
            proof {
                let s = self.spec_items();
                assert(r@ =~= s.subrange(k as int, self.len as int).reverse());
            }
        }
        proof {
            assert(self.spec_items().subrange(0, self.len as int) =~= self.spec_items());
        }
        r
    }

    /// Items from tail (oldest) to head (newest)
    pub fn iter_to_head(&self) -> (r: Vec<T>)
        requires
            self.wf(),
        ensures
            r@ == self.spec_items(),
    {
        let mut r: Vec<T> = Vec::new();
        let mut k: usize = 0;
        while k < self.len
            invariant
                self.wf(),
                k <= self.len,
                r@ == self.spec_items().subrange(0, k as int),
            decreases self.len - k,
        {
            let j = Self::slot(self.tail, k);
            proof { assert(self.items@[wrap(self.tail + k, N as int) as int] is Some); }
            let item = self.items[j].unwrap();
            r.push(item);
            k = k + 1;
            proof { assert(r@ =~= self.spec_items().subrange(0, k as int)); }
        }
        proof { assert(self.spec_items().subrange(0, self.len as int) =~= self.spec_items()); }
        r
    }
}

/// Law: a buffer that is not full keeps every item pushed, oldest first; once full it keeps
/// the latest `N` items
pub proof fn lemma_push_keeps_latest<T>(items: Seq<T>, item: T, n: nat)
    requires
        items.len() <= n,
        n > 0,
    ensures
        ({
            let next = if items.len() < n { items.push(item) } else { items.drop_first().push(item) };
            &&& next.len() == if items.len() < n { items.len() + 1 } else { n }
            &&& next.last() == item
            &&& next.drop_last() == items.subrange(items.len() - (next.len() - 1), items.len() as int)
        }),
{
    let next = if items.len() < n { items.push(item) } else { items.drop_first().push(item) };
    assert(next.drop_last() =~= items.subrange(items.len() - (next.len() - 1), items.len() as int));
}

} // verus!
