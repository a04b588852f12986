//! A fixed-capacity FIFO buffer: pushing into a full buffer evicts the
//! oldest element, so the buffer always holds the most recent items.

use vstd::prelude::*;

verus! {

/// What one push does to the abstract contents: with capacity 0 the buffer
/// stays empty; below capacity the item is appended; at capacity the oldest
/// element is dropped before the append.
pub open spec fn push_evict<T>(s: Seq<T>, cap: nat, item: T) -> Seq<T> {
    if cap == 0 {
        Seq::<T>::empty()
    } else if s.len() < cap {
        s.push(item)
    } else {
        s.drop_first().push(item)
    }
}

/// The contents after pushing `items`, in order, into an empty buffer of
/// capacity `cap`.
pub open spec fn pushed_all<T>(cap: nat, items: Seq<T>) -> Seq<T>
    decreases items.len(),
{
    if items.len() == 0 {
        Seq::<T>::empty()
    } else {
        push_evict(pushed_all(cap, items.drop_last()), cap, items.last())
    }
}

/// The contents after pushing `items`, in order, into a buffer that
/// already holds `s`.
pub open spec fn push_evict_all<T>(s: Seq<T>, cap: nat, items: Seq<T>) -> Seq<T>
    decreases items.len(),
{
    if items.len() == 0 {
        s
    } else {
        push_evict(push_evict_all(s, cap, items.drop_last()), cap, items.last())
    }
}

/// Law: after any sequence of N pushes into a buffer of capacity C, the
/// buffer holds exactly min(N, C) elements, namely the last min(N, C)
/// pushed items in push order. A capacity-0 buffer stays empty.
pub proof fn lemma_pushed_all_last<T>(cap: nat, items: Seq<T>)
    ensures
        pushed_all(cap, items).len() == vstd::math::min(items.len() as int, cap as int),
        pushed_all(cap, items) =~= items.skip(
            items.len() - vstd::math::min(items.len() as int, cap as int),
        ),
    decreases items.len(),
{
    if items.len() > 0 {
        lemma_pushed_all_last(cap, items.drop_last());
        let prev = pushed_all(cap, items.drop_last());
        if cap != 0 && prev.len() >= cap {
            assert(pushed_all(cap, items) =~= items.skip(items.len() - cap as int));
        }
    }
}

/// Fixed-capacity ring buffer; when full, pushing drops the oldest element.
#[derive(Clone, Debug)]
pub struct RingBuffer<T> {
    buf: Vec<T>,
    capacity: usize,
}

impl<T> View for RingBuffer<T> {
    type V = Seq<T>;

    closed spec fn view(&self) -> Seq<T> {
        self.buf@
    }
}

impl<T> RingBuffer<T> {
    pub closed spec fn spec_capacity(&self) -> nat {
        self.capacity as nat
    }

    /// The buffer never holds more than its capacity.
    pub open spec fn well_formed(&self) -> bool {
        self@.len() <= self.spec_capacity()
    }

    pub fn new(capacity: usize) -> (r: Self)
        ensures
            r@ == Seq::<T>::empty(),
            r.spec_capacity() == capacity,
            r.well_formed(),
    {
        Self { buf: Vec::new(), capacity }
    }

    /// Push an element; if the buffer is at capacity, the oldest element is
    /// dropped first, so the size never exceeds the capacity.
    pub fn push(&mut self, item: T)
        requires
            old(self).well_formed(),
        ensures
            final(self)@ == push_evict(old(self)@, old(self).spec_capacity(), item),
            final(self).spec_capacity() == old(self).spec_capacity(),
            final(self).well_formed(),
    {
        if self.capacity == 0 {
            return;
        }
        if self.buf.len() == self.capacity {
            self.buf.remove(0);
        }
        self.buf.push(item);
    }

    /// The elements oldest-to-newest, as a snapshot view.
    pub fn iter(&self) -> (r: &Vec<T>)
        ensures
            r@ == self@,
    {
        &self.buf
    }

    pub fn len(&self) -> (r: usize)
        ensures
            r == self@.len(),
    {
        self.buf.len()
    }
}

} // verus!
