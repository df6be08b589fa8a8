//! A fixed-capacity FIFO queue over a ring of slots. A full queue refuses a
//! new item and hands it back, so that the caller can wait for room; nothing
//! is dropped.

use vstd::prelude::*;

verus! {

/// The slot that holds the item `i` places after the one at `head`, in a
/// ring of `cap` slots.
pub open spec fn ring_index(head: int, i: int, cap: int) -> int {
    if head + i < cap {
        head + i
    } else {
        head + i - cap
    }
}

/// A ring of `capacity` slots holding the queued items from `head` on.
pub struct BoundedChannel<T> {
    slots: Vec<Option<T>>,
    head: usize,
    len: usize,
}

impl<T> BoundedChannel<T> {
    /// The queued items, oldest first.
    pub closed spec fn view(&self) -> Seq<T> {
        Seq::new(
            self.len as nat,
            |i: int| self.slots@[ring_index(self.head as int, i, self.slots@.len() as int)]->Some_0,
        )
    }

    /// The most items the queue holds at once.
    pub closed spec fn capacity(&self) -> nat {
        self.slots@.len()
    }

    pub closed spec fn wf(&self) -> bool {
        &&& self.slots@.len() > 0
        &&& self.head < self.slots@.len()
        &&& self.len <= self.slots@.len()
        &&& forall|i: int|
            0 <= i < self.len ==> (#[trigger] self.slots@[ring_index(
                self.head as int,
                i,
                self.slots@.len() as int,
            )]) is Some
    }

    /// The number of queued items never exceeds the capacity.
    pub proof fn lemma_occupancy_bounded(&self)
        requires
            self.wf(),
        ensures
            self.view().len() <= self.capacity(),
    {
    }

    /// An empty queue of `capacity` slots.
    pub fn new(capacity: usize) -> (r: Self)
        requires
            capacity > 0,
        ensures
            r.wf(),
            r.view() == Seq::<T>::empty(),
            r.capacity() == capacity,
    {
        let mut slots: Vec<Option<T>> = Vec::new();
        let mut i: usize = 0;
        while i < capacity
            invariant
                0 <= i <= capacity,
                slots@.len() == i,
            decreases capacity - i,
        {
            slots.push(None);
            i = i + 1;
        }
        let r = BoundedChannel { slots, head: 0, len: 0 };
        assert(r.view() =~= Seq::<T>::empty());
        r
    }

    /// The number of queued items.
    pub fn len(&self) -> (r: usize)
        requires
            self.wf(),
        ensures
            r == self.view().len(),
    {
        self.len
    }

    /// The most items the queue holds at once.
    pub fn capacity_of(&self) -> (r: usize)
        requires
            self.wf(),
        ensures
            r == self.capacity(),
    {
        self.slots.len()
    }

    /// Whether no item is queued.
    pub fn is_empty(&self) -> (r: bool)
        requires
            self.wf(),
        ensures
            r == (self.view().len() == 0),
    {
        self.len == 0
    }

    /// Whether every slot is taken.
    pub fn is_full(&self) -> (r: bool)
        requires
            self.wf(),
        ensures
            r == (self.view().len() == self.capacity()),
    {
        self.len == self.slots.len()
    }

    /// Queues `item` behind the others; when every slot is taken, leaves the
    /// queue as it is and hands `item` back.
    pub fn try_send(&mut self, item: T) -> (r: Result<(), T>)
        requires
            old(self).wf(),
        ensures
            final(self).wf(),
            final(self).capacity() == old(self).capacity(),
            r is Ok <==> old(self).view().len() < old(self).capacity(),
            r is Ok ==> final(self).view() == old(self).view().push(item),
            r is Err ==> r->Err_0 == item && final(self).view() == old(self).view(),
    {
        if self.len == self.slots.len() {
            return Err(item);
        }
        let cap = self.slots.len();
        let tail: usize = if self.head < cap - self.len {
            self.head + self.len
        } else {
            self.len - (cap - self.head)
        };
        assert(tail == ring_index(self.head as int, self.len as int, cap as int));
        let ghost old_view = self.view();
        self.slots.set(tail, Some(item));
        self.len = self.len + 1;
        assert forall|i: int| 0 <= i < self.len implies (#[trigger] self.slots@[ring_index(
            self.head as int,
            i,
            cap as int,
        )]) is Some by {
            if i < self.len - 1 {
                assert(old(self).slots@[ring_index(self.head as int, i, cap as int)] is Some);
            }
        }
        assert(self.view() =~= old_view.push(item));
        Ok(())
    }

    /// Takes the oldest item, or `None` when the queue is empty.
    pub fn try_receive(&mut self) -> (r: Option<T>)
        requires
            old(self).wf(),
        ensures
            final(self).wf(),
            final(self).capacity() == old(self).capacity(),
            r is Some <==> old(self).view().len() > 0,
            r is Some ==> r->Some_0 == old(self).view()[0] && final(self).view()
                == old(self).view().drop_first(),
            r is None ==> final(self).view() == old(self).view(),
    {
        if self.len == 0 {
            return None;
        }
        let cap = self.slots.len();
        let h = self.head;
        let ghost old_view = self.view();
        assert(self.slots@[ring_index(h as int, 0, cap as int)] is Some);
        let item = self.slots[h].take();
        self.head = if h + 1 == cap { 0 } else { h + 1 };
        self.len = self.len - 1;
        assert forall|i: int| 0 <= i < self.len implies (#[trigger] self.slots@[ring_index(
            self.head as int,
            i,
            cap as int,
        )]) is Some by {
            assert(ring_index(self.head as int, i, cap as int) == ring_index(h as int, i + 1, cap as int));
            assert(old(self).slots@[ring_index(h as int, i + 1, cap as int)] is Some);
        }
        assert forall|i: int| 0 <= i < self.len implies #[trigger] self.view()[i] == old_view[i + 1] by {
            assert(ring_index(self.head as int, i, cap as int) == ring_index(h as int, i + 1, cap as int));
        }
        assert(self.view() =~= old_view.drop_first());
        item
    }

    /// Takes every queued item, oldest first, leaving the queue empty.
    pub fn try_drain_all(&mut self) -> (r: Vec<T>)
        requires
            old(self).wf(),
        ensures
            final(self).wf(),
            final(self).capacity() == old(self).capacity(),
            r@ == old(self).view(),
            final(self).view() == Seq::<T>::empty(),
    {
        let mut out: Vec<T> = Vec::new();
        while self.len > 0
            invariant
                self.wf(),
                self.capacity() == old(self).capacity(),
                out@ + self.view() == old(self).view(),
            decreases self.len,
        {
            let ghost before = self.view();
            match self.try_receive() {
                Some(x) => {
                    out.push(x);
                    assert(out@ + self.view() =~= old(self).view());
                },
                None => {},
            }
        }
        assert(self.view() =~= Seq::<T>::empty());
        assert(out@ =~= old(self).view());
        out
    }
}

} // verus!
