//! The buffer itself: a fixed arena of slots, and the head, tail and count
//! that say which of them are live.

use vstd::prelude::*;
use crate::laws::lemma_slot_after_once;
use crate::model::{front, pushed, reports_empty, reports_full, slot_after, without_front};

verus! {

/// A queue of at most `capacity` elements that gives up its oldest element
/// when one more is pushed onto a full buffer.
///
/// The slots are allocated once. A slot holds an element exactly while that
/// element is live, so an element is dropped when it is evicted or cleared,
/// and moved out when it is popped.
pub struct BadRingBuffer<T> {
    /// The slot that the next push writes.
    head: usize,
    /// The slot of the oldest live element.
    tail: usize,
    /// One slot for each element the buffer can hold.
    storage: Vec<Option<T>>,
    /// How many slots there are.
    capacity: usize,
    /// How many elements are live.
    count: usize,
}

impl<T> View for BadRingBuffer<T> {
    type V = Seq<T>;

    /// The live elements, oldest first.
    closed spec fn view(&self) -> Seq<T> {
        Seq::new(
            self.count as nat,
            |k: int|
                self.storage@[slot_after(self.tail as nat, k as nat, self.capacity as nat) as int]->0,
        )
    }
}

impl<T> BadRingBuffer<T> {
    /// The number of slots, fixed when the buffer is made.
    pub closed spec fn spec_capacity(&self) -> nat {
        self.capacity as nat
    }

    /// The slot that the next push writes.
    pub closed spec fn spec_head(&self) -> nat {
        self.head as nat
    }

    /// The slot of the oldest live element.
    pub closed spec fn spec_tail(&self) -> nat {
        self.tail as nat
    }

    /// What each slot holds.
    pub closed spec fn spec_slots(&self) -> Seq<Option<T>> {
        self.storage@
    }

    /// What holds of every buffer between calls; `lemma_invariant` spells
    /// it out.
    pub closed spec fn wf(&self) -> bool {
        &&& 1 <= self.capacity
        &&& self.storage@.len() == self.capacity
        &&& self.head < self.capacity
        &&& self.tail < self.capacity
        &&& self.count <= self.capacity
        &&& self.head == slot_after(self.tail as nat, self.count as nat, self.capacity as nat)
        &&& forall|k: nat|
            k < self.capacity ==> (#[trigger] self.storage@[slot_after(
                self.tail as nat,
                k,
                self.capacity as nat,
            ) as int] is Some <==> k < self.count)
    }

    /// There is at least one slot and never more live elements than slots;
    /// head and tail are slots; the head lies as many places after the tail
    /// as there are live elements; and the slots from the tail on hold the
    /// live elements in order, while every other slot holds nothing.
    pub proof fn lemma_invariant(&self)
        requires
            self.wf(),
        ensures
            1 <= self.spec_capacity(),
            self@.len() <= self.spec_capacity(),
            self.spec_slots().len() == self.spec_capacity(),
            self.spec_head() < self.spec_capacity(),
            self.spec_tail() < self.spec_capacity(),
            self.spec_head() == slot_after(self.spec_tail(), self@.len(), self.spec_capacity()),
            forall|k: nat|
                k < self.spec_capacity() ==> #[trigger] self.spec_slots()[slot_after(
                    self.spec_tail(),
                    k,
                    self.spec_capacity(),
                ) as int] == if k < self@.len() {
                    Some(self@[k as int])
                } else {
                    None
                },
    {
    }

    /// Makes an empty buffer with `capacity` slots, none of which holds
    /// anything yet.
    pub fn with_capacity(capacity: usize) -> (buffer: Self)
        requires
            capacity >= 1,
        ensures
            buffer.wf(),
            buffer.spec_capacity() == capacity,
            buffer@ == Seq::<T>::empty(),
            buffer.spec_head() == 0,
            buffer.spec_tail() == 0,
            buffer.spec_slots() == Seq::new(capacity as nat, |i: int| None::<T>),
    {
        let mut storage: Vec<Option<T>> = Vec::with_capacity(capacity);
        let mut made: usize = 0;
        while made < capacity
            invariant
                made <= capacity,
                storage@.len() == made,
                forall|i: int| 0 <= i < made ==> storage@[i] is None,
            decreases capacity - made,
        {
            storage.push(None);
            made += 1;
        }
        let buffer = BadRingBuffer { head: 0, tail: 0, storage, capacity, count: 0 };
        proof {
            lemma_slot_after_once(0, 0, capacity as nat);
        }
        buffer
    }

    /// Puts `value` in as the newest element. The value is written to the
    /// slot at the head, which drops the oldest element if the buffer was
    /// full; the head moves on by one, and so does the tail if an element was
    /// evicted.
    pub fn push(&mut self, value: T)
        requires
            old(self).wf(),
        ensures
            final(self).wf(),
            final(self).spec_capacity() == old(self).spec_capacity(),
            final(self)@ == pushed(old(self)@, old(self).spec_capacity(), value),
            final(self).spec_slots() == old(self).spec_slots().update(
                old(self).spec_head() as int,
                Some(value),
            ),
            final(self).spec_head() == slot_after(
                old(self).spec_head(),
                1,
                old(self).spec_capacity(),
            ),
            final(self).spec_tail() == if reports_full(old(self)@, old(self).spec_capacity()) {
                slot_after(old(self).spec_tail(), 1, old(self).spec_capacity())
            } else {
                old(self).spec_tail()
            },
    {
        let was_full = self.count == self.capacity;
        proof {
            lemma_slot_after_once(self.tail as nat, self.count as nat, self.capacity as nat);
            lemma_slot_after_once(self.head as nat, 1, self.capacity as nat);
        }
        // Writing the slot drops what it held: the oldest element when the buffer is full.
        self.storage[self.head] = Some(value);
        if self.count < self.capacity {
            self.count += 1;
        }
        self.head = (self.head + 1) % self.capacity;
        if was_full {
            self.tail = (self.tail + 1) % self.capacity;
        }
        proof {
            let capacity = self.capacity as nat;
            let tail = self.tail as nat;
            let before = *old(self);
            assert forall|k: nat| k < capacity implies (#[trigger] self.storage@[slot_after(
                tail,
                k,
                capacity,
            ) as int] is Some <==> k < self.count) by {
                lemma_slot_after_once(tail, k, capacity);
                if was_full && k + 1 < capacity {
                    lemma_slot_after_once(before.tail as nat, k + 1, capacity);
                }
            }
            lemma_slot_after_once(tail, self.count as nat, capacity);
            let after = pushed(before@, capacity, value);
            assert forall|k: int| 0 <= k < self@.len() implies self@[k] == after[k] by {
                lemma_slot_after_once(tail, k as nat, capacity);
                if was_full && k + 1 < capacity {
                    lemma_slot_after_once(before.tail as nat, (k + 1) as nat, capacity);
                }
            }
        }
    }

    /// Takes the oldest element out and returns it: its slot is left
    /// holding nothing and the tail moves on by one. When nothing is live
    /// the result is `None` and the buffer stays as it is.
    pub fn next(&mut self) -> (item: Option<T>)
        requires
            old(self).wf(),
        ensures
            final(self).wf(),
            final(self).spec_capacity() == old(self).spec_capacity(),
            item == front(old(self)@),
            final(self)@ == without_front(old(self)@),
            final(self).spec_head() == old(self).spec_head(),
            reports_empty(old(self)@) ==> *final(self) == *old(self),
            !reports_empty(old(self)@) ==> {
                &&& final(self).spec_tail() == slot_after(
                    old(self).spec_tail(),
                    1,
                    old(self).spec_capacity(),
                )
                &&& final(self).spec_slots() == old(self).spec_slots().update(
                    old(self).spec_tail() as int,
                    None,
                )
            },
    {
        if self.count == 0 {
            return None;
        }
        proof {
            lemma_slot_after_once(self.tail as nat, 0, self.capacity as nat);
            lemma_slot_after_once(self.tail as nat, 1, self.capacity as nat);
            lemma_slot_after_once(self.tail as nat, self.count as nat, self.capacity as nat);
        }
        let item = self.storage[self.tail].take();
        self.tail = (self.tail + 1) % self.capacity;
        self.count -= 1;
        proof {
            let capacity = self.capacity as nat;
            let tail = self.tail as nat;
            let before = *old(self);
            assert forall|k: nat| k < capacity implies (#[trigger] self.storage@[slot_after(
                tail,
                k,
                capacity,
            ) as int] is Some <==> k < self.count) by {
                lemma_slot_after_once(tail, k, capacity);
                if k + 1 < capacity {
                    lemma_slot_after_once(before.tail as nat, k + 1, capacity);
                }
            }
            lemma_slot_after_once(tail, self.count as nat, capacity);
            let after = without_front(before@);
            assert forall|k: int| 0 <= k < self@.len() implies self@[k] == after[k] by {
                lemma_slot_after_once(tail, k as nat, capacity);
                lemma_slot_after_once(before.tail as nat, (k + 1) as nat, capacity);
            }
        }
        item
    }

    /// Whether no element is live.
    pub fn empty(&self) -> (none_live: bool)
        ensures
            none_live == reports_empty(self@),
    {
        self.count == 0
    }

    /// Whether every slot holds a live element.
    pub fn full(&self) -> (all_live: bool)
        ensures
            all_live == reports_full(self@, self.spec_capacity()),
    {
        self.count == self.capacity
    }

    /// The number of slots, as given when the buffer was made.
    pub fn capacity(&self) -> (capacity: usize)
        ensures
            capacity == self.spec_capacity(),
    {
        self.capacity
    }

    /// Drops every live element, so that no slot holds anything, and starts
    /// again from the first slot.
    pub fn clear(&mut self)
        requires
            old(self).wf(),
        ensures
            final(self).wf(),
            final(self).spec_capacity() == old(self).spec_capacity(),
            final(self)@ == Seq::<T>::empty(),
            final(self).spec_head() == 0,
            final(self).spec_tail() == 0,
            final(self).spec_slots() == Seq::new(old(self).spec_capacity(), |i: int| None::<T>),
    {
        while self.count > 0
            invariant
                self.wf(),
                self.spec_capacity() == old(self).spec_capacity(),
            decreases self@.len(),
        {
            let _ = self.next();
        }
        let ghost emptied = *self;
        self.head = 0;
        self.tail = 0;
        proof {
            let capacity = self.capacity as nat;
            lemma_slot_after_once(0, 0, capacity);
            assert forall|k: nat| k < capacity implies self.storage@[k as int] is None by {
                let back = if k >= emptied.tail {
                    (k - emptied.tail) as nat
                } else {
                    (k - emptied.tail + capacity) as nat
                };
                lemma_slot_after_once(emptied.tail as nat, back, capacity);
            }
        }
    }

    /// Takes every live element out, oldest first, and leaves the buffer as
    /// `clear` does.
    pub fn drain(&mut self) -> (values: Vec<T>)
        requires
            old(self).wf(),
        ensures
            final(self).wf(),
            final(self).spec_capacity() == old(self).spec_capacity(),
            values@ == old(self)@,
            final(self)@ == Seq::<T>::empty(),
            final(self).spec_head() == 0,
            final(self).spec_tail() == 0,
            final(self).spec_slots() == Seq::new(old(self).spec_capacity(), |i: int| None::<T>),
    {
        let mut values: Vec<T> = Vec::new();
        while self.count > 0
            invariant
                self.wf(),
                self.spec_capacity() == old(self).spec_capacity(),
                values@ + self@ == old(self)@,
            decreases self@.len(),
        {
            if let Some(value) = self.next() {
                values.push(value);
            }
        }
        self.clear();
        values
    }
}

} // verus!
