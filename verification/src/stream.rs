//! Byte-stream adapters over a buffer of bytes: reading pops, writing
//! pushes, flushing clears.

use vstd::prelude::*;
use crate::buffer::BadRingBuffer;
use crate::laws::{lemma_pushed_all_keeps_newest, lemma_slot_after_once, lemma_slot_after_twice};
use crate::model::{evicted, newest, pushed_all, slot_after};

verus! {

impl BadRingBuffer<u8> {
    /// Pops bytes into the front of `buf`, oldest first, until `buf` is full
    /// or the buffer is empty, and returns how many were moved. The rest of
    /// `buf` keeps what it held.
    pub fn read(&mut self, buf: &mut [u8]) -> (moved: usize)
        requires
            old(self).wf(),
        ensures
            final(self).wf(),
            final(self).spec_capacity() == old(self).spec_capacity(),
            moved == vstd::math::min(old(buf)@.len() as int, old(self)@.len() as int),
            final(buf)@ == old(self)@.take(moved as int) + old(buf)@.skip(moved as int),
            final(self)@ == old(self)@.skip(moved as int),
            final(self).spec_head() == old(self).spec_head(),
            final(self).spec_tail() == slot_after(
                old(self).spec_tail(),
                moved as nat,
                old(self).spec_capacity(),
            ),
    {
        proof {
            old(self).lemma_invariant();
            lemma_slot_after_once(old(self).spec_tail(), 0, old(self).spec_capacity());
        }
        let room: usize = buf.len();
        let mut index: usize = 0;
        while index < room && !self.empty()
            invariant
                self.wf(),
                self.spec_capacity() == old(self).spec_capacity(),
                1 <= old(self).spec_capacity(),
                room == old(buf)@.len(),
                index <= room,
                index <= old(self)@.len(),
                buf@ == old(self)@.take(index as int) + old(buf)@.skip(index as int),
                self@ == old(self)@.skip(index as int),
                self.spec_head() == old(self).spec_head(),
                self.spec_tail() == slot_after(
                    old(self).spec_tail(),
                    index as nat,
                    old(self).spec_capacity(),
                ),
            decreases room - index,
        {
            proof {
                lemma_slot_after_twice(
                    old(self).spec_tail(),
                    index as nat,
                    1,
                    old(self).spec_capacity(),
                );
            }
            if let Some(byte) = self.next() {
                buf[index] = byte;
                index += 1;
            }
        }
        index
    }

    /// Pushes every byte of `buf` in order and returns how many were taken,
    /// which is all of them: once the buffer is full each further byte
    /// evicts the oldest one.
    pub fn write(&mut self, buf: &[u8]) -> (taken: usize)
        requires
            old(self).wf(),
        ensures
            final(self).wf(),
            final(self).spec_capacity() == old(self).spec_capacity(),
            taken == buf@.len(),
            final(self)@ == pushed_all(old(self)@, old(self).spec_capacity(), buf@),
            final(self)@ == newest(old(self)@ + buf@, old(self).spec_capacity()),
            final(self).spec_head() == slot_after(
                old(self).spec_head(),
                buf@.len(),
                old(self).spec_capacity(),
            ),
            final(self).spec_tail() == slot_after(
                old(self).spec_tail(),
                evicted(old(self)@.len(), buf@.len(), old(self).spec_capacity()),
                old(self).spec_capacity(),
            ),
    {
        proof {
            old(self).lemma_invariant();
            lemma_slot_after_once(old(self).spec_head(), 0, old(self).spec_capacity());
            lemma_slot_after_once(old(self).spec_tail(), 0, old(self).spec_capacity());
        }
        let total: usize = buf.len();
        let mut index: usize = 0;
        while index < total
            invariant
                self.wf(),
                self.spec_capacity() == old(self).spec_capacity(),
                1 <= old(self).spec_capacity(),
                old(self)@.len() <= old(self).spec_capacity(),
                total == buf@.len(),
                index <= total,
                self@ == pushed_all(
                    old(self)@,
                    old(self).spec_capacity(),
                    buf@.take(index as int),
                ),
                self.spec_head() == slot_after(
                    old(self).spec_head(),
                    index as nat,
                    old(self).spec_capacity(),
                ),
                self.spec_tail() == slot_after(
                    old(self).spec_tail(),
                    evicted(old(self)@.len(), index as nat, old(self).spec_capacity()),
                    old(self).spec_capacity(),
                ),
            decreases total - index,
        {
            proof {
                let capacity = old(self).spec_capacity();
                assert(buf@.take(index + 1).drop_last() =~= buf@.take(index as int));
                lemma_pushed_all_keeps_newest(old(self)@, capacity, buf@.take(index as int));
                lemma_slot_after_twice(old(self).spec_head(), index as nat, 1, capacity);
                lemma_slot_after_twice(
                    old(self).spec_tail(),
                    evicted(old(self)@.len(), index as nat, capacity),
                    1,
                    capacity,
                );
            }
            self.push(buf[index]);
            index += 1;
        }
        proof {
            assert(buf@.take(total as int) =~= buf@);
            lemma_pushed_all_keeps_newest(old(self)@, old(self).spec_capacity(), buf@);
        }
        total
    }

    /// Discards everything the buffer holds.
    pub fn flush(&mut self)
        requires
            old(self).wf(),
        ensures
            final(self).wf(),
            final(self).spec_capacity() == old(self).spec_capacity(),
            final(self)@ == Seq::<u8>::empty(),
            final(self).spec_head() == 0,
            final(self).spec_tail() == 0,
            final(self).spec_slots() == Seq::new(old(self).spec_capacity(), |i: int| None::<u8>),
    {
        self.clear();
    }
}

} // verus!
