//! What the queue model gives for whole runs of pushes and pops.
//!
//! The contracts of the buffer say what one call does to its view. The proofs
//! here are about the functions that those contracts are written in, so each
//! holds of every buffer that the calls are made on.

use vstd::prelude::*;
use crate::model::{
    after_pops, after_steps, count_after_steps, front, newest, nth_pop, pushed, pushed_all,
    reports_empty, reports_full, slot_after, Step,
};

verus! {

/// Moving on from a slot by no more than one lap goes round at most once.
pub proof fn lemma_slot_after_once(start: nat, offset: nat, capacity: nat)
    requires
        start < capacity,
        offset <= capacity,
    ensures
        slot_after(start, offset, capacity) == if start + offset < capacity {
            start + offset
        } else {
            (start + offset - capacity) as nat
        },
{
    if start + offset < capacity {
        vstd::arithmetic::div_mod::lemma_small_mod(start + offset, capacity);
    } else {
        vstd::arithmetic::div_mod::lemma_small_mod((start + offset - capacity) as nat, capacity);
        vstd::arithmetic::div_mod::lemma_mod_sub_multiples_vanish(
            (start + offset) as int,
            capacity as int,
        );
    }
}

/// Moving on round the ring in two goes ends where moving on once by the
/// sum ends.
pub proof fn lemma_slot_after_twice(start: nat, first: nat, second: nat, capacity: nat)
    requires
        capacity >= 1,
    ensures
        slot_after(slot_after(start, first, capacity), second, capacity) == slot_after(
            start,
            first + second,
            capacity,
        ),
{
    vstd::arithmetic::div_mod::lemma_add_mod_noop_right(
        second as int,
        (start + first) as int,
        capacity as int,
    );
}

/// A buffer that was just made, with room for at least one element,
/// reports empty, does not report full, and has nothing to pop.
pub proof fn lemma_new_buffer_is_empty<T>(capacity: nat)
    requires
        capacity >= 1,
    ensures
        reports_empty(Seq::<T>::empty()),
        !reports_full(Seq::<T>::empty(), capacity),
        front(Seq::<T>::empty()) == None::<T>,
{
}

/// A push keeps the newest `capacity` of everything pushed so far: if the
/// live elements are the newest of `items`, then after pushing `value` they
/// are the newest of `items` followed by `value`.
pub proof fn lemma_push_keeps_newest<T>(items: Seq<T>, capacity: nat, value: T)
    requires
        capacity >= 1,
    ensures
        pushed(newest(items, capacity), capacity, value) == newest(items.push(value), capacity),
{
}

/// Pushing `values` one after the other leaves the newest `capacity` of the
/// earlier live elements followed by `values`: whatever does not fit is
/// evicted, oldest first.
pub proof fn lemma_pushed_all_keeps_newest<T>(live: Seq<T>, capacity: nat, values: Seq<T>)
    requires
        capacity >= 1,
        live.len() <= capacity,
    ensures
        pushed_all(live, capacity, values) == newest(live + values, capacity),
    decreases values.len(),
{
    if values.len() > 0 {
        lemma_pushed_all_keeps_newest(live, capacity, values.drop_last());
        lemma_push_keeps_newest(live + values.drop_last(), capacity, values.last());
        assert((live + values.drop_last()).push(values.last()) == live + values);
    }
}

/// After `i` pops the first `i` live elements are gone, or all of them if
/// there were fewer, and the next pop hands out the element that stood at
/// place `i`, or nothing if there was none.
pub proof fn lemma_pops_in_order<T>(live: Seq<T>, i: nat)
    ensures
        after_pops(live, i) == live.skip(vstd::math::min(i as int, live.len() as int)),
        nth_pop(live, i) == if i < live.len() {
            Some(live[i as int])
        } else {
            None
        },
    decreases i,
{
    if i > 0 {
        lemma_pops_in_order(live, (i - 1) as nat);
    }
}

/// Popping until nothing is left hands out the live elements one by one in
/// their order, which is what a drain returns at once; then there is nothing
/// more to pop and the buffer is empty, as after a drain.
pub proof fn lemma_drain_matches_pops<T>(live: Seq<T>)
    ensures
        forall|i: nat| i < live.len() ==> #[trigger] nth_pop(live, i) == Some(live[i as int]),
        nth_pop(live, live.len()) == None::<T>,
        after_pops(live, live.len()) == Seq::<T>::empty(),
{
    assert forall|i: nat| i < live.len() implies #[trigger] nth_pop(live, i) == Some(
        live[i as int],
    ) by {
        lemma_pops_in_order(live, i);
    }
    lemma_pops_in_order(live, live.len());
}

/// Pushing no more values than fit into an empty buffer and then popping as
/// many times gives the values back in the order they were pushed, and
/// leaves the buffer empty.
pub proof fn lemma_fifo_order<T>(capacity: nat, values: Seq<T>)
    requires
        values.len() <= capacity,
    ensures
        pushed_all(Seq::<T>::empty(), capacity, values) == values,
        forall|i: nat|
            i < values.len() ==> #[trigger] nth_pop(
                pushed_all(Seq::<T>::empty(), capacity, values),
                i,
            ) == Some(values[i as int]),
        after_pops(pushed_all(Seq::<T>::empty(), capacity, values), values.len())
            == Seq::<T>::empty(),
{
    if values.len() > 0 {
        lemma_pushed_all_keeps_newest(Seq::<T>::empty(), capacity, values);
    }
    lemma_drain_matches_pops(values);
}

/// Pushing more values than fit into an empty buffer leaves exactly the last
/// `capacity` of them, oldest first.
pub proof fn lemma_eviction_order<T>(capacity: nat, values: Seq<T>)
    requires
        capacity >= 1,
        values.len() > capacity,
    ensures
        pushed_all(Seq::<T>::empty(), capacity, values) == values.subrange(
            values.len() - capacity,
            values.len() as int,
        ),
{
    lemma_pushed_all_keeps_newest(Seq::<T>::empty(), capacity, values);
}

/// Whatever pushes and pops are made, the number of live elements is the
/// count that a bystander keeps by the rules of `count_after_step`, and it
/// never passes the capacity. So a buffer reports full exactly when that
/// count is the capacity, and empty exactly when it is zero.
pub proof fn lemma_count_tracks_steps<T>(live: Seq<T>, capacity: nat, steps: Seq<Step<T>>)
    requires
        capacity >= 1,
        live.len() <= capacity,
    ensures
        after_steps(live, capacity, steps).len() == count_after_steps(
            live.len(),
            capacity,
            steps,
        ),
        after_steps(live, capacity, steps).len() <= capacity,
        reports_full(after_steps(live, capacity, steps), capacity) == (count_after_steps(
            live.len(),
            capacity,
            steps,
        ) == capacity),
        reports_empty(after_steps(live, capacity, steps)) == (count_after_steps(
            live.len(),
            capacity,
            steps,
        ) == 0),
    decreases steps.len(),
{
    if steps.len() > 0 {
        lemma_count_tracks_steps(live, capacity, steps.drop_last());
    }
}

/// Once a buffer is cleared every pop hands out nothing and leaves it
/// empty, however many pops are made.
pub proof fn lemma_cleared_yields_nothing<T>(i: nat)
    ensures
        reports_empty(Seq::<T>::empty()),
        nth_pop(Seq::<T>::empty(), i) == None::<T>,
        after_pops(Seq::<T>::empty(), i) == Seq::<T>::empty(),
{
    lemma_pops_in_order(Seq::<T>::empty(), i);
}

} // verus!
