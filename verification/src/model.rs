//! The ring buffer seen from outside: a bounded queue, written as plain
//! sequences with the oldest element first.
//!
//! Every contract of the buffer speaks of its view, a `Seq<T>` of the live
//! elements, and of the functions below.

use vstd::prelude::*;

verus! {

/// The slot that lies `offset` places after slot `start` in a ring of
/// `capacity` slots.
pub open spec fn slot_after(start: nat, offset: nat, capacity: nat) -> nat {
    (start + offset) % capacity
}

/// The `limit` newest elements of `items`, oldest first.
pub open spec fn newest<T>(items: Seq<T>, limit: nat) -> Seq<T> {
    if items.len() <= limit {
        items
    } else {
        items.subrange(items.len() - limit, items.len() as int)
    }
}

/// What `empty` reports of a buffer whose live elements are `live`.
pub open spec fn reports_empty<T>(live: Seq<T>) -> bool {
    live.len() == 0
}

/// What `full` reports of a buffer of `capacity` slots whose live elements
/// are `live`.
pub open spec fn reports_full<T>(live: Seq<T>, capacity: nat) -> bool {
    live.len() == capacity
}

/// The live elements after `value` is pushed onto a buffer of `capacity`
/// slots: the value goes to the back, and a full buffer first gives up its
/// oldest element.
pub open spec fn pushed<T>(live: Seq<T>, capacity: nat, value: T) -> Seq<T> {
    if live.len() < capacity {
        live.push(value)
    } else {
        live.drop_first().push(value)
    }
}

/// The live elements after each of `values` is pushed in turn, `values[0]`
/// first.
pub open spec fn pushed_all<T>(live: Seq<T>, capacity: nat, values: Seq<T>) -> Seq<T>
    decreases values.len(),
{
    if values.len() == 0 {
        live
    } else {
        pushed(pushed_all(live, capacity, values.drop_last()), capacity, values.last())
    }
}

/// How many elements a buffer of `capacity` slots that holds `live`
/// elements gives up while `incoming` more are pushed.
pub open spec fn evicted(live: nat, incoming: nat, capacity: nat) -> nat {
    if live + incoming > capacity {
        (live + incoming - capacity) as nat
    } else {
        0
    }
}

/// What a pop hands out: the oldest live element, or nothing.
pub open spec fn front<T>(live: Seq<T>) -> Option<T> {
    if live.len() == 0 {
        None
    } else {
        Some(live[0])
    }
}

/// The live elements that a pop leaves behind.
pub open spec fn without_front<T>(live: Seq<T>) -> Seq<T> {
    if live.len() == 0 {
        live
    } else {
        live.drop_first()
    }
}

/// The live elements after `n` pops in a row.
pub open spec fn after_pops<T>(live: Seq<T>, n: nat) -> Seq<T>
    decreases n,
{
    if n == 0 {
        live
    } else {
        without_front(after_pops(live, (n - 1) as nat))
    }
}

/// What the pop that follows `i` earlier pops hands out.
pub open spec fn nth_pop<T>(live: Seq<T>, i: nat) -> Option<T> {
    front(after_pops(live, i))
}

/// One call that changes the buffer's occupancy.
pub enum Step<T> {
    Push(T),
    Pop,
}

/// The live elements after one step.
pub open spec fn after_step<T>(live: Seq<T>, capacity: nat, step: Step<T>) -> Seq<T> {
    match step {
        Step::Push(value) => pushed(live, capacity, value),
        Step::Pop => without_front(live),
    }
}

/// The live elements after `steps`, taken in order.
pub open spec fn after_steps<T>(live: Seq<T>, capacity: nat, steps: Seq<Step<T>>) -> Seq<T>
    decreases steps.len(),
{
    if steps.len() == 0 {
        live
    } else {
        after_step(after_steps(live, capacity, steps.drop_last()), capacity, steps.last())
    }
}

/// A counter kept beside the buffer: a push adds one unless the buffer is
/// full, a pop takes one away unless it is empty.
pub open spec fn count_after_step<T>(count: nat, capacity: nat, step: Step<T>) -> nat {
    match step {
        Step::Push(_) => if count < capacity {
            count + 1
        } else {
            count
        },
        Step::Pop => if count > 0 {
            (count - 1) as nat
        } else {
            count
        },
    }
}

/// That counter after `steps`, taken in order.
pub open spec fn count_after_steps<T>(count: nat, capacity: nat, steps: Seq<Step<T>>) -> nat
    decreases steps.len(),
{
    if steps.len() == 0 {
        count
    } else {
        count_after_step(
            count_after_steps(count, capacity, steps.drop_last()),
            capacity,
            steps.last(),
        )
    }
}

} // verus!
