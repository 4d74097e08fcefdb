use ring_buffer::BadRingBuffer;

#[test]
fn test_read_empty() {
    let mut rb = BadRingBuffer::<u8>::with_capacity(8);
    assert!(rb.next().is_none());
}

#[test]
fn test_is_empty() {
    let rb = BadRingBuffer::<u8>::with_capacity(8);
    assert!(rb.empty());
}

#[test]
fn test_read_capacity() {
    let capacity = 8;
    let rb = BadRingBuffer::<u8>::with_capacity(capacity);
    assert_eq!(rb.capacity(), capacity);
}

#[test]
fn test_is_full() {
    let mut rb = BadRingBuffer::with_capacity(2);
    rb.push(1);
    rb.push(2);
    assert!(rb.full());
}

#[test]
fn test_non_wrapping_write() {
    let mut rb = BadRingBuffer::with_capacity(3);
    rb.push(0);
    rb.push(1);
    rb.push(2);
    assert_eq!(rb.next(), Some(0));
    assert_eq!(rb.next(), Some(1));
    assert_eq!(rb.next(), Some(2));
}

#[test]
fn test_wrapping_write() {
    let mut rb = BadRingBuffer::with_capacity(2);
    rb.push(0);
    rb.push(1);
    rb.push(2);
    assert_eq!(rb.next(), Some(1));
    assert_eq!(rb.next(), Some(2));
}

#[test]
fn test_should_drain() {
    let mut rb = BadRingBuffer::with_capacity(3);
    rb.push(1);
    rb.push(2);
    rb.push(3);

    let values = rb.drain();
    assert_eq!(values, &[1, 2, 3]);
    assert!(rb.empty());
}

#[test]
fn test_clearing() {
    let mut rb = BadRingBuffer::with_capacity(4);
    rb.push(1);
    rb.clear();

    assert!(rb.next().is_none());
}

#[test]
fn new_buffer_is_empty_and_not_full() {
    for capacity in [1usize, 2, 7, 64] {
        let mut rb = BadRingBuffer::<u32>::with_capacity(capacity);
        assert!(rb.empty());
        assert!(!rb.full());
        assert_eq!(rb.next(), None);
        assert_eq!(rb.capacity(), capacity);
    }
}

#[test]
fn capacity_one_is_full_after_one_push() {
    let mut rb = BadRingBuffer::with_capacity(1);
    assert!(!rb.full());
    rb.push('a');
    assert!(rb.full());
    assert!(!rb.empty());
    rb.push('b');
    assert!(rb.full());
    assert_eq!(rb.next(), Some('b'));
    assert!(rb.empty());
    assert!(!rb.full());
    assert_eq!(rb.next(), None);
}

#[test]
fn capacity_never_changes() {
    let mut rb = BadRingBuffer::with_capacity(3);
    assert_eq!(rb.capacity(), 3);
    for value in 0..10 {
        rb.push(value);
        assert_eq!(rb.capacity(), 3);
    }
    assert_eq!(rb.next(), Some(7));
    assert_eq!(rb.capacity(), 3);
    rb.clear();
    assert_eq!(rb.capacity(), 3);
    rb.push(11);
    assert_eq!(rb.drain(), vec![11]);
    assert_eq!(rb.capacity(), 3);
}

#[test]
fn pops_come_in_push_order() {
    let mut rb = BadRingBuffer::with_capacity(5);
    let values = ["a", "b", "c", "d"];
    for value in values {
        rb.push(value);
    }
    for value in values {
        assert_eq!(rb.next(), Some(value));
    }
    assert_eq!(rb.next(), None);
    assert!(rb.empty());
}

#[test]
fn overflow_keeps_the_last_capacity_values() {
    let mut rb = BadRingBuffer::with_capacity(2);
    rb.push(0);
    rb.push(1);
    rb.push(2);
    assert_eq!(rb.drain(), vec![1, 2]);

    let mut rb = BadRingBuffer::with_capacity(3);
    for value in 1..=8 {
        rb.push(value);
    }
    assert_eq!(rb.drain(), vec![6, 7, 8]);
}

#[test]
fn eviction_holds_after_many_laps() {
    let mut rb = BadRingBuffer::with_capacity(3);
    for value in 0..100u32 {
        rb.push(value);
        assert_eq!(rb.full(), value >= 2);
    }
    assert_eq!(rb.next(), Some(97));
    rb.push(100);
    rb.push(101);
    assert_eq!(rb.drain(), vec![99, 100, 101]);
}

#[test]
fn every_lap_keeps_the_newest() {
    for capacity in 1usize..=5 {
        for pushes in 0usize..=17 {
            let mut rb = BadRingBuffer::with_capacity(capacity);
            for value in 0..pushes {
                rb.push(value);
            }
            let kept = pushes.min(capacity);
            let expected: Vec<usize> = (pushes - kept..pushes).collect();
            assert_eq!(rb.full(), kept == capacity);
            assert_eq!(rb.empty(), kept == 0);
            assert_eq!(rb.drain(), expected);
        }
    }
}

#[test]
fn eviction_after_the_tail_has_moved() {
    let mut rb = BadRingBuffer::with_capacity(3);
    rb.push(1);
    rb.push(2);
    rb.push(3);
    assert_eq!(rb.next(), Some(1));
    assert_eq!(rb.next(), Some(2));
    rb.push(4);
    rb.push(5);
    assert!(rb.full());
    rb.push(6);
    assert_eq!(rb.next(), Some(4));
    rb.push(7);
    rb.push(8);
    assert_eq!(rb.drain(), vec![6, 7, 8]);
}

#[test]
fn full_and_empty_follow_the_live_count() {
    let capacity = 4usize;
    let mut rb = BadRingBuffer::with_capacity(capacity);
    let mut live = 0usize;
    let steps = [
        true, true, false, true, true, true, true, true, false, false, false, false, false, true,
        false, false, true, true, true, true, true, true, false,
    ];
    for (turn, is_push) in steps.into_iter().enumerate() {
        if is_push {
            rb.push(turn);
            if live < capacity {
                live += 1;
            }
        } else {
            let item = rb.next();
            assert_eq!(item.is_some(), live > 0);
            if live > 0 {
                live -= 1;
            }
        }
        assert_eq!(rb.full(), live == capacity);
        assert_eq!(rb.empty(), live == 0);
    }
}

#[test]
fn clear_empties_any_state() {
    let mut rb = BadRingBuffer::with_capacity(3);
    rb.clear();
    assert!(rb.empty());
    assert_eq!(rb.next(), None);

    for value in 0..5 {
        rb.push(value);
    }
    assert!(rb.full());
    rb.clear();
    assert!(rb.empty());
    assert!(!rb.full());
    assert_eq!(rb.next(), None);
    rb.clear();
    assert!(rb.empty());
    assert_eq!(rb.next(), None);

    rb.push(9);
    rb.push(10);
    assert_eq!(rb.drain(), vec![9, 10]);
}

#[test]
fn drain_gives_what_popping_gives() {
    let mut drained = BadRingBuffer::with_capacity(4);
    let mut popped = BadRingBuffer::with_capacity(4);
    for value in 0..7 {
        drained.push(value);
        popped.push(value);
    }
    assert_eq!(drained.next(), popped.next());

    let mut one_by_one = Vec::new();
    while let Some(value) = popped.next() {
        one_by_one.push(value);
    }
    assert_eq!(drained.drain(), one_by_one);
    assert_eq!(one_by_one, vec![4, 5, 6]);
    assert!(drained.empty());
    assert_eq!(drained.next(), None);
    assert_eq!(drained.drain(), Vec::<i32>::new());
}

#[test]
fn popping_goes_on_after_more_pushes() {
    let mut rb = BadRingBuffer::with_capacity(2);
    rb.push(1);
    assert_eq!(rb.next(), Some(1));
    assert_eq!(rb.next(), None);
    rb.push(2);
    rb.push(3);
    assert_eq!(rb.next(), Some(2));
    rb.push(4);
    assert_eq!(rb.next(), Some(3));
    assert_eq!(rb.next(), Some(4));
    assert_eq!(rb.next(), None);
}

#[test]
fn mixed_runs_match_a_plain_queue() {
    let mut seed: u64 = 0x2545_f491_4f6c_dd1d;
    for capacity in 1usize..=6 {
        let mut rb = BadRingBuffer::with_capacity(capacity);
        let mut queue: Vec<u64> = Vec::new();
        for turn in 0..2_000u64 {
            seed ^= seed << 13;
            seed ^= seed >> 7;
            seed ^= seed << 17;
            match seed % 16 {
                0..=7 => {
                    rb.push(turn);
                    if queue.len() == capacity {
                        queue.remove(0);
                    }
                    queue.push(turn);
                }
                8..=13 => {
                    let expected = if queue.is_empty() { None } else { Some(queue.remove(0)) };
                    assert_eq!(rb.next(), expected);
                }
                14 => {
                    assert_eq!(rb.drain(), queue);
                    queue.clear();
                }
                _ => {
                    rb.clear();
                    queue.clear();
                }
            }
            assert_eq!(rb.empty(), queue.is_empty());
            assert_eq!(rb.full(), queue.len() == capacity);
            assert_eq!(rb.capacity(), capacity);
        }
    }
}
