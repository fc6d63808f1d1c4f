use audio_streamer::model;
use audio_streamer::ring_buffer::{
    available_data, available_space, next_index, ring_buffer, Consumer, Producer, RingBuffer,
};

const CAPACITY: usize = 128;

#[test]
fn test_st_push_and_pop() {
    let (mut producer, mut consumer) = ring_buffer::<f32, CAPACITY>();
    let item_to_push = 42.0f32;

    producer.push(item_to_push);
    let popped = consumer.pop();

    assert!(popped.is_some());
    assert_eq!(popped.unwrap(), item_to_push);
}

#[test]
fn test_st_push_full() {
    let (mut producer, mut _consumer) = ring_buffer::<f32, CAPACITY>();

    for i in 0..CAPACITY - 1 {
        producer.push(i as f32);
    }

    let pushed_to_full = producer.push(4269f32);
    assert!(!pushed_to_full);
}

#[test]
fn test_st_pop_empty() {
    let (mut _producer, mut consumer) = ring_buffer::<f32, CAPACITY>();

    let nothing = consumer.pop();
    assert!(nothing.is_none());
}

#[test]
fn test_st_push_and_pop_slices() {
    let (mut producer, mut consumer) = ring_buffer::<f32, CAPACITY>();
    let slice_to_push = [42.0f32, 69.0f32];

    producer.push_slice(&slice_to_push);

    let mut popped = [0.0f32, 0.0f32];
    consumer.pop_slice(&mut popped);

    assert_eq!(popped, slice_to_push);
}

#[test]
fn test_st_push_slice_full() {
    let (mut producer, mut _consumer) = ring_buffer::<f32, CAPACITY>();
    let slice_to_push = (0..CAPACITY - 1).map(|i| i as f32).collect::<Vec<_>>();

    let pushed_amount = producer.push_slice(&slice_to_push);
    let pushed_to_full_amount = producer.push_slice(&[1.0f32, 2.0f32]);

    assert_eq!(pushed_amount, CAPACITY - 1);
    assert_eq!(pushed_to_full_amount, 0usize);
}

#[test]
fn test_st_pop_slice_empty() {
    let (mut _producer, mut consumer) = ring_buffer::<f32, CAPACITY>();
    let mut popping_buffer = vec![-1.0f32, -1.0f32];

    consumer.pop_slice(&mut popping_buffer);

    assert_eq!(popping_buffer, vec![-1.0f32, -1.0f32]);
}

// The multi-threaded scenarios below run their producer side and then their
// consumer side in the order their message passing enforces.

#[test]
fn test_mt_push_and_pop() {
    let (mut producer, mut consumer) = ring_buffer::<f32, CAPACITY>();
    let item = 42.0f32;

    producer.push(item);
    let popped_data = consumer.pop();

    assert!(popped_data.is_some());
    assert_eq!(popped_data.unwrap(), item);
}

#[test]
fn test_mt_push_full() {
    let (mut producer, mut _consumer) = ring_buffer::<f32, CAPACITY>();

    for i in 0..CAPACITY - 1 {
        producer.push(i as f32);
    }
    let push_result = producer.push(4269.0f32);

    assert!(!push_result);
}

#[test]
fn test_mt_pop_empty() {
    let (mut _producer, mut consumer) = ring_buffer::<f32, CAPACITY>();

    let popped_data = consumer.pop();
    assert!(popped_data.is_none());
}

#[test]
fn test_mt_push_and_pop_slice() {
    let (mut producer, mut consumer) = ring_buffer::<f32, CAPACITY>();
    let items = [42.42f32, 69.69f32];
    let mut popped = [0.0, 0.0];

    producer.push_slice(&items);
    consumer.pop_slice(&mut popped);

    assert_eq!(popped, items);
}

#[test]
fn test_mt_push_slice_full() {
    let (mut producer, mut _consumer) = ring_buffer::<f32, CAPACITY>();
    let items = (0..CAPACITY - 1).map(|i| i as f32).collect::<Vec<_>>();

    let (push_1_result, push_2_result) =
        (producer.push_slice(&items), producer.push_slice(&[1.0, 2.0]));

    assert_eq!(push_1_result, CAPACITY - 1);
    assert_eq!(push_2_result, 0usize);
}

#[test]
fn test_mt_pop_slice_empty() {
    let (mut _producer, mut consumer) = ring_buffer::<f32, CAPACITY>();
    let meme_n1 = 69.69;
    let meme_n2 = 42.42;

    let mut popped = [meme_n1, meme_n2];
    consumer.pop_slice(&mut popped);

    assert!(popped.contains(&meme_n1));
    assert!(popped.contains(&meme_n2));
}

// The model-checked scenarios, run here in one deterministic interleaving:
// the producer side takes a turn whenever it can make progress, then the consumer.

#[test]
fn test_singles_with_monotonic_counter() {
    model(|| {
        const N: usize = 2;
        let amount = 4;

        let (mut producer, mut consumer) = ring_buffer::<f32, N>();
        let mut counter = 0;
        let mut monotonic_counter = 0;

        while monotonic_counter < amount {
            if counter < amount && producer.push(counter as f32) {
                counter += 1;
            }
            if let Some(popped_data) = consumer.pop() {
                assert_eq!(popped_data, monotonic_counter as f32);
                monotonic_counter += 1;
            }
        }

        assert_eq!(counter, monotonic_counter);
        assert_eq!(counter, amount);
    });
}

#[test]
fn test_slices_with_monotonic_counter() {
    model(|| {
        const N: usize = 4;

        let (mut producer, mut consumer) = ring_buffer::<f32, N>();
        let data = vec![0.0f32, 1.0f32, 2.0f32, 3.0f32, 4.0f32, 5.0f32];
        let mut pushed_counter = 0usize;
        let mut popped_items: Vec<f32> = Vec::with_capacity(6);
        let mut monotonic_counter = 0usize;

        while popped_items.len() < 6 {
            if pushed_counter < data.len() {
                pushed_counter += producer.push_slice(&data[pushed_counter..]);
            }

            let mut popped_buffer = vec![-1.0f32; N - 1];
            let popped_amount = consumer.pop_slice(&mut popped_buffer);
            for i in 0..popped_amount {
                let popped_item = popped_buffer[i];
                assert_eq!(popped_item, monotonic_counter as f32);
                monotonic_counter += 1;
            }
            popped_items.extend(&popped_buffer[..popped_amount]);
        }

        assert_eq!(pushed_counter, popped_items.len());
        assert_eq!(popped_items, vec![0.0f32, 1.0f32, 2.0f32, 3.0f32, 4.0f32, 5.0f32]);
    });
}

#[test]
fn test_boundry_singles() {
    model(|| {
        const N: usize = 4;
        const HAMMER_TIMES: usize = 10;

        let (mut producer, mut consumer) = ring_buffer::<f32, N>();
        producer.push_slice(&[0.0f32, 1.0f32, 2.0f32]);

        for i in 0..HAMMER_TIMES {
            // the ring is full: pop one, leaving one free slot
            let popped = consumer.pop();
            assert!(popped.is_some());
            assert_eq!(i as f32, popped.unwrap());

            // fill it again
            assert!(producer.push((i + 3) as f32));
        }
    });
}

#[test]
fn handles_can_move_to_other_threads() {
    fn assert_send<T: Send>() {}
    assert_send::<Producer<f32, 4096>>();
    assert_send::<Consumer<f32, 4096>>();
}

#[test]
fn index_arithmetic_wraps_at_the_end() {
    assert_eq!(next_index(0, 8), 1);
    assert_eq!(next_index(6, 8), 7);
    assert_eq!(next_index(7, 8), 0);
    // head ahead of tail: three items queued in eight slots, four free
    assert_eq!(available_data(5, 2, 8), 3);
    assert_eq!(available_space(5, 2, 8), 4);
    // head wrapped behind tail
    assert_eq!(available_data(1, 6, 8), 3);
    assert_eq!(available_space(1, 6, 8), 4);
    // empty and full
    assert_eq!(available_data(3, 3, 8), 0);
    assert_eq!(available_space(3, 3, 8), 7);
    assert_eq!(available_space(2, 3, 8), 0);
    assert_eq!(available_data(2, 3, 8), 7);
}

#[test]
fn ring_keeps_fifo_order_across_the_wrap() {
    let mut ring = RingBuffer::new(4, 0u32);
    assert_eq!(ring.slot_count(), 4);
    assert_eq!(ring.free_space(), 3);
    let mut next_in = 0u32;
    let mut next_out = 0u32;
    for _ in 0..10 {
        while ring.push(next_in) {
            next_in += 1;
        }
        assert_eq!(ring.len(), 3);
        assert_eq!(ring.pop(), Some(next_out));
        next_out += 1;
        assert_eq!(ring.pop(), Some(next_out));
        next_out += 1;
        assert_eq!(ring.len(), 1);
    }
    assert_eq!(ring.pop(), Some(next_out));
    assert_eq!(ring.pop(), None);
}

#[test]
fn slice_operations_take_what_fits() {
    let mut ring = RingBuffer::new(8, 0u8);
    assert_eq!(ring.push_slice(&[1, 2, 3, 4, 5, 6, 7, 8, 9]), 7);
    assert_eq!(ring.free_space(), 0);
    let mut out = [0u8; 3];
    assert_eq!(ring.pop_slice(&mut out), 3);
    assert_eq!(out, [1, 2, 3]);
    assert_eq!(ring.push_slice(&[10, 11]), 2);
    let mut big = [99u8; 10];
    assert_eq!(ring.pop_slice(&mut big), 6);
    assert_eq!(big, [4, 5, 6, 7, 10, 11, 99, 99, 99, 99]);
    assert_eq!(ring.len(), 0);
}

#[test]
fn pop_slice_at_fills_from_the_given_position() {
    let (mut producer, mut consumer) = ring_buffer::<u16, 8>();
    assert_eq!(producer.push_slice(&[7, 8, 9]), 3);
    let mut frame = [0u16; 6];
    assert_eq!(consumer.pop_slice_at(&mut frame, 2), 3);
    assert_eq!(frame, [0, 0, 7, 8, 9, 0]);
    assert_eq!(producer.push_slice(&[1, 2, 3, 4]), 4);
    assert_eq!(consumer.pop_slice_at(&mut frame, 5), 1);
    assert_eq!(frame, [0, 0, 7, 8, 9, 1]);
    let mut rest = [0u16; 4];
    assert_eq!(consumer.pop_slice(&mut rest), 3);
    assert_eq!(rest, [2, 3, 4, 0]);
}

#[test]
fn single_slot_ring_holds_nothing() {
    let (mut producer, mut consumer) = ring_buffer::<u8, 1>();
    assert!(!producer.push(1));
    assert_eq!(producer.push_slice(&[1, 2]), 0);
    assert_eq!(consumer.pop(), None);
}

#[test]
fn a_slice_push_is_single_pushes_until_the_first_refusal() {
    let data = [1u8, 2, 3, 4, 5, 6];
    let mut by_slice = RingBuffer::new(4, 0u8);
    let mut by_singles = RingBuffer::new(4, 0u8);
    assert!(by_slice.push(9));
    assert!(by_singles.push(9));
    let n = by_slice.push_slice(&data);
    let mut m = 0usize;
    for x in data.iter() {
        if !by_singles.push(*x) {
            break;
        }
        m += 1;
    }
    assert_eq!(n, 2);
    assert_eq!(m, n);
    let mut a = [0u8; 5];
    let mut b = [0u8; 5];
    assert_eq!(by_slice.pop_slice(&mut a), 3);
    assert_eq!(by_singles.pop_slice(&mut b), 3);
    assert_eq!(a, b);
    assert_eq!(a, [9, 1, 2, 0, 0]);
}
