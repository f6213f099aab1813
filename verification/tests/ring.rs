use half_duplex_uart::ring::RingBuffer;

#[test]
fn write_then_read_round_trip() {
    let mut rb = RingBuffer::new(8);
    let n = rb.write(&[1, 2, 3]);
    assert_eq!(n, 3);
    assert_eq!(rb.available(), 3);
    let out = rb.read(10);
    assert_eq!(out, vec![1, 2, 3]);
    assert_eq!(rb.available(), 0);
}

#[test]
fn available_after_write_equals_count() {
    let mut rb = RingBuffer::new(16);
    assert_eq!(rb.write(&[9, 9, 9, 9, 9]), 5);
    assert_eq!(rb.available(), 5);
}

#[test]
fn read_exactly_what_was_written() {
    let mut rb = RingBuffer::new(16);
    let data = [10, 20, 30, 40];
    assert_eq!(rb.write(&data), 4);
    let out = rb.read(4);
    assert_eq!(out, data.to_vec());
}

#[test]
fn capacity_overrun_truncates_to_prefix() {
    let mut rb = RingBuffer::new(4);
    let n = rb.write(&[1, 2, 3, 4, 5, 6]);
    assert!(n < 6);
    assert_eq!(n, 4);
    let out = rb.read(10);
    assert_eq!(out, vec![1, 2, 3, 4]);
}

#[test]
fn full_buffer_accepts_nothing() {
    let mut rb = RingBuffer::new(4);
    assert_eq!(rb.write(&[1, 2, 3, 4]), 4);
    assert_eq!(rb.write(&[5]), 0);
    assert_eq!(rb.read(10), vec![1, 2, 3, 4]);
}

#[test]
fn wrap_around_keeps_order() {
    let mut rb = RingBuffer::new(4);
    assert_eq!(rb.write(&[1, 2, 3]), 3);
    assert_eq!(rb.read(2), vec![1, 2]);
    assert_eq!(rb.write(&[4, 5, 6]), 3);
    assert_eq!(rb.read(10), vec![3, 4, 5, 6]);
}

#[test]
fn many_wraps_keep_order() {
    let mut rb = RingBuffer::new(3);
    let mut expected: Vec<u8> = Vec::new();
    let mut got: Vec<u8> = Vec::new();
    for round in 0..10u8 {
        let n = rb.write(&[2 * round, 2 * round + 1]);
        assert_eq!(n, 2);
        expected.push(2 * round);
        expected.push(2 * round + 1);
        got.extend(rb.read(2));
    }
    assert_eq!(got, expected);
}

#[test]
fn empty_read_returns_nothing() {
    let mut rb = RingBuffer::new(4);
    assert_eq!(rb.read(5), Vec::<u8>::new());
}

#[test]
fn read_zero_from_nonempty_returns_nothing() {
    let mut rb = RingBuffer::new(4);
    rb.write(&[1, 2]);
    assert_eq!(rb.read(0), Vec::<u8>::new());
    assert_eq!(rb.available(), 2);
}

#[test]
fn zero_capacity_accepts_nothing() {
    let mut rb = RingBuffer::new(0);
    assert_eq!(rb.capacity(), 0);
    assert_eq!(rb.write(&[1]), 0);
    assert_eq!(rb.read(1), Vec::<u8>::new());
}

#[test]
fn capacity_and_free_space_track_writes() {
    let mut rb = RingBuffer::new(8);
    assert_eq!(rb.capacity(), 8);
    assert_eq!(rb.free_space(), 8);
    rb.write(&[1, 2, 3]);
    assert_eq!(rb.capacity(), 8);
    assert_eq!(rb.free_space(), 5);
}
