use zsling::RingBuffer;

/// A distinct 8-byte payload for each small index.
fn msg(i: usize) -> [u8; 8] {
    [(i & 0xff) as u8, ((i >> 8) & 0xff) as u8, 0, 0, 0, 0, 0, 0]
}

#[test]
fn it_works() {
    let mut buffer = RingBuffer::new();
    let mut writer = buffer.try_lock().unwrap();
    assert!(buffer.try_lock().is_err());
    let mut reader = buffer.reader();
    writer.push_back(&mut buffer, [0, 1, 2, 3, 4, 5, 6, 7]);
    println!("{:?}", reader.pop_front(&buffer).unwrap());

    writer.push_back(&mut buffer, [0, 1, 2, 3, 4, 5, 6, 7]);
    assert_eq!([0, 1, 2, 3, 4, 5, 6, 7], reader.pop_front(&buffer).unwrap());

    writer.push_back(&mut buffer, [0, 1, 2, 3, 4, 5, 6, 14]);
    assert_eq!([0, 1, 2, 3, 4, 5, 6, 14], reader.pop_front(&buffer).unwrap());

    println!("{:?}", reader.pop_front(&buffer));

    writer.release(&mut buffer);

    assert!(buffer.try_lock().is_ok());
}

#[test]
fn fresh_cursor_sees_first_three_pushes_in_order() {
    let mut buffer = RingBuffer::new();
    let mut reader = buffer.reader();
    let mut writer = buffer.try_lock().unwrap();
    writer.push_back(&mut buffer, [0, 1, 2, 3, 4, 5, 6, 7]);
    writer.push_back(&mut buffer, [0, 1, 2, 3, 4, 5, 6, 7]);
    writer.push_back(&mut buffer, [0, 1, 2, 3, 4, 5, 6, 14]);
    assert_eq!(Some([0, 1, 2, 3, 4, 5, 6, 7]), reader.pop_front(&buffer));
    assert_eq!(Some([0, 1, 2, 3, 4, 5, 6, 7]), reader.pop_front(&buffer));
    assert_eq!(Some([0, 1, 2, 3, 4, 5, 6, 14]), reader.pop_front(&buffer));
    assert_eq!(None, reader.pop_front(&buffer));
}

#[test]
fn lock_arbitration() {
    let mut buffer = RingBuffer::new();
    let first = buffer.try_lock();
    assert!(first.is_ok());
    assert!(buffer.try_lock().is_err());
    first.unwrap().release(&mut buffer);
    assert!(buffer.try_lock().is_ok());
}

#[test]
fn pop_on_empty_buffer_is_none() {
    let buffer = RingBuffer::new();
    let mut reader = buffer.reader();
    assert_eq!(None, reader.pop_front(&buffer));
    assert_eq!(None, reader.pop_front(&buffer));
}

#[test]
fn no_loss_under_capacity() {
    let mut buffer = RingBuffer::new();
    let mut reader = buffer.reader();
    let mut writer = buffer.try_lock().unwrap();
    for i in 0..5 {
        writer.push_back(&mut buffer, msg(i));
    }
    for i in 0..5 {
        assert_eq!(Some(msg(i)), reader.pop_front(&buffer));
    }
    assert_eq!(None, reader.pop_front(&buffer));
}

#[test]
fn overrun_graceful_degradation() {
    let mut buffer = RingBuffer::new();
    let mut reader = buffer.reader();
    let mut writer = buffer.try_lock().unwrap();
    // lap the reader: 300 pushes against a capacity of 256
    for i in 0..300 {
        writer.push_back(&mut buffer, msg(i));
    }
    // the cursor resynchronizes to the oldest message still held: push
    // number 257 (index 256), the first one not yet overwritten
    assert_eq!(Some(msg(256)), reader.pop_front(&buffer));
    // from there, consumption continues in push order with no further loss
    for i in 257..300 {
        assert_eq!(Some(msg(i)), reader.pop_front(&buffer));
    }
    assert_eq!(None, reader.pop_front(&buffer));
}

#[test]
fn independent_broadcast() {
    let mut buffer = RingBuffer::new();
    let mut first = buffer.reader();
    let mut second = buffer.reader();
    let mut writer = buffer.try_lock().unwrap();
    for i in 0..4 {
        writer.push_back(&mut buffer, msg(i));
    }
    // each cursor observes the full stream, unaffected by the other
    for i in 0..4 {
        assert_eq!(Some(msg(i)), first.pop_front(&buffer));
    }
    assert_eq!(None, first.pop_front(&buffer));
    for i in 0..4 {
        assert_eq!(Some(msg(i)), second.pop_front(&buffer));
    }
    assert_eq!(None, second.pop_front(&buffer));
}

#[test]
fn clone_independence() {
    let mut buffer = RingBuffer::new();
    let mut original = buffer.reader();
    let mut writer = buffer.try_lock().unwrap();
    for i in 0..3 {
        writer.push_back(&mut buffer, msg(i));
    }
    assert_eq!(Some(msg(0)), original.pop_front(&buffer));
    // the clone snapshots the original's progress ...
    let mut copy = original.clone();
    // ... and from that point the two advance independently
    assert_eq!(Some(msg(1)), original.pop_front(&buffer));
    assert_eq!(Some(msg(2)), original.pop_front(&buffer));
    assert_eq!(None, original.pop_front(&buffer));
    assert_eq!(Some(msg(1)), copy.pop_front(&buffer));
    // later pushes are observable through both cursors
    writer.push_back(&mut buffer, msg(3));
    assert_eq!(Some(msg(2)), copy.pop_front(&buffer));
    assert_eq!(Some(msg(3)), copy.pop_front(&buffer));
    assert_eq!(Some(msg(3)), original.pop_front(&buffer));
}

#[test]
fn claims_through_one_cursor_never_repeat() {
    let mut buffer = RingBuffer::new();
    let mut reader = buffer.reader();
    let mut writer = buffer.try_lock().unwrap();
    for i in 0..8 {
        writer.push_back(&mut buffer, msg(i));
    }
    let mut seen: Vec<[u8; 8]> = Vec::new();
    while let Some(m) = reader.pop_front(&buffer) {
        assert!(!seen.contains(&m));
        seen.push(m);
    }
    assert_eq!(8, seen.len());
}
