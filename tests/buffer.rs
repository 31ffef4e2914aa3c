use wemux::buffer::{ReaderState, RingBuffer};

#[test]
fn test_basic_write_read() {
    let mut buffer = RingBuffer::new(1024);
    let mut reader = ReaderState::new(&buffer);

    let data = [1u8, 2, 3, 4, 5];
    buffer.write(&data);

    let mut read_buf = [0u8; 5];
    let read = reader.read(&buffer, &mut read_buf);

    assert_eq!(read, 5);
    assert_eq!(read_buf, data);
}

#[test]
fn test_wrap_around() {
    let mut buffer = RingBuffer::new(8);
    let mut reader = ReaderState::new(&buffer);

    buffer.write(&[1, 2, 3, 4, 5, 6]);

    let mut read_buf = [0u8; 4];
    reader.read(&buffer, &mut read_buf);
    assert_eq!(read_buf, [1, 2, 3, 4]);

    buffer.write(&[7, 8, 9, 10]);

    let mut read_buf = [0u8; 6];
    let read = reader.read(&buffer, &mut read_buf);
    assert_eq!(read, 6);
    assert_eq!(&read_buf[..6], &[5, 6, 7, 8, 9, 10]);
}

#[test]
fn capacity_is_next_power_of_two() {
    assert_eq!(RingBuffer::new(0).capacity(), 1);
    assert_eq!(RingBuffer::new(1).capacity(), 1);
    assert_eq!(RingBuffer::new(5).capacity(), 8);
    assert_eq!(RingBuffer::new(8).capacity(), 8);
    assert_eq!(RingBuffer::new(1000).capacity(), 1024);
    assert_eq!(RingBuffer::new(1025).capacity(), 2048);
}

#[test]
fn reader_starts_at_writer() {
    let mut buffer = RingBuffer::new(16);
    buffer.write(&[9, 9, 9]);
    let mut reader = ReaderState::new(&buffer);
    assert_eq!(reader.position(), 3);
    assert_eq!(reader.available(&buffer), 0);
    let mut dst = [7u8; 4];
    assert_eq!(reader.read(&buffer, &mut dst), 0);
    assert_eq!(dst, [7, 7, 7, 7]);
    buffer.write(&[1, 2]);
    assert_eq!(reader.read(&buffer, &mut dst), 2);
    assert_eq!(dst, [1, 2, 7, 7]);
    assert_eq!(reader.position(), 5);
}

#[test]
fn reads_concatenate_to_what_was_written() {
    let mut buffer = RingBuffer::new(8);
    let mut reader = ReaderState::new(&buffer);
    let mut got: Vec<u8> = Vec::new();
    let mut expected: Vec<u8> = Vec::new();
    let mut next: u8 = 0;
    for round in 0..20 {
        let chunk: Vec<u8> = (0..(round % 5 + 1)).map(|_| {
            next = next.wrapping_add(1);
            next
        }).collect();
        buffer.write(&chunk);
        expected.extend_from_slice(&chunk);
        let mut dst = [0u8; 3];
        while reader.available(&buffer) > 0 {
            let n = reader.read(&buffer, &mut dst);
            got.extend_from_slice(&dst[..n]);
        }
    }
    assert!(!reader.is_lagging(&buffer));
    assert_eq!(got, expected);
}

#[test]
fn lagging_reader_catches_up() {
    let mut buffer = RingBuffer::new(8);
    let mut reader = ReaderState::new(&buffer);
    buffer.write(&[1, 2, 3, 4, 5, 6, 7, 8]);
    assert!(!reader.is_lagging(&buffer));
    assert_eq!(reader.available(&buffer), 8);
    buffer.write(&[9]);
    assert!(reader.is_lagging(&buffer));
    assert_eq!(reader.available(&buffer), 8);
    reader.catch_up(&buffer);
    assert_eq!(reader.position(), 9);
    assert!(!reader.is_lagging(&buffer));
    assert_eq!(reader.available(&buffer), 0);
    buffer.write(&[10, 11]);
    let mut dst = [0u8; 4];
    assert_eq!(reader.read(&buffer, &mut dst), 2);
    assert_eq!(&dst[..2], &[10, 11]);
}

#[test]
fn long_write_keeps_last_capacity_bytes() {
    let mut buffer = RingBuffer::new(4);
    let mut pos: usize = 0;
    assert_eq!(buffer.write(&[1, 2, 3, 4, 5, 6]), 6);
    assert_eq!(buffer.write_position(), 6);
    assert!(buffer.is_lagging(pos));
    buffer.catch_up(&mut pos);
    pos -= 4;
    let mut dst = [0u8; 8];
    assert_eq!(buffer.read(&mut dst, &mut pos), 4);
    assert_eq!(&dst[..4], &[3, 4, 5, 6]);
    assert_eq!(pos, 6);
}

#[test]
fn reader_ahead_of_writer_counts_as_lagging() {
    let buffer = RingBuffer::new(8);
    assert!(buffer.is_lagging(5));
    assert_eq!(buffer.available(5), 8);
    assert_eq!(buffer.available(0), 0);
}
