use metalsha::BatchBuffer;
use metalsha::BatchBufferReader;
use metalsha::BatchBufferSetter;

const IN_LEN: usize = 1024;
const IN_COUNT: usize = 255;

#[test]
fn batch_buffer_rw() {
    let buffer = BatchBuffer::new(IN_LEN, IN_COUNT);

    let mut buffer_setter = BatchBufferSetter::new(buffer);

    let mut nframe: u8 = 0;
    while nframe < 16 {
        let frame = [nframe; IN_LEN];
        assert_eq!(frame.len(), IN_LEN);
        assert!(buffer_setter.next_frame(&frame));
        nframe += 1;
    }

    let buffer = buffer_setter.finish();
    assert_eq!(buffer.actual_size(), IN_LEN * 16);

    let mut buffer_reader = BatchBufferReader::new(&buffer);

    nframe = 0;
    while let Some(frame) = buffer_reader.next_frame() {
        assert_eq!(*frame, [nframe; IN_LEN]);
        nframe += 1;
    }

    assert_eq!(nframe, 16);
}

#[test]
fn fresh_buffer_is_empty() {
    let b = BatchBuffer::new(1, 1);
    assert_eq!(b.actual_size(), 0);
    assert_eq!(b.num_frames(), 0);

    let b = BatchBuffer::new(44, 16);
    assert_eq!(b.actual_size(), 0);
    assert_eq!(b.num_frames(), 0);
    assert_eq!(b.length(), 44 * 16);
    assert_eq!(b.frame_length(), 44);

    let b = BatchBuffer::new(20, 0);
    assert_eq!(b.actual_size(), 0);
    assert_eq!(b.num_frames(), 0);
    assert_eq!(b.length(), 0);
}

#[test]
fn reset_then_read_yields_nothing() {
    let buffer = BatchBuffer::new(8, 4);
    let mut setter = BatchBufferSetter::new(buffer);
    assert!(setter.next_frame(&[0xAB; 8]));
    assert!(setter.next_frame(&[0xCD; 8]));
    let mut buffer = setter.finish();
    assert_eq!(buffer.num_frames(), 2);

    buffer.reset();
    assert_eq!(buffer.actual_size(), 0);
    assert_eq!(buffer.num_frames(), 0);

    let mut reader = BatchBufferReader::new(&buffer);
    assert!(reader.next_frame().is_none());
}

fn round_trip(frame_length: usize, count: usize, filled: usize) {
    let buffer = BatchBuffer::new(frame_length, count);
    let mut setter = BatchBufferSetter::new(buffer);

    for i in 0..filled {
        let frame = vec![(i % 256) as u8; frame_length];
        assert!(setter.next_frame(&frame));
    }

    let buffer = setter.finish();
    assert_eq!(buffer.actual_size(), filled * frame_length);
    assert_eq!(buffer.num_frames(), filled);

    let mut reader = BatchBufferReader::new(&buffer);
    for i in 0..filled {
        let frame = reader.next_frame().expect("frame should be valid");
        assert_eq!(frame, vec![(i % 256) as u8; frame_length].as_slice());
    }
    assert!(reader.next_frame().is_none());
}

#[test]
fn round_trip_single_frame() {
    round_trip(64, 16, 1);
}

#[test]
fn round_trip_count_off_execution_width() {
    // 23 frames: not a multiple of any power-of-two execution width.
    round_trip(44, 23, 23);
}

#[test]
fn round_trip_full_capacity() {
    round_trip(16, 300, 300);
}

#[test]
fn setter_signals_exhaustion_at_capacity() {
    let buffer = BatchBuffer::new(4, 3);
    let mut setter = BatchBufferSetter::new(buffer);
    assert!(setter.next_frame(&[1, 2, 3, 4]));
    assert!(setter.next_frame(&[5, 6, 7, 8]));
    assert!(setter.next_frame(&[9, 10, 11, 12]));
    assert!(!setter.next_frame(&[13, 14, 15, 16]));

    let buffer = setter.finish();
    assert_eq!(buffer.actual_size(), 12);

    let mut reader = BatchBufferReader::new(&buffer);
    assert_eq!(reader.next_frame().unwrap(), &[1, 2, 3, 4]);
    assert_eq!(reader.next_frame().unwrap(), &[5, 6, 7, 8]);
    assert_eq!(reader.next_frame().unwrap(), &[9, 10, 11, 12]);
    assert!(reader.next_frame().is_none());
}

#[test]
fn fresh_fill_overwrites_previous_fill() {
    let buffer = BatchBuffer::new(2, 4);
    let mut setter = BatchBufferSetter::new(buffer);
    assert!(setter.next_frame(&[1, 1]));
    assert!(setter.next_frame(&[2, 2]));
    assert!(setter.next_frame(&[3, 3]));
    let buffer = setter.finish();

    // A new write cursor restarts validity from zero.
    let mut setter = BatchBufferSetter::new(buffer);
    assert!(setter.next_frame(&[9, 9]));
    let buffer = setter.finish();
    assert_eq!(buffer.num_frames(), 1);

    let mut reader = BatchBufferReader::new(&buffer);
    assert_eq!(reader.next_frame().unwrap(), &[9, 9]);
    assert!(reader.next_frame().is_none());
}

#[test]
fn as_bytes_views_whole_region() {
    let buffer = BatchBuffer::new(2, 2);
    assert_eq!(buffer.as_bytes(), &[0, 0, 0, 0]);

    let mut setter = BatchBufferSetter::new(buffer);
    assert!(setter.next_frame(&[5, 6]));
    let buffer = setter.finish();
    assert_eq!(buffer.as_bytes(), &[5, 6, 0, 0]);
}
