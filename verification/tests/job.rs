use metalsha::BatchBuffer;
use metalsha::DigestCommandRun;
use metalsha::DigestRunArgsBuffer;
use metalsha::Error;
use metalsha::SHA1;

const TEST_INPUT_SHORT: &str = "All work and no play makes Jack a dull boy";

#[test]
fn args_buffer_rw() {
    let mut args_buffer = DigestRunArgsBuffer::new();
    args_buffer.as_ref_mut().inlen = 64;
    assert_eq!(args_buffer.as_ref().inlen, 64);
}

#[test]
fn run_protocol_short_input() {
    // Host-side half of the 16-frame batch scenario: 44-byte inputs, one
    // 20-byte digest per frame. The kernel's bytes are simulated; only the
    // engine's bookkeeping is exercised here.
    let input = TEST_INPUT_SHORT.as_bytes();

    let mut job = DigestCommandRun::<SHA1>::new(SHA1, input.len(), 16);
    job.input_buffer();
    let mut filled: usize = 0;
    while job.next_input_frame(input) {
        filled += 1;
    }
    assert_eq!(filled, 16);

    let plan = job.run(32).expect("consistently sized buffers must dispatch");
    assert_eq!(plan.threads_per_group, 32);
    assert_eq!(plan.thread_groups, 1);

    assert_eq!(job.params().as_ref().inlen, input.len() as u64);
    assert_eq!(job.output_capacity(), 16 * 20);
    assert_eq!(job.output_actual_size(), 16 * 20);

    // The driver hands back one 20-byte result per frame.
    let fake_digest: [u8; 20] = [
        0, 1, 2, 3, 4, 5, 6, 7, 8, 9, 10, 11, 12, 13, 14, 15, 16, 17, 18, 19,
    ];
    let mut produced: Vec<u8> = Vec::new();
    for _ in 0..16 {
        produced.extend_from_slice(&fake_digest);
    }
    job.complete_run(&produced);

    let mut reader = job.output_buffer();
    assert_eq!(reader.num_frames(), 16);
    let mut frames: usize = 0;
    while let Some(frame) = reader.next_frame() {
        assert_eq!(frame, &fake_digest);
        frames += 1;
    }
    assert_eq!(frames, 16);
}

#[test]
fn run_reports_input_length_for_multi_block_input() {
    // An input longer than one 64-byte compression block: the engine must
    // still hand the exact length to the kernel via the parameter block.
    let input = vec![0x61u8; 131];
    let mut job = DigestCommandRun::<SHA1>::new(SHA1, input.len(), 4);
    job.input_buffer();
    while job.next_input_frame(&input) {}

    let plan = job.run(32).expect("consistently sized buffers must dispatch");
    assert_eq!(plan.thread_groups, 1);
    assert_eq!(job.params().as_ref().inlen, 131);
    assert_eq!(job.output_actual_size(), 4 * 20);
}

#[test]
fn empty_run_is_noop() {
    let mut job = DigestCommandRun::<SHA1>::new(SHA1, 10, 8);
    let plan = job.run(64).expect("an empty batch is a zero-group run");
    assert_eq!(plan.thread_groups, 0);
    assert_eq!(plan.threads_per_group, 64);
    assert_eq!(job.output_actual_size(), 0);

    let mut reader = job.output_buffer();
    assert!(reader.next_frame().is_none());
}

#[test]
fn grid_covers_count_off_execution_width() {
    // 33 frames over width 32 need two groups.
    let mut job = DigestCommandRun::<SHA1>::new(SHA1, 8, 33);
    job.input_buffer();
    while job.next_input_frame(&[0u8; 8]) {}
    let plan = job.run(32).expect("consistently sized buffers must dispatch");
    assert_eq!(plan.thread_groups, 2);
}

#[test]
fn capacity_violation_on_mismatched_buffers() {
    // Output sized for one digest, input for four frames: the run must
    // report the violation instead of writing past the output's bounds.
    let input = BatchBuffer::new(8, 4);
    let output = BatchBuffer::new(20, 1);
    let args = DigestRunArgsBuffer::new();
    let mut job = DigestCommandRun::<SHA1>::from_buffers(SHA1, input, output, args);

    job.input_buffer();
    while job.next_input_frame(&[0u8; 8]) {}

    match job.run(32) {
        Err(Error::CapacityViolation { frames, digest_size, capacity }) => {
            assert_eq!(frames, 4);
            assert_eq!(digest_size, 20);
            assert_eq!(capacity, 20);
        }
        other => panic!("expected a capacity violation, got {:?}", other.map(|_| ())),
    }
    assert_eq!(job.output_actual_size(), 0);
}

#[test]
fn capacity_violation_on_misaligned_output() {
    // Room enough in bytes, but the output's frames do not divide the
    // result: still a capacity violation, not a partial frame.
    let input = BatchBuffer::new(8, 1);
    let output = BatchBuffer::new(7, 20);
    let args = DigestRunArgsBuffer::new();
    let mut job = DigestCommandRun::<SHA1>::from_buffers(SHA1, input, output, args);

    job.input_buffer();
    while job.next_input_frame(&[0u8; 8]) {}

    assert!(matches!(
        job.run(32),
        Err(Error::CapacityViolation { frames: 1, digest_size: 20, capacity: 140 })
    ));
}

#[test]
fn partial_batch_run() {
    // Fewer frames than capacity: the run sizes everything from how many
    // frames were actually written, not from the configured count.
    let mut job = DigestCommandRun::<SHA1>::new(SHA1, 8, 16);
    job.input_buffer();
    assert!(job.next_input_frame(&[1u8; 8]));
    assert!(job.next_input_frame(&[2u8; 8]));

    let plan = job.run(32).expect("consistently sized buffers must dispatch");
    assert_eq!(plan.thread_groups, 1);
    assert_eq!(job.output_actual_size(), 2 * 20);

    let produced: Vec<u8> = (0u8..40).collect();
    job.complete_run(&produced);

    let mut reader = job.output_buffer();
    assert_eq!(reader.num_frames(), 2);
    assert_eq!(reader.next_frame().unwrap(), &produced[0..20]);
    assert_eq!(reader.next_frame().unwrap(), &produced[20..40]);
    assert!(reader.next_frame().is_none());
}

#[test]
fn input_bytes_hold_written_frames() {
    // The byte view the driver copies to the accelerator holds the frames
    // contiguously, in write order.
    let mut job = DigestCommandRun::<SHA1>::new(SHA1, 4, 3);
    job.input_buffer();
    assert!(job.next_input_frame(&[10, 11, 12, 13]));
    assert!(job.next_input_frame(&[20, 21, 22, 23]));

    assert_eq!(job.input_frame_length(), 4);
    let bytes = job.input_bytes();
    assert_eq!(bytes.len(), 12);
    assert_eq!(&bytes[0..8], &[10, 11, 12, 13, 20, 21, 22, 23]);
}
