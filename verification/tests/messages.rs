use nanvix_bench::wire::{frame_len, frame_message, missing_bytes, read_message, FrameError, LENGTH_SIZE};

#[test]
fn length_is_prepended_little_endian() {
    assert_eq!(frame_message(&[1, 2, 3]), vec![3, 0, 0, 0, 1, 2, 3]);
    assert_eq!(frame_message(&[]), vec![0, 0, 0, 0]);
    let long = vec![9u8; 0x0102_03];
    let frame = frame_message(&long);
    assert_eq!(frame[..LENGTH_SIZE], 0x0102_03u32.to_le_bytes());
    assert_eq!(frame[LENGTH_SIZE..], long[..]);
}

#[test]
fn framed_message_is_read_back() {
    for len in [0usize, 1, 10, 33, 255, 256, 70000] {
        let data: Vec<u8> = (0..len).map(|i| (i * 31 % 251) as u8).collect();
        let frame = frame_message(&data);
        assert_eq!(frame.len(), frame_len(len));
        assert_eq!(read_message(&frame), Ok(data.clone()));
        let mut more = frame.clone();
        more.extend_from_slice(&[1, 2, 3]);
        assert_eq!(read_message(&more), Ok(data));
    }
}

#[test]
fn message_is_as_long_as_announced() {
    assert_eq!(read_message(&[2, 0, 0, 0, 7, 8, 9]), Ok(vec![7, 8]));
    assert_eq!(read_message(&[0, 0, 0, 0, 7]), Ok(vec![]));
}

#[test]
fn bytes_without_length_are_refused() {
    assert_eq!(read_message(&[]), Err(FrameError::NoLength));
    assert_eq!(read_message(&[1, 0, 0]), Err(FrameError::NoLength));
}

#[test]
fn incomplete_message_is_refused() {
    assert_eq!(read_message(&[4, 0, 0, 0, 7, 8, 9]), Err(FrameError::Incomplete));
    assert_eq!(read_message(&[0, 0, 0, 1, 7]), Err(FrameError::Incomplete));
    assert_eq!(
        read_message(&[255, 255, 255, 255, 7]),
        Err(FrameError::Incomplete)
    );
}

#[test]
fn frame_is_rebuilt_from_its_message() {
    let frame = vec![3, 0, 0, 0, 5, 6, 7];
    let message = read_message(&frame).unwrap();
    assert_eq!(frame_message(&message), frame);
}

#[test]
fn different_messages_have_different_frames() {
    assert_ne!(frame_message(&[0]), frame_message(&[0, 0]));
    assert_ne!(frame_message(&[1, 2]), frame_message(&[2, 1]));
}

#[test]
fn frame_length_counts_the_length() {
    assert_eq!(frame_len(0), 4);
    assert_eq!(frame_len(33), 37);
}

#[test]
fn length_is_received_first_and_then_the_message() {
    let frame = frame_message(&[5, 6, 7]);
    assert_eq!(missing_bytes(&[]), 4);
    assert_eq!(missing_bytes(&frame[..3]), 1);
    assert_eq!(missing_bytes(&frame[..4]), 3);
    assert_eq!(missing_bytes(&frame[..6]), 1);
    assert_eq!(missing_bytes(&frame), 0);
    assert_eq!(missing_bytes(&[0, 0, 0, 0]), 0);
    assert_eq!(missing_bytes(&[255, 255, 255, 255]), u32::MAX as usize);
    assert_eq!(missing_bytes(&[1, 0, 0, 0, 9, 9]), 0);
}
