use orion_core::ipc::{
    encode_frame, is_unix_socket_path, take_frame, FrameStep, MAX_MESSAGE_SIZE,
};
use orion_core::errors::ProtocolError;

#[test]
fn two_frames_back_to_back_yield_two_messages() {
    let first = vec![1u8, 2, 3];
    let second = vec![9u8, 8, 7, 6];
    let mut stream = encode_frame(&first).unwrap();
    stream.extend(encode_frame(&second).unwrap());

    let (payload_one, next) = match take_frame(&stream, 0) {
        FrameStep::Complete(p, j) => (p, j),
        _ => panic!("first frame must be complete"),
    };
    assert_eq!(payload_one, first);

    let (payload_two, end) = match take_frame(&stream, next) {
        FrameStep::Complete(p, j) => (p, j),
        _ => panic!("second frame must be complete"),
    };
    assert_eq!(payload_two, second);
    assert_eq!(end, stream.len());
}

#[test]
fn size_guard_rejects_oversize_payload() {
    let oversize = vec![0u8; MAX_MESSAGE_SIZE + 1];
    assert_eq!(encode_frame(&oversize), Err(ProtocolError::TooLarge));
}

#[test]
fn largest_payload_is_accepted() {
    let payload = vec![7u8; MAX_MESSAGE_SIZE];
    let frame = encode_frame(&payload).unwrap();
    assert_eq!(frame.len(), 4 + MAX_MESSAGE_SIZE);
}

#[test]
fn short_header_is_incomplete() {
    let stream = vec![0u8, 0];
    assert!(matches!(take_frame(&stream, 0), FrameStep::Incomplete));
}

#[test]
fn short_payload_is_incomplete() {
    let mut stream = encode_frame(&vec![1u8, 2, 3, 4]).unwrap();
    stream.pop();
    assert!(matches!(take_frame(&stream, 0), FrameStep::Incomplete));
}

#[test]
fn oversize_declared_length_is_refused_without_data() {
    // A header declaring far more than the maximum, with no payload at all.
    let stream = vec![0xffu8, 0xff, 0xff, 0xff];
    assert!(matches!(take_frame(&stream, 0), FrameStep::Oversize));
}

#[test]
fn frame_layout_is_length_then_payload() {
    let frame = encode_frame(&vec![0xabu8, 0xcd]).unwrap();
    assert_eq!(frame, vec![0u8, 0, 0, 2, 0xab, 0xcd]);
}

#[test]
fn path_addresses_are_unix_sockets() {
    assert!(is_unix_socket_path("/tmp/orion.sock"));
    assert!(is_unix_socket_path("run/orion.sock"));
    assert!(!is_unix_socket_path("127.0.0.1:4000"));
    assert!(!is_unix_socket_path("localhost:9"));
}
