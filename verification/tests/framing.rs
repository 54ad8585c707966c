use canary::error::ErrorKindSer;
use canary::framing::{frame_length, frame_message, read_frame, try_vec};

#[test]
fn frame_is_length_then_bytes() {
    assert_eq!(frame_message(b"abc"), vec![0, 0, 0, 0, 0, 0, 0, 3, b'a', b'b', b'c']);
    assert_eq!(frame_message(&[]), vec![0; 8]);
}

#[test]
fn frame_is_read_back_whatever_follows() {
    let mut bytes = frame_message(b"hello");
    bytes.extend_from_slice(b"tail");
    let (payload, n) = read_frame(&bytes).unwrap();
    assert_eq!(payload, b"hello".to_vec());
    assert_eq!(n, 13);
}

#[test]
fn frame_length_reads_the_header() {
    assert_eq!(frame_length(&[0, 0, 0, 0, 0, 0, 1, 0]).unwrap(), 256);
    assert_eq!(frame_length(&[0, 0, 0]).unwrap_err().kind, ErrorKindSer::UnexpectedEof);
}

#[test]
fn short_header_is_unexpected_eof() {
    assert_eq!(read_frame(&[0, 0, 0, 0]).unwrap_err().kind, ErrorKindSer::UnexpectedEof);
}

#[test]
fn incomplete_body_is_unexpected_eof() {
    let bytes = vec![0, 0, 0, 0, 0, 0, 0, 5, 1, 2];
    assert_eq!(read_frame(&bytes).unwrap_err().kind, ErrorKindSer::UnexpectedEof);
}

#[test]
fn huge_announced_length_does_not_abort() {
    let bytes = vec![0xff; 8];
    let e = read_frame(&bytes).unwrap_err();
    assert_eq!(e.kind, ErrorKindSer::OutOfMemory);
}

#[test]
fn try_vec_gives_default_values() {
    let v: Vec<u8> = try_vec(4).unwrap();
    assert_eq!(v, vec![0, 0, 0, 0]);
    let s: Vec<String> = try_vec(2).unwrap();
    assert_eq!(s, vec![String::new(), String::new()]);
}

#[test]
fn try_vec_refuses_an_impossible_size() {
    let r: Result<Vec<u64>, _> = try_vec(usize::MAX);
    assert_eq!(r.unwrap_err().kind, ErrorKindSer::OutOfMemory);
    let e = try_vec::<u8>(usize::MAX).unwrap_err();
    assert_eq!(e.kind, ErrorKindSer::OutOfMemory);
    assert!(e.message.starts_with(&format!("failed to reserve {} bytes, error: ", usize::MAX)));
}

#[test]
fn try_vec_of_nothing_is_empty() {
    let v: Vec<u8> = try_vec(0).unwrap();
    assert!(v.is_empty());
    assert_eq!(try_vec::<u8>(3).unwrap(), vec![0u8, 0, 0]);
}

#[test]
fn empty_frame_is_read_without_allocating() {
    let (payload, n) = read_frame(&[0, 0, 0, 0, 0, 0, 0, 0, 9]).unwrap();
    assert!(payload.is_empty());
    assert_eq!(n, 8);
}
