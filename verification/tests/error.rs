use canary::error::{second_attempt, Error, ErrorKindSer};
use std::io::ErrorKind;

#[test]
fn kinds_are_numbered_in_order() {
    assert_eq!(ErrorKindSer::NotFound.to_u8(), 0);
    assert_eq!(ErrorKindSer::PermissionDenied.to_u8(), 1);
    assert_eq!(ErrorKindSer::AddrInUse.to_u8(), 8);
    assert_eq!(ErrorKindSer::InvalidInput.to_u8(), 20);
    assert_eq!(ErrorKindSer::InvalidData.to_u8(), 21);
    assert_eq!(ErrorKindSer::UnexpectedEof.to_u8(), 37);
    assert_eq!(ErrorKindSer::OutOfMemory.to_u8(), 38);
    assert_eq!(ErrorKindSer::Other.to_u8(), 39);
    assert_eq!(ErrorKindSer::Uncategorized.to_u8(), 40);
}

#[test]
fn every_byte_below_41_is_a_kind() {
    for b in 0u8..41 {
        let k = ErrorKindSer::from_u8(b).unwrap();
        assert_eq!(k.to_u8(), b);
    }
}

#[test]
fn bytes_from_41_are_refused() {
    assert_eq!(ErrorKindSer::from_u8(41), Err(41));
    assert_eq!(ErrorKindSer::from_u8(255), Err(255));
}

#[test]
fn kinds_without_std_counterpart_become_other() {
    assert!(ErrorKindSer::NotFound.is_std_mapped());
    assert!(ErrorKindSer::OutOfMemory.is_std_mapped());
    assert!(!ErrorKindSer::HostUnreachable.is_std_mapped());
    assert!(!ErrorKindSer::Uncategorized.is_std_mapped());
    assert_eq!(ErrorKindSer::TimedOut.through_std(), ErrorKindSer::TimedOut);
    assert_eq!(ErrorKindSer::Deadlock.through_std(), ErrorKindSer::Other);
    assert_eq!(ErrorKindSer::StorageFull.through_std(), ErrorKindSer::Other);
    let twice = ErrorKindSer::NetworkDown.through_std().through_std();
    assert_eq!(twice, ErrorKindSer::Other);
}

#[test]
fn error_keeps_kind_and_message() {
    let e = Error::new(ErrorKindSer::BrokenPipe, "connection broke");
    assert_eq!(e.kind(), ErrorKindSer::BrokenPipe);
    assert_eq!(e.message, "connection broke");
}

#[test]
fn kinds_convert_with_std_io() {
    assert_eq!(ErrorKindSer::from(ErrorKind::NotFound), ErrorKindSer::NotFound);
    assert_eq!(ErrorKindSer::from(ErrorKind::UnexpectedEof), ErrorKindSer::UnexpectedEof);
    assert_eq!(ErrorKindSer::from(ErrorKind::HostUnreachable), ErrorKindSer::Other);
    assert_eq!(ErrorKind::from(ErrorKindSer::OutOfMemory), ErrorKind::OutOfMemory);
    assert_eq!(ErrorKind::from(ErrorKindSer::Deadlock), ErrorKind::Other);
    for b in 0u8..41 {
        let k = ErrorKindSer::from_u8(b).unwrap();
        assert_eq!(ErrorKindSer::from(ErrorKind::from(k)), k.through_std());
    }
}

#[test]
fn second_format_success_is_kept() {
    let r: Result<u32, Error> = second_attempt(Ok(7));
    assert_eq!(r.unwrap(), 7);
}

#[test]
fn second_format_failure_is_invalid_data() {
    let r: Result<u32, Error> = second_attempt(Err(Error::new(ErrorKindSer::Other, "bad json")));
    let e = r.unwrap_err();
    assert_eq!(e.kind, ErrorKindSer::InvalidData);
    assert_eq!(e.message, "bad json");
}
