use canary::discovery::Status;

#[test]
fn status_bytes() {
    assert_eq!(Status::Found.to_u8(), 1);
    assert_eq!(Status::NotFound.to_u8(), 2);
    assert_eq!(Status::from_u8(1), Some(Status::Found));
    assert_eq!(Status::from_u8(2), Some(Status::NotFound));
    assert_eq!(Status::from_u8(0), None);
    assert_eq!(Status::from_u8(3), None);
}

#[test]
fn status_round_trips_through_its_byte() {
    for s in [Status::Found, Status::NotFound] {
        assert_eq!(Status::from_u8(s.to_u8()), Some(s));
    }
}
