use canary::addr::Addr;
use canary::addr::SocketAddrRepr;
use canary::connect::{
    discovery_result, give_up_error, introduce_reply, introduction_reply, ws_url, ChannelKind, Retry, RetryDecision, DEFAULT_RETRIES,
    DEFAULT_RETRY_DELAY_MS,
};
use canary::discovery::Status;
use canary::error::ErrorKindSer;
use canary::routes::Switch;

#[test]
fn defaults_are_three_attempts_ten_ms_apart() {
    let r = Retry::with_defaults();
    assert_eq!((r.attempt, r.retries, r.time_to_retry), (0, 3, 10));
    assert_eq!(DEFAULT_RETRIES, 3);
    assert_eq!(DEFAULT_RETRY_DELAY_MS, 10);
}

#[test]
fn gives_up_at_the_last_attempt() {
    let mut r = Retry::new(3, 25);
    assert_eq!(r.on_failure(), RetryDecision { delay_ms: 25, give_up: false });
    assert_eq!(r.on_failure(), RetryDecision { delay_ms: 25, give_up: false });
    assert_eq!(r.on_failure(), RetryDecision { delay_ms: 25, give_up: true });
    assert_eq!(r.attempt, 3);
}

#[test]
fn one_attempt_gives_up_at_once() {
    let mut r = Retry::new(1, 0);
    assert!(r.on_failure().give_up);
}

#[test]
fn zero_attempts_never_reach_the_count() {
    let mut r = Retry::new(0, 1);
    for _ in 0..100 {
        assert!(!r.on_failure().give_up);
    }
}

#[test]
fn discovery_answer_decides_the_connection() {
    assert!(discovery_result(Status::Found).is_ok());
    assert_eq!(discovery_result(Status::NotFound).unwrap_err().kind, ErrorKindSer::NotFound);
    assert_eq!(introduction_reply(true), Some(Status::Found));
    assert_eq!(introduction_reply(false), None);
}

#[test]
fn channel_kinds_follow_the_address() {
    assert_eq!(Addr::from_str("tcp@1.2.3.4:5").unwrap().channel_kind(), ChannelKind::Tcp);
    assert_eq!(Addr::from_str("itcp@1.2.3.4:5").unwrap().channel_kind(), ChannelKind::InsecureTcp);
    assert_eq!(Addr::from_str("unix@s").unwrap().channel_kind(), ChannelKind::Unix);
    assert_eq!(Addr::from_str("iunix@s").unwrap().channel_kind(), ChannelKind::InsecureUnix);
    assert_eq!(Addr::from_str("wss@h:1").unwrap().channel_kind(), ChannelKind::Wss);
    assert_eq!(Addr::from_str("ws@h:1").unwrap().channel_kind(), ChannelKind::InsecureWss);
}

#[test]
fn securing_gives_the_encrypted_counterpart() {
    assert_eq!(ChannelKind::InsecureTcp.secured(), ChannelKind::Tcp);
    assert_eq!(ChannelKind::InsecureAny.secured(), ChannelKind::EncryptedAny);
    assert_eq!(ChannelKind::InsecureUnix.secured(), ChannelKind::Unix);
    assert_eq!(ChannelKind::InsecureWss.secured(), ChannelKind::Wss);
    assert_eq!(ChannelKind::Tcp.secured(), ChannelKind::Tcp);
    for k in [ChannelKind::InsecureTcp, ChannelKind::Wss, ChannelKind::InsecureAny] {
        assert!(k.secured().is_encrypted());
        assert_eq!(k.secured().secured(), k.secured());
    }
    assert!(!ChannelKind::InsecureWss.is_encrypted());
}

#[test]
fn only_tcp_and_unix_channels_tell_their_address() {
    assert!(ChannelKind::Tcp.supports_addr().is_ok());
    assert!(ChannelKind::InsecureUnix.supports_addr().is_ok());
    assert_eq!(ChannelKind::Wss.supports_addr().unwrap_err().kind, ErrorKindSer::Other);
    assert_eq!(ChannelKind::EncryptedAny.supports_addr().unwrap_err().kind, ErrorKindSer::Other);
}

#[test]
fn refused_discovery_is_answered_not_found() {
    assert_eq!(introduce_reply(Switch::NotFound), Some(Status::NotFound));
    assert_eq!(introduce_reply(Switch::Dropped), None);
    assert_eq!(introduce_reply(Switch::Delivered { service: 1, context: 0 }), None);
}

#[test]
fn websocket_url_of_a_socket_address() {
    let a = SocketAddrRepr::V4 { octets: [127, 0, 0, 1], port: 9000 };
    assert_eq!(ws_url(&a), "ws://127.0.0.1:9000");
    let b = SocketAddrRepr::V6 { segments: [0, 0, 0, 0, 0, 0, 0, 1], port: 1, flowinfo: 0, scope_id: 0 };
    assert_eq!(ws_url(&b), "ws://[::1]:1");
}

#[test]
fn giving_up_is_an_other_error() {
    let e = give_up_error("connection refused");
    assert_eq!(e.kind, ErrorKindSer::Other);
    assert_eq!(e.message, "connection refused");
    assert_eq!(ChannelKind::Wss.supports_addr().unwrap_err().message, "dynamic channels don't support addresses");
}
