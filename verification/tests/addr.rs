use canary::addr::{Addr, AddressType, ServiceAddr, SocketAddrRepr};
use canary::error::ErrorKindSer;

fn v4(a: u8, b: u8, c: u8, d: u8, port: u16) -> SocketAddrRepr {
    SocketAddrRepr::V4 { octets: [a, b, c, d], port }
}

#[test]
fn socket_addresses_parse_as_std_does() {
    assert_eq!(
        Addr::from_str("tcp@[::1]:80").unwrap(),
        Addr::Tcp(SocketAddrRepr::V6 { segments: [0, 0, 0, 0, 0, 0, 0, 1], port: 80, flowinfo: 0, scope_id: 0 })
    );
    assert_eq!(Addr::from_str("itcp@10.0.0.2:443").unwrap(), Addr::InsecureTcp(v4(10, 0, 0, 2, 443)));
    assert_eq!(Addr::from_str("tcp@localhost:80").unwrap_err().kind, ErrorKindSer::InvalidInput);
}

#[test]
fn socket_addresses_display_as_std_does() {
    assert_eq!(Addr::Tcp(v4(10, 0, 0, 2, 443)).to_text(), "tcp@10.0.0.2:443");
    let six = SocketAddrRepr::V6 { segments: [0xfe80, 0, 0, 0, 0, 0, 0, 1], port: 9, flowinfo: 0, scope_id: 0 };
    assert_eq!(Addr::InsecureTcp(six).to_text(), "itcp@[fe80::1]:9");
}

#[test]
fn protocols_are_named() {
    assert_eq!(AddressType::from_str("tcp").unwrap(), AddressType::Tcp);
    assert_eq!(AddressType::from_str("itcp").unwrap(), AddressType::InsecureTcp);
    assert_eq!(AddressType::from_str("unix").unwrap(), AddressType::Unix);
    assert_eq!(AddressType::from_str("iunix").unwrap(), AddressType::InsecureUnix);
    assert_eq!(AddressType::from_str("wss").unwrap(), AddressType::Wss);
    assert_eq!(AddressType::from_str("ws").unwrap(), AddressType::InsecureWss);
    assert_eq!(AddressType::from_str("udp").unwrap_err().kind, ErrorKindSer::InvalidInput);
    assert_eq!(AddressType::from_str("TCP").unwrap_err().kind, ErrorKindSer::InvalidInput);
    assert_eq!(AddressType::InsecureUnix.as_ref(), "iunix");
    assert_eq!(AddressType::Wss.as_ref(), "wss");
}

#[test]
fn tcp_address_from_text() {
    let a = Addr::from_str("tcp@127.0.0.1:8080").unwrap();
    assert_eq!(a, Addr::Tcp(v4(127, 0, 0, 1, 8080)));
    assert_eq!(a.address_type(), AddressType::Tcp);
    assert_eq!(a.to_text(), "tcp@127.0.0.1:8080");
    let b = Addr::new("itcp@[::1]:7").unwrap();
    assert_eq!(b.address_type(), AddressType::InsecureTcp);
    assert_eq!(b.to_text(), "itcp@[::1]:7");
}

#[test]
fn path_and_websocket_addresses_are_kept_as_written() {
    assert_eq!(Addr::from_str("unix@mysocket.sock").unwrap(), Addr::Unix("mysocket.sock".to_string()));
    assert_eq!(Addr::from_str("iunix@/tmp/s").unwrap(), Addr::InsecureUnix("/tmp/s".to_string()));
    assert_eq!(Addr::from_str("wss@example.com:443").unwrap(), Addr::Wss("example.com:443".to_string()));
    assert_eq!(Addr::from_str("ws@localhost:80").unwrap(), Addr::InsecureWss("localhost:80".to_string()));
    assert_eq!(Addr::from_str("unix@").unwrap(), Addr::Unix(String::new()));
    assert_eq!(Addr::InsecureWss("h:1".to_string()).to_text(), "ws@h:1");
}

#[test]
fn address_errors_are_invalid_input() {
    for bad in ["tcp127.0.0.1:80", "udp@127.0.0.1:80", "tcp@localhost", "itcp@1.2.3.4", "", "@x"] {
        assert_eq!(Addr::from_str(bad).unwrap_err().kind, ErrorKindSer::InvalidInput, "{}", bad);
    }
}

#[test]
fn the_last_at_splits_the_address() {
    // the protocol part is everything before the last `@`
    assert_eq!(Addr::from_str("unix@a@b").unwrap_err().kind, ErrorKindSer::InvalidInput);
}

#[test]
fn address_round_trips_through_text() {
    for text in ["tcp@1.2.3.4:5", "unix@sock", "iunix@x/y", "wss@h:1", "ws@h:2", "itcp@[::]:0"] {
        let a = Addr::from_str(text).unwrap();
        assert_eq!(Addr::from_str(&a.to_text()).unwrap(), a);
        assert_eq!(a.to_text(), text);
    }
}

#[test]
fn service_address_from_text() {
    let s = ServiceAddr::from_str("tcp@127.0.0.1:8080://my_service").unwrap();
    assert_eq!(s.addr(), &Addr::Tcp(v4(127, 0, 0, 1, 8080)));
    assert_eq!(s.id(), "my_service");
    assert_eq!(s.to_text(), "tcp@127.0.0.1:8080://my_service");
    assert_eq!(s.take_addr(), Addr::Tcp(v4(127, 0, 0, 1, 8080)));
    let w = ServiceAddr::new("wss@example.com:443://chat").unwrap();
    assert_eq!(w.addr().address_type(), AddressType::Wss);
    assert_eq!(w.id(), "chat");
}

#[test]
fn service_address_splits_at_the_last_separator() {
    let s = ServiceAddr::from_str("ws@a://b://c").unwrap();
    assert_eq!(s.addr(), &Addr::InsecureWss("a://b".to_string()));
    assert_eq!(s.id(), "c");
}

#[test]
fn service_address_errors() {
    assert_eq!(ServiceAddr::from_str("tcp@127.0.0.1:80").unwrap_err().kind, ErrorKindSer::InvalidInput);
    assert_eq!(ServiceAddr::from_str("foo@x://svc").unwrap_err().kind, ErrorKindSer::InvalidInput);
    assert_eq!(ServiceAddr::from_str("tcp@nope://svc").unwrap_err().kind, ErrorKindSer::InvalidInput);
}

#[test]
fn address_ties_to_service() {
    let a = Addr::from_str("unix@s").unwrap();
    let s = a.clone().service("id");
    assert_eq!(s.addr(), &a);
    assert_eq!(s.id(), "id");
    assert_eq!(s.to_text(), "unix@s://id");
}

#[test]
fn address_errors_say_what_is_wrong() {
    assert_eq!(Addr::from_str("nothing").unwrap_err().message, "malformed address");
    assert_eq!(Addr::from_str("udp@1.2.3.4:5").unwrap_err().message, "unexpected protocol \"udp\"");
    assert_eq!(Addr::from_str("tcp@nope").unwrap_err().message, "invalid socket address syntax");
    assert_eq!(AddressType::from_str("TCP").unwrap_err().message, "unexpected protocol \"TCP\"");
    assert_eq!(ServiceAddr::from_str("unix@s").unwrap_err().message, "malformed service address");
    assert_eq!(ServiceAddr::from_str("x@s://id").unwrap_err().message, "unexpected protocol \"x\"");
}
